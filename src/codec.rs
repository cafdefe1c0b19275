use vstd::prelude::*;

use crate::bytes::{
    be16, be16_at, be32, be32_at, copy_all, copy_range, lemma_be16_round_trip,
    lemma_be32_round_trip, push_all, push_be16, push_be32, read_be16, read_be32,
};

verus! {

/// Length of the fixed BOOTP header.
pub const HEADER_LEN: usize = 236;

/// Offset of the first option byte: the header followed by the magic cookie.
pub const OPTIONS_START: usize = 240;

/// Smallest frame that `encode` produces; shorter ones are padded.
pub const MIN_FRAME_LEN: usize = 300;

pub const CHADDR_LEN: usize = 16;

pub const SNAME_LEN: usize = 64;

pub const FILE_LEN: usize = 128;

pub const OPT_PAD: u8 = 0;

pub const OPT_END: u8 = 255;

pub const OPT_OVERLOAD: u8 = 52;

/// The DHCP magic cookie 0x63825363.
pub open spec fn cookie() -> Seq<u8> {
    seq![0x63u8, 0x82u8, 0x53u8, 0x63u8]
}

/// One option: a tag and its raw value.
#[derive(Clone, Debug, PartialEq, Eq)]
pub struct DhcpOption {
    pub code: u8,
    pub data: Vec<u8>,
}

/// A DHCP message: the fixed BOOTP header and the options in wire order.
#[derive(Clone, Debug, PartialEq, Eq)]
pub struct Message {
    pub op: u8,
    pub htype: u8,
    pub hlen: u8,
    pub hops: u8,
    pub xid: u32,
    pub secs: u16,
    pub flags: u16,
    pub ciaddr: u32,
    pub yiaddr: u32,
    pub siaddr: u32,
    pub giaddr: u32,
    pub chaddr: Vec<u8>,
    pub sname: Vec<u8>,
    pub file: Vec<u8>,
    pub options: Vec<DhcpOption>,
}

/// Options as plain values.
pub type OptsView = Seq<(u8, Seq<u8>)>;

/// A message as plain values.
pub struct MessageView {
    pub op: u8,
    pub htype: u8,
    pub hlen: u8,
    pub hops: u8,
    pub xid: u32,
    pub secs: u16,
    pub flags: u16,
    pub ciaddr: u32,
    pub yiaddr: u32,
    pub siaddr: u32,
    pub giaddr: u32,
    pub chaddr: Seq<u8>,
    pub sname: Seq<u8>,
    pub file: Seq<u8>,
    pub options: OptsView,
}

#[derive(Clone, Copy, Debug, PartialEq, Eq)]
pub enum CodecError {
    Malformed,
}

pub open spec fn opts_view(v: Seq<DhcpOption>) -> OptsView {
    v.map_values(|o: DhcpOption| (o.code, o.data@))
}

impl View for Message {
    type V = MessageView;

    open spec fn view(&self) -> MessageView {
        MessageView {
            op: self.op,
            htype: self.htype,
            hlen: self.hlen,
            hops: self.hops,
            xid: self.xid,
            secs: self.secs,
            flags: self.flags,
            ciaddr: self.ciaddr,
            yiaddr: self.yiaddr,
            siaddr: self.siaddr,
            giaddr: self.giaddr,
            chaddr: self.chaddr@,
            sname: self.sname@,
            file: self.file@,
            options: opts_view(self.options@),
        }
    }
}

/// An option that can be written as one (tag, length, value) triple.
pub open spec fn encodable_opt(o: (u8, Seq<u8>)) -> bool {
    o.0 != OPT_PAD && o.0 != OPT_END && o.1.len() <= 255
}

impl MessageView {
    /// The fixed fields have their wire sizes and every option is encodable.
    pub open spec fn wf(self) -> bool {
        &&& self.chaddr.len() == CHADDR_LEN
        &&& self.sname.len() == SNAME_LEN
        &&& self.file.len() == FILE_LEN
        &&& forall|i: int| 0 <= i < self.options.len() ==> encodable_opt(#[trigger] self.options[i])
    }

    /// Messages that `decode` gives back unchanged: well formed, with no overload tag.
    pub open spec fn round_trips(self) -> bool {
        &&& self.wf()
        &&& forall|i: int| 0 <= i < self.options.len() ==> (#[trigger] self.options[i]).0 != OPT_OVERLOAD
    }
}

/// The 236 bytes of the BOOTP header.
pub open spec fn header_bytes(m: MessageView) -> Seq<u8> {
    seq![m.op, m.htype, m.hlen, m.hops] + be32(m.xid) + be16(m.secs) + be16(m.flags) + be32(m.ciaddr)
        + be32(m.yiaddr) + be32(m.siaddr) + be32(m.giaddr) + m.chaddr + m.sname + m.file
}

/// One option as a (tag, length, value) triple.
pub open spec fn opt_bytes(o: (u8, Seq<u8>)) -> Seq<u8> {
    seq![o.0, o.1.len() as u8] + o.1
}

/// The options one after another, without the end tag.
pub open spec fn opts_bytes(o: OptsView) -> Seq<u8>
    decreases o.len(),
{
    if o.len() == 0 {
        seq![]
    } else {
        opts_bytes(o.drop_last()) + opt_bytes(o.last())
    }
}

/// Zero padding after `used` bytes, up to the minimum frame length.
pub open spec fn padding(used: nat) -> Seq<u8> {
    if used < MIN_FRAME_LEN {
        Seq::new((MIN_FRAME_LEN - used) as nat, |i: int| 0u8)
    } else {
        seq![]
    }
}

/// The wire form of a message.
pub open spec fn encode_spec(m: MessageView) -> Seq<u8> {
    let body = header_bytes(m) + cookie() + opts_bytes(m.options) + seq![OPT_END];
    body + padding(body.len())
}

/// Parses an option area: pad bytes are skipped, the end tag or the end of the
/// area stops it, and a triple that runs past the area makes it fail.
pub open spec fn parse_opts(s: Seq<u8>) -> Option<OptsView>
    decreases s.len(),
{
    if s.len() == 0 {
        Some(seq![])
    } else if s[0] == OPT_END {
        Some(seq![])
    } else if s[0] == OPT_PAD {
        parse_opts(s.drop_first())
    } else if s.len() < 2 || s.len() < 2 + s[1] {
        None
    } else {
        match parse_opts(s.skip(2 + s[1])) {
            Some(rest) => Some(seq![(s[0], s.subrange(2, 2 + s[1]))] + rest),
            None => None,
        }
    }
}

/// The value of the last well-formed overload option, 0 if there is none.
pub open spec fn overload_of(o: OptsView) -> u8
    decreases o.len(),
{
    if o.len() == 0 {
        0
    } else if o.last().0 == OPT_OVERLOAD && o.last().1.len() == 1 {
        o.last().1[0]
    } else {
        overload_of(o.drop_last())
    }
}

/// The options other than those with tag `code`, in order.
pub open spec fn without_code(o: OptsView, code: u8) -> OptsView
    decreases o.len(),
{
    if o.len() == 0 {
        seq![]
    } else if o.last().0 == code {
        without_code(o.drop_last(), code)
    } else {
        without_code(o.drop_last(), code).push(o.last())
    }
}

/// The options carried in the `file` (flag 1) and `sname` (flag 2) fields
/// when the overload option asks for it, `file` first.
pub open spec fn overload_opts(ov: u8, file: Seq<u8>, sname: Seq<u8>) -> Option<OptsView> {
    let f = if ov == 1 || ov == 3 { parse_opts(file) } else { Some(seq![]) };
    let s = if ov == 2 || ov == 3 { parse_opts(sname) } else { Some(seq![]) };
    match (f, s) {
        (Some(fo), Some(so)) => Some(fo + so),
        _ => None,
    }
}

/// The message that a frame holds, or `Malformed` when it is too short,
/// lacks the cookie, or holds a truncated option.
pub open spec fn decode_spec(b: Seq<u8>) -> Result<MessageView, CodecError> {
    if b.len() < OPTIONS_START || b.subrange(236, 240) != cookie() {
        Err(CodecError::Malformed)
    } else {
        let file = b.subrange(108, 236);
        let sname = b.subrange(44, 108);
        match parse_opts(b.skip(240)) {
            None => Err(CodecError::Malformed),
            Some(main) => match overload_opts(overload_of(main), file, sname) {
                None => Err(CodecError::Malformed),
                Some(extra) => Ok(
                    MessageView {
                        op: b[0],
                        htype: b[1],
                        hlen: b[2],
                        hops: b[3],
                        xid: be32_at(b, 4),
                        secs: be16_at(b, 8),
                        flags: be16_at(b, 10),
                        ciaddr: be32_at(b, 12),
                        yiaddr: be32_at(b, 16),
                        siaddr: be32_at(b, 20),
                        giaddr: be32_at(b, 24),
                        chaddr: b.subrange(28, 44),
                        sname,
                        file,
                        options: without_code(main, OPT_OVERLOAD) + extra,
                    },
                ),
            },
        }
    }
}

proof fn lemma_opts_bytes_first(o: OptsView)
    requires
        o.len() > 0,
    ensures
        opts_bytes(o) == opt_bytes(o[0]) + opts_bytes(o.drop_first()),
    decreases o.len(),
{
    if o.len() == 1 {
        assert(o.drop_last() =~= seq![]);
        assert(o.drop_first() =~= seq![]);
        assert(opts_bytes(o.drop_first()) =~= seq![]);
        assert(opts_bytes(o) =~= opt_bytes(o[0]) + opts_bytes(o.drop_first()));
    } else {
        lemma_opts_bytes_first(o.drop_last());
        assert(o.drop_last().drop_first() =~= o.drop_first().drop_last());
        assert(o.drop_first().last() == o.last());
        assert(o.drop_last()[0] == o[0]);
        assert(opts_bytes(o) =~= opt_bytes(o[0]) + opts_bytes(o.drop_first()));
    }
}

proof fn lemma_parse_opts_bytes(o: OptsView, tail: Seq<u8>)
    requires
        forall|i: int| 0 <= i < o.len() ==> encodable_opt(#[trigger] o[i]),
        tail.len() > 0,
        tail[0] == OPT_END,
    ensures
        parse_opts(opts_bytes(o) + tail) == Some(o),
    decreases o.len(),
{
    let s = opts_bytes(o) + tail;
    if o.len() == 0 {
        assert(s =~= tail);
        assert(o =~= seq![]);
    } else {
        lemma_opts_bytes_first(o);
        let rest = o.drop_first();
        assert(encodable_opt(o[0]));
        assert forall|i: int| 0 <= i < rest.len() implies encodable_opt(#[trigger] rest[i]) by {
            assert(rest[i] == o[i + 1]);
        }
        lemma_parse_opts_bytes(rest, tail);
        let n = o[0].1.len();
        assert(s =~= seq![o[0].0, n as u8] + o[0].1 + (opts_bytes(rest) + tail));
        assert(s[0] == o[0].0);
        assert(s[1] == n as u8);
        assert(s.skip(2 + s[1]) =~= opts_bytes(rest) + tail);
        assert(s.subrange(2, 2 + s[1]) =~= o[0].1);
        assert(seq![(s[0], s.subrange(2, 2 + s[1]))] + rest =~= o);
    }
}

proof fn lemma_overload_absent(o: OptsView)
    requires
        forall|i: int| 0 <= i < o.len() ==> (#[trigger] o[i]).0 != OPT_OVERLOAD,
    ensures
        overload_of(o) == 0,
        without_code(o, OPT_OVERLOAD) == o,
    decreases o.len(),
{
    if o.len() > 0 {
        let p = o.drop_last();
        assert forall|i: int| 0 <= i < p.len() implies (#[trigger] p[i]).0 != OPT_OVERLOAD by {
            assert(p[i] == o[i]);
        }
        lemma_overload_absent(p);
        assert(o.last() == o[o.len() - 1]);
        assert(p.push(o.last()) =~= o);
    }
}

/// Decoding the encoding of a message gives the message back, for every
/// well-formed message whose options do not use the overload tag (unknown
/// tags included).
pub proof fn lemma_round_trip(m: MessageView)
    requires
        m.round_trips(),
    ensures
        decode_spec(encode_spec(m)) == Ok::<MessageView, CodecError>(m),
{
    let h = header_bytes(m);
    let body = h + cookie() + opts_bytes(m.options) + seq![OPT_END];
    let b = encode_spec(m);
    assert(h.len() == HEADER_LEN);
    let tail = seq![OPT_END] + padding(body.len());
    assert(b.skip(240) =~= opts_bytes(m.options) + tail);
    assert(b.subrange(236, 240) =~= cookie());
    lemma_parse_opts_bytes(m.options, tail);
    lemma_overload_absent(m.options);
    assert(b.subrange(0, 236) =~= h);
    lemma_be32_round_trip(m.xid);
    lemma_be16_round_trip(m.secs);
    lemma_be16_round_trip(m.flags);
    lemma_be32_round_trip(m.ciaddr);
    lemma_be32_round_trip(m.yiaddr);
    lemma_be32_round_trip(m.siaddr);
    lemma_be32_round_trip(m.giaddr);
    assert(b.subrange(28, 44) =~= m.chaddr);
    assert(b.subrange(44, 108) =~= m.sname);
    assert(b.subrange(108, 236) =~= m.file);
    assert(m.options + seq![] =~= m.options);
    let d = decode_spec(b).unwrap();
    assert(d.xid == m.xid);
    assert(d.secs == m.secs);
    assert(d.flags == m.flags);
    assert(d.ciaddr == m.ciaddr);
    assert(d.yiaddr == m.yiaddr);
    assert(d.siaddr == m.siaddr);
    assert(d.giaddr == m.giaddr);
}

/// Prepends `a` to a parse result.
pub open spec fn join(a: OptsView, r: Option<OptsView>) -> Option<OptsView> {
    match r {
        Some(x) => Some(a + x),
        None => None,
    }
}

/// A decode result as plain values.
pub open spec fn result_view(r: Result<Message, CodecError>) -> Result<MessageView, CodecError> {
    match r {
        Ok(m) => Ok(m@),
        Err(e) => Err(e),
    }
}

impl DhcpOption {
    /// A field-by-field copy.
    pub fn copy(&self) -> (r: DhcpOption)
        ensures
            r.code == self.code,
            r.data@ == self.data@,
    {
        DhcpOption { code: self.code, data: copy_all(self.data.as_slice()) }
    }
}

impl Message {
    /// The value of the first option with tag `code`.
    pub fn option(&self, code: u8) -> (r: Option<&Vec<u8>>)
        ensures
            r.is_some() == opt_lookup(self@.options, code).is_some(),
            r.is_some() ==> r.unwrap()@ == opt_lookup(self@.options, code).unwrap(),
    {
        let ghost o = self@.options;
        let mut i: usize = 0;
        assert(o.skip(0) =~= o);
        while i < self.options.len()
            invariant
                i <= self.options@.len(),
                o == self@.options,
                opt_lookup(o, code) == opt_lookup(o.skip(i as int), code),
            decreases self.options@.len() - i,
        {
            assert(o.skip(i as int)[0] == o[i as int]);
            if self.options[i].code == code {
                return Some(&self.options[i].data);
            }
            assert(o.skip(i as int).drop_first() =~= o.skip(i + 1));
            i = i + 1;
        }
        assert(o.skip(i as int).len() == 0);
        None
    }
}

/// The value of the first option with tag `code`.
pub open spec fn opt_lookup(o: OptsView, code: u8) -> Option<Seq<u8>>
    decreases o.len(),
{
    if o.len() == 0 {
        None
    } else if o[0].0 == code {
        Some(o[0].1)
    } else {
        opt_lookup(o.drop_first(), code)
    }
}

/// Serialises a message: header, cookie, options, end tag, padding.
pub fn encode(m: &Message) -> (r: Vec<u8>)
    requires
        m@.wf(),
    ensures
        r@ == encode_spec(m@),
{
    let mut out: Vec<u8> = Vec::new();
    out.push(m.op);
    out.push(m.htype);
    out.push(m.hlen);
    out.push(m.hops);
    push_be32(&mut out, m.xid);
    push_be16(&mut out, m.secs);
    push_be16(&mut out, m.flags);
    push_be32(&mut out, m.ciaddr);
    push_be32(&mut out, m.yiaddr);
    push_be32(&mut out, m.siaddr);
    push_be32(&mut out, m.giaddr);
    push_all(&mut out, m.chaddr.as_slice());
    push_all(&mut out, m.sname.as_slice());
    push_all(&mut out, m.file.as_slice());
    assert(out@ =~= header_bytes(m@));
    out.push(0x63u8);
    out.push(0x82u8);
    out.push(0x53u8);
    out.push(0x63u8);
    let ghost prefix = header_bytes(m@) + cookie();
    assert(out@ =~= prefix);
    let ghost o = m@.options;
    assert(o.take(0) =~= seq![]);
    let mut i: usize = 0;
    while i < m.options.len()
        invariant
            i <= m.options@.len(),
            o == m@.options,
            m@.wf(),
            out@ == prefix + opts_bytes(o.take(i as int)),
        decreases m.options@.len() - i,
    {
        let opt = &m.options[i];
        assert(o[i as int] == (opt.code, opt.data@));
        assert(encodable_opt(o[i as int]));
        out.push(opt.code);
        out.push(opt.data.len() as u8);
        push_all(&mut out, opt.data.as_slice());
        assert(o.take(i + 1).drop_last() =~= o.take(i as int));
        assert(o.take(i + 1).last() == o[i as int]);
        i = i + 1;
        assert(out@ =~= prefix + opts_bytes(o.take(i as int)));
    }
    assert(o.take(i as int) =~= o);
    out.push(OPT_END);
    let ghost body = out@;
    assert(body =~= header_bytes(m@) + cookie() + opts_bytes(m@.options) + seq![OPT_END]);
    while out.len() < MIN_FRAME_LEN
        invariant
            body.len() <= out@.len(),
            out@ == body + Seq::new((out@.len() - body.len()) as nat, |j: int| 0u8),
            out@.len() > MIN_FRAME_LEN ==> out@.len() == body.len(),
        decreases MIN_FRAME_LEN - out@.len(),
    {
        out.push(0u8);
        assert(out@ =~= body + Seq::new((out@.len() - body.len()) as nat, |j: int| 0u8));
    }
    assert(out@ =~= body + padding(body.len()));
    out
}

/// Parses the option area `b[start..end]`.
pub fn parse_options(b: &[u8], start: usize, end: usize) -> (r: Option<Vec<DhcpOption>>)
    requires
        start <= end <= b@.len(),
    ensures
        r.is_some() == parse_opts(b@.subrange(start as int, end as int)).is_some(),
        r.is_some() ==> parse_opts(b@.subrange(start as int, end as int)) == Some(
            opts_view(r.unwrap()@),
        ),
{
    let ghost s = b@.subrange(start as int, end as int);
    let mut acc: Vec<DhcpOption> = Vec::new();
    let mut pos: usize = start;
    assert(opts_view(acc@) + seq![] =~= seq![]);
    assert(b@.subrange(pos as int, end as int) =~= s);
    assert(forall|x: OptsView| seq![] + x =~= x);
    while pos < end
        invariant
            start <= pos <= end <= b@.len(),
            s == b@.subrange(start as int, end as int),
            parse_opts(s) == join(opts_view(acc@), parse_opts(b@.subrange(pos as int, end as int))),
        decreases end - pos,
    {
        let ghost t = b@.subrange(pos as int, end as int);
        let code = b[pos];
        assert(t[0] == code);
        if code == OPT_END {
            assert(opts_view(acc@) + seq![] =~= opts_view(acc@));
            return Some(acc);
        }
        if code == OPT_PAD {
            assert(t.drop_first() =~= b@.subrange(pos + 1, end as int));
            pos = pos + 1;
        } else {
            if end - pos < 2 {
                return None;
            }
            let len = b[pos + 1] as usize;
            assert(t[1] == len);
            if end - pos - 2 < len {
                return None;
            }
            let data = copy_range(b, pos + 2, pos + 2 + len);
            let ghost item = (code, data@);
            assert(t.subrange(2, 2 + t[1]) =~= data@);
            assert(t.skip(2 + t[1]) =~= b@.subrange(pos + 2 + len, end as int));
            let ghost old_acc = opts_view(acc@);
            acc.push(DhcpOption { code, data });
            assert(opts_view(acc@) =~= old_acc.push(item));
            assert(forall|x: OptsView| old_acc + (seq![item] + x) =~= old_acc.push(item) + x);
            pos = pos + 2 + len;
        }
    }
    assert(b@.subrange(pos as int, end as int).len() == 0);
    assert(opts_view(acc@) + seq![] =~= opts_view(acc@));
    Some(acc)
}

/// The value of the last well-formed overload option, 0 if there is none.
fn find_overload(opts: &Vec<DhcpOption>) -> (r: u8)
    ensures
        r == overload_of(opts_view(opts@)),
{
    let ghost o = opts_view(opts@);
    let mut r: u8 = 0;
    let mut i: usize = 0;
    assert(o.take(0) =~= seq![]);
    while i < opts.len()
        invariant
            i <= opts@.len(),
            o == opts_view(opts@),
            r == overload_of(o.take(i as int)),
        decreases opts@.len() - i,
    {
        assert(o.take(i + 1).drop_last() =~= o.take(i as int));
        assert(o.take(i + 1).last() == (opts[i as int].code, opts[i as int].data@));
        if opts[i].code == OPT_OVERLOAD && opts[i].data.len() == 1 {
            r = opts[i].data[0];
        }
        i = i + 1;
    }
    assert(o.take(i as int) =~= o);
    r
}

/// Copies of the options whose tag is not `code`, in order.
fn drop_code(opts: &Vec<DhcpOption>, code: u8) -> (r: Vec<DhcpOption>)
    ensures
        opts_view(r@) == without_code(opts_view(opts@), code),
{
    let ghost o = opts_view(opts@);
    let mut r: Vec<DhcpOption> = Vec::new();
    let mut i: usize = 0;
    assert(o.take(0) =~= seq![]);
    assert(opts_view(r@) =~= seq![]);
    while i < opts.len()
        invariant
            i <= opts@.len(),
            o == opts_view(opts@),
            opts_view(r@) == without_code(o.take(i as int), code),
        decreases opts@.len() - i,
    {
        assert(o.take(i + 1).drop_last() =~= o.take(i as int));
        assert(o.take(i + 1).last() == (opts[i as int].code, opts[i as int].data@));
        if opts[i].code != code {
            let c = opts[i].copy();
            let ghost before = opts_view(r@);
            r.push(c);
            assert(opts_view(r@) =~= before.push((c.code, c.data@)));
        }
        i = i + 1;
    }
    assert(o.take(i as int) =~= o);
    r
}

/// Parses a frame into a message. The options of the `file` and `sname`
/// fields follow those of the option area when the overload option asks for
/// them, and the overload option itself is consumed.
pub fn decode(b: &[u8]) -> (r: Result<Message, CodecError>)
    ensures
        result_view(r) == decode_spec(b@),
{
    if b.len() < OPTIONS_START || b[236] != 0x63u8 || b[237] != 0x82u8 || b[238] != 0x53u8
        || b[239] != 0x63u8 {
        proof {
            if b@.len() >= OPTIONS_START {
                let c = b@.subrange(236, 240);
                assert(c[0] == b@[236] && c[1] == b@[237] && c[2] == b@[238] && c[3] == b@[239]);
            }
        }
        return Err(CodecError::Malformed);
    }
    assert(b@.subrange(236, 240) =~= cookie());
    assert(b@.subrange(240, b@.len() as int) =~= b@.skip(240));
    let main = match parse_options(b, OPTIONS_START, b.len()) {
        Some(v) => v,
        None => {
            return Err(CodecError::Malformed);
        },
    };
    let ov = find_overload(&main);
    let mut options = drop_code(&main, OPT_OVERLOAD);
    let ghost fv = b@.subrange(108, 236);
    let ghost sv = b@.subrange(44, 108);
    let mut from_file: Vec<DhcpOption> = Vec::new();
    if ov == 1 || ov == 3 {
        match parse_options(b, 108, 236) {
            Some(v) => {
                from_file = v;
            },
            None => {
                return Err(CodecError::Malformed);
            },
        }
    }
    let mut from_sname: Vec<DhcpOption> = Vec::new();
    if ov == 2 || ov == 3 {
        match parse_options(b, 44, 108) {
            Some(v) => {
                from_sname = v;
            },
            None => {
                return Err(CodecError::Malformed);
            },
        }
    }
    assert(opts_view(from_file@) + opts_view(from_sname@) =~= opts_view(from_file@ + from_sname@));
    let ghost before = opts_view(options@);
    options.append(&mut from_file);
    options.append(&mut from_sname);
    assert(opts_view(options@) =~= before + overload_opts(ov, fv, sv).unwrap());
    let m = Message {
        op: b[0],
        htype: b[1],
        hlen: b[2],
        hops: b[3],
        xid: read_be32(b, 4),
        secs: read_be16(b, 8),
        flags: read_be16(b, 10),
        ciaddr: read_be32(b, 12),
        yiaddr: read_be32(b, 16),
        siaddr: read_be32(b, 20),
        giaddr: read_be32(b, 24),
        chaddr: copy_range(b, 28, 44),
        sname: copy_range(b, 44, 108),
        file: copy_range(b, 108, 236),
        options,
    };
    Ok(m)
}

} // verus!
