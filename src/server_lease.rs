use vstd::prelude::*;

use crate::text::{
    all_digits, digits_value, parse_unsigned, parse_unsigned_range, pieces, split_on,
    split_ranges, trim_end, trim_white_space_end, word_ranges, words,
};

verus! {

/// One line of a dnsmasq lease file:
/// `<expiry> <mac> <ip> <host name> <client id as hex bytes joined by ':'>`.
#[derive(Debug, PartialEq)]
pub struct DhcpServerLease {
    pub expire: u32,
    pub mac: String,
    /// The leased address as a host-order integer.
    pub ip: u32,
    pub host_name: String,
    pub client_id: Vec<u8>,
}

/// A lease line that does not have the expected shape.
#[derive(Debug, PartialEq, Eq, Clone, Copy)]
pub struct ParseLeaseErr;

/// A server lease as plain values.
pub struct ServerLeaseView {
    pub expire: u32,
    pub mac: Seq<char>,
    pub ip: u32,
    pub host_name: Seq<char>,
    pub client_id: Seq<u8>,
}

impl View for DhcpServerLease {
    type V = ServerLeaseView;

    open spec fn view(&self) -> ServerLeaseView {
        ServerLeaseView {
            expire: self.expire,
            mac: self.mac@,
            ip: self.ip,
            host_name: self.host_name@,
            client_id: self.client_id@,
        }
    }
}

/// One decimal octet of a dotted quad: one to three digits, no leading zero,
/// at most 255.
pub open spec fn octet_ok(t: Seq<char>) -> bool {
    &&& 1 <= t.len() <= 3
    &&& all_digits(t, 10)
    &&& !(t.len() > 1 && t[0] == '0')
    &&& digits_value(t, 10) <= 255
}

/// The address that a dotted quad writes, as a host-order integer.
pub open spec fn parse_ipv4(s: Seq<char>) -> Option<u32> {
    let p = split_on(s, '.');
    if p.len() == 4 && octet_ok(p[0]) && octet_ok(p[1]) && octet_ok(p[2]) && octet_ok(p[3]) {
        Some(
            (digits_value(p[0], 10) * 16777216 + digits_value(p[1], 10) * 65536 + digits_value(
                p[2],
                10,
            ) * 256 + digits_value(p[3], 10)) as u32,
        )
    } else {
        None
    }
}

/// The bytes that hexadecimal pieces write, each one parsed as a `u8`.
pub open spec fn hex_bytes(p: Seq<Seq<char>>) -> Option<Seq<u8>>
    decreases p.len(),
{
    if p.len() == 0 {
        Some(seq![])
    } else {
        match (hex_bytes(p.drop_last()), parse_unsigned(p.last(), 16, 255)) {
            (Some(r), Some(v)) => Some(r.push(v as u8)),
            _ => None,
        }
    }
}

/// The lease that a line holds: exactly five words, the first a `u32`, the
/// third a dotted quad and the fifth hex bytes joined by ':'.
pub open spec fn parse_lease_line(s: Seq<char>) -> Option<ServerLeaseView> {
    let w = words(s);
    if w.len() != 5 {
        None
    } else {
        match (parse_unsigned(w[0], 10, 0xffff_ffff), parse_ipv4(w[2]), hex_bytes(
            split_on(w[4], ':'),
        )) {
            (Some(expire), Some(ip), Some(client_id)) => Some(
                ServerLeaseView { expire: expire as u32, mac: w[1], ip, host_name: w[3], client_id },
            ),
            _ => None,
        }
    }
}

/// The MAC address in the output of the command that prints it: the output
/// without its trailing white space.
pub fn get_test_veth_cli_mac(cmd_output: &str) -> (r: String)
    ensures
        r@ == trim_end(cmd_output@),
{
    trim_white_space_end(cmd_output)
}

/// Parses one octet `s[a..b]` of a dotted quad.
fn parse_octet(s: &str, a: usize, b: usize) -> (r: Option<u64>)
    requires
        a <= b <= s@.len(),
    ensures
        r.is_some() == octet_ok(s@.subrange(a as int, b as int)),
        r.is_some() ==> r.unwrap() == digits_value(s@.subrange(a as int, b as int), 10),
{
    let ghost t = s@.subrange(a as int, b as int);
    if b - a < 1 || b - a > 3 {
        return None;
    }
    let first = s.get_char(a);
    assert(t[0] == first);
    if first == '+' {
        proof {
            assert(!all_digits(t, 10)) by {
                assert(crate::text::digit_of(t[0], 10).is_none());
            }
        }
        return None;
    }
    if b - a > 1 && first == '0' {
        return None;
    }
    let r = parse_unsigned_range(s, a, b, 10, 255);
    assert(t.len() > 0 && t[0] != '+');
    r
}

/// Parses a dotted quad `s[a..b]`.
fn parse_ipv4_range(s: &str, a: usize, b: usize) -> (r: Option<u32>)
    requires
        a <= b <= s@.len(),
    ensures
        r == parse_ipv4(s@.subrange(a as int, b as int)),
{
    let p = split_ranges(s, a, b, '.');
    let ghost ps = pieces(s@, p@);
    if p.len() != 4 {
        return None;
    }
    assert(ps[0] == s@.subrange(p@[0].0 as int, p@[0].1 as int));
    assert(ps[1] == s@.subrange(p@[1].0 as int, p@[1].1 as int));
    assert(ps[2] == s@.subrange(p@[2].0 as int, p@[2].1 as int));
    assert(ps[3] == s@.subrange(p@[3].0 as int, p@[3].1 as int));
    let o0 = match parse_octet(s, p[0].0, p[0].1) {
        Some(v) => v,
        None => {
            return None;
        },
    };
    let o1 = match parse_octet(s, p[1].0, p[1].1) {
        Some(v) => v,
        None => {
            return None;
        },
    };
    let o2 = match parse_octet(s, p[2].0, p[2].1) {
        Some(v) => v,
        None => {
            return None;
        },
    };
    let o3 = match parse_octet(s, p[3].0, p[3].1) {
        Some(v) => v,
        None => {
            return None;
        },
    };
    Some((o0 * 16777216 + o1 * 65536 + o2 * 256 + o3) as u32)
}

/// Parses hex bytes joined by ':' in `s[a..b]`.
fn parse_hex_bytes(s: &str, a: usize, b: usize) -> (r: Option<Vec<u8>>)
    requires
        a <= b <= s@.len(),
    ensures
        r.is_some() == hex_bytes(split_on(s@.subrange(a as int, b as int), ':')).is_some(),
        r.is_some() ==> r.unwrap()@ == hex_bytes(
            split_on(s@.subrange(a as int, b as int), ':'),
        ).unwrap(),
{
    let p = split_ranges(s, a, b, ':');
    let ghost ps = pieces(s@, p@);
    let mut out: Vec<u8> = Vec::new();
    let mut i: usize = 0;
    assert(ps.take(0) =~= seq![]);
    while i < p.len()
        invariant
            i <= p@.len(),
            ps == pieces(s@, p@),
            ps == split_on(s@.subrange(a as int, b as int), ':'),
            forall|j: int| 0 <= j < p@.len() ==> a <= (#[trigger] p@[j]).0 <= p@[j].1 <= b,
            b <= s@.len(),
            hex_bytes(ps.take(i as int)) == Some(out@),
        decreases p@.len() - i,
    {
        let (x, y) = p[i];
        assert(p@[i as int] == (x, y));
        assert(ps.take(i + 1).drop_last() =~= ps.take(i as int));
        assert(ps.take(i + 1).last() == s@.subrange(x as int, y as int));
        match parse_unsigned_range(s, x, y, 16, 255) {
            Some(v) => {
                out.push(v as u8);
            },
            None => {
                proof {
                    lemma_hex_bytes_fails(ps, i as int + 1);
                }
                return None;
            },
        }
        i = i + 1;
    }
    assert(ps.take(i as int) =~= ps);
    Some(out)
}

proof fn lemma_hex_bytes_fails(p: Seq<Seq<char>>, k: int)
    requires
        0 <= k <= p.len(),
        hex_bytes(p.take(k)).is_none(),
    ensures
        hex_bytes(p).is_none(),
    decreases p.len() - k,
{
    if k < p.len() {
        assert(p.take(k + 1).drop_last() =~= p.take(k));
        lemma_hex_bytes_fails(p, k + 1);
    } else {
        assert(p.take(k) =~= p);
    }
}

impl DhcpServerLease {
    /// Parses one lease line.
    pub fn from_str(s: &str) -> (r: Result<DhcpServerLease, ParseLeaseErr>)
        ensures
            r.is_ok() == parse_lease_line(s@).is_some(),
            r.is_ok() ==> parse_lease_line(s@) == Some(r.unwrap()@),
    {
        let w = word_ranges(s);
        let ghost ws = pieces(s@, w@);
        if w.len() != 5 {
            return Err(ParseLeaseErr);
        }
        assert(ws[0] == s@.subrange(w@[0].0 as int, w@[0].1 as int));
        assert(ws[1] == s@.subrange(w@[1].0 as int, w@[1].1 as int));
        assert(ws[2] == s@.subrange(w@[2].0 as int, w@[2].1 as int));
        assert(ws[3] == s@.subrange(w@[3].0 as int, w@[3].1 as int));
        assert(ws[4] == s@.subrange(w@[4].0 as int, w@[4].1 as int));
        let expire = match parse_unsigned_range(s, w[0].0, w[0].1, 10, 0xffff_ffff) {
            Some(v) => v as u32,
            None => {
                return Err(ParseLeaseErr);
            },
        };
        let ip = match parse_ipv4_range(s, w[2].0, w[2].1) {
            Some(v) => v,
            None => {
                return Err(ParseLeaseErr);
            },
        };
        let client_id = match parse_hex_bytes(s, w[4].0, w[4].1) {
            Some(v) => v,
            None => {
                return Err(ParseLeaseErr);
            },
        };
        let mac = s.substring_char(w[1].0, w[1].1).to_owned();
        let host_name = s.substring_char(w[3].0, w[3].1).to_owned();
        Ok(DhcpServerLease { expire, mac, ip, host_name, client_id })
    }
}

/// The six bytes of a MAC address written as hex bytes joined by ':'.
pub fn parse_mac(s: &str) -> (r: Option<Vec<u8>>)
    ensures
        r.is_some() == (hex_bytes(split_on(s@, ':')).is_some() && hex_bytes(
            split_on(s@, ':'),
        ).unwrap().len() == 6),
        r.is_some() ==> r.unwrap()@ == hex_bytes(split_on(s@, ':')).unwrap(),
{
    let n = s.unicode_len();
    assert(s@.subrange(0, n as int) =~= s@);
    match parse_hex_bytes(s, 0, n) {
        Some(v) => if v.len() == 6 {
            Some(v)
        } else {
            None
        },
        None => None,
    }
}

} // verus!
