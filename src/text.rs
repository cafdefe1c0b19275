use vstd::prelude::*;

verus! {

/// Unicode White_Space, the set that `char::is_whitespace` tests.
pub open spec fn white_space(c: char) -> bool {
    let u = c as u32;
    (9 <= u <= 13) || u == 32 || u == 0x85 || u == 0xa0 || u == 0x1680 || (0x2000 <= u <= 0x200a)
        || u == 0x2028 || u == 0x2029 || u == 0x202f || u == 0x205f || u == 0x3000
}

pub fn is_white_space(c: char) -> (r: bool)
    ensures
        r == white_space(c),
{
    let u = c as u32;
    (9 <= u && u <= 13) || u == 32 || u == 0x85 || u == 0xa0 || u == 0x1680 || (0x2000 <= u && u
        <= 0x200a) || u == 0x2028 || u == 0x2029 || u == 0x202f || u == 0x205f || u == 0x3000
}

/// `s` without its trailing white space.
pub open spec fn trim_end(s: Seq<char>) -> Seq<char>
    decreases s.len(),
{
    if s.len() > 0 && white_space(s.last()) {
        trim_end(s.drop_last())
    } else {
        s
    }
}

/// The white-space separated words of `s`, in order.
pub open spec fn words(s: Seq<char>) -> Seq<Seq<char>>
    decreases s.len(),
{
    if s.len() == 0 {
        seq![]
    } else {
        let r = words(s.drop_last());
        let c = s.last();
        if white_space(c) {
            r
        } else if s.len() >= 2 && !white_space(s[s.len() - 2]) && r.len() > 0 {
            r.update(r.len() - 1, r.last().push(c))
        } else {
            r.push(seq![c])
        }
    }
}

/// The pieces of `s` between occurrences of `sep`; always at least one.
pub open spec fn split_on(s: Seq<char>, sep: char) -> Seq<Seq<char>>
    decreases s.len(),
{
    if s.len() == 0 {
        seq![seq![]]
    } else {
        let r = split_on(s.drop_last(), sep);
        if s.last() == sep {
            r.push(seq![])
        } else {
            r.update(r.len() - 1, r.last().push(s.last()))
        }
    }
}

/// The char ranges `[a, b)` of `s` as pieces.
pub open spec fn pieces(s: Seq<char>, r: Seq<(usize, usize)>) -> Seq<Seq<char>> {
    r.map_values(|p: (usize, usize)| s.subrange(p.0 as int, p.1 as int))
}

/// Index of the first char after `s` with its trailing white space removed.
pub fn trim_end_len(s: &str) -> (r: usize)
    ensures
        r <= s@.len(),
        s@.subrange(0, r as int) == trim_end(s@),
{
    let n = s.unicode_len();
    let mut k: usize = n;
    assert(s@.subrange(0, n as int) =~= s@);
    while k > 0 && is_white_space(s.get_char(k - 1))
        invariant
            k <= n == s@.len(),
            trim_end(s@) == trim_end(s@.subrange(0, k as int)),
        decreases k,
    {
        assert(s@.subrange(0, k as int).drop_last() =~= s@.subrange(0, k - 1));
        k = k - 1;
    }
    k
}

/// `s` without its trailing white space.
pub fn trim_white_space_end(s: &str) -> (r: String)
    ensures
        r@ == trim_end(s@),
{
    let n = trim_end_len(s);
    s.substring_char(0, n).to_owned()
}

/// The char ranges of the white-space separated words of `s`.
pub fn word_ranges(s: &str) -> (r: Vec<(usize, usize)>)
    ensures
        pieces(s@, r@) == words(s@),
        forall|i: int| 0 <= i < r@.len() ==> (#[trigger] r@[i]).0 <= r@[i].1 <= s@.len(),
{
    let n = s.unicode_len();
    let mut r: Vec<(usize, usize)> = Vec::new();
    let mut start: usize = 0;
    let mut i: usize = 0;
    let mut in_word = false;
    assert(s@.take(0) =~= seq![]);
    assert(pieces(s@, r@) =~= seq![]);
    while i < n
        invariant
            i <= n == s@.len(),
            start <= i,
            in_word == (i > 0 && !white_space(s@[i - 1])),
            in_word ==> forall|k: int| start <= k < i ==> !white_space(#[trigger] s@[k]),
            in_word ==> start < i,
            in_word ==> (start == 0 || white_space(s@[start - 1])),
            forall|j: int| 0 <= j < r@.len() ==> (#[trigger] r@[j]).0 <= r@[j].1 <= start,
            words(s@.take(i as int)) == if in_word {
                pieces(s@, r@).push(s@.subrange(start as int, i as int))
            } else {
                pieces(s@, r@)
            },
        decreases n - i,
    {
        let c = s.get_char(i);
        let ghost t = s@.take(i + 1);
        assert(t.drop_last() =~= s@.take(i as int));
        assert(t.last() == c);
        if is_white_space(c) {
            if in_word {
                let ghost before = pieces(s@, r@);
                r.push((start, i));
                assert(pieces(s@, r@) =~= before.push(s@.subrange(start as int, i as int)));
            }
            in_word = false;
            start = i + 1;
        } else {
            if in_word {
                assert(s@[i - 1] == t[t.len() - 2]);
                assert(s@.subrange(start as int, i + 1) =~= s@.subrange(start as int, i as int).push(c));
                assert(pieces(s@, r@).push(s@.subrange(start as int, i as int)).update(
                    pieces(s@, r@).len() as int,
                    s@.subrange(start as int, i + 1),
                ) =~= pieces(s@, r@).push(s@.subrange(start as int, i + 1)));
            } else {
                start = i;
                assert(s@.subrange(start as int, i + 1) =~= seq![c]);
                if i > 0 {
                    assert(s@[i - 1] == t[t.len() - 2]);
                }
            }
            in_word = true;
        }
        i = i + 1;
    }
    if in_word {
        let ghost before = pieces(s@, r@);
        r.push((start, n));
        assert(pieces(s@, r@) =~= before.push(s@.subrange(start as int, n as int)));
    }
    assert(s@.take(n as int) =~= s@);
    r
}

/// The char ranges, within `[a, b)`, of the pieces of `s[a..b]` between
/// occurrences of `sep`.
pub fn split_ranges(s: &str, a: usize, b: usize, sep: char) -> (r: Vec<(usize, usize)>)
    requires
        a <= b <= s@.len(),
    ensures
        pieces(s@, r@) == split_on(s@.subrange(a as int, b as int), sep),
        forall|i: int| 0 <= i < r@.len() ==> a <= (#[trigger] r@[i]).0 <= r@[i].1 <= b,
{
    let ghost w = s@.subrange(a as int, b as int);
    let mut r: Vec<(usize, usize)> = Vec::new();
    let mut start: usize = a;
    let mut i: usize = a;
    assert(w.take(0) =~= seq![]);
    assert(s@.subrange(a as int, a as int) =~= seq![]);
    assert(pieces(s@, r@).push(s@.subrange(start as int, i as int)) =~= seq![seq![]]);
    while i < b
        invariant
            a <= start <= i <= b <= s@.len(),
            w == s@.subrange(a as int, b as int),
            forall|j: int| 0 <= j < r@.len() ==> a <= (#[trigger] r@[j]).0 <= r@[j].1 <= start,
            split_on(w.take(i - a), sep) == pieces(s@, r@).push(s@.subrange(start as int, i as int)),
        decreases b - i,
    {
        let c = s.get_char(i);
        let ghost t = w.take(i + 1 - a);
        assert(t.drop_last() =~= w.take(i - a));
        assert(t.last() == c);
        let ghost before = pieces(s@, r@);
        if c == sep {
            r.push((start, i));
            assert(pieces(s@, r@) =~= before.push(s@.subrange(start as int, i as int)));
            start = i + 1;
            assert(s@.subrange(start as int, i + 1) =~= seq![]);
        } else {
            assert(s@.subrange(start as int, i + 1) =~= s@.subrange(start as int, i as int).push(c));
            assert(before.push(s@.subrange(start as int, i as int)).update(
                before.len() as int,
                s@.subrange(start as int, i + 1),
            ) =~= before.push(s@.subrange(start as int, i + 1)));
        }
        i = i + 1;
    }
    let ghost before = pieces(s@, r@);
    r.push((start, b));
    assert(pieces(s@, r@) =~= before.push(s@.subrange(start as int, b as int)));
    assert(w.take(b - a) =~= w);
    r
}

/// The value of `c` as a digit in `radix` (10 or 16), if it is one.
pub open spec fn digit_of(c: char, radix: u32) -> Option<nat> {
    let u = c as u32;
    if 48 <= u <= 57 && (u - 48) < radix {
        Some((u - 48) as nat)
    } else if radix == 16 && 97 <= u <= 102 {
        Some((u - 87) as nat)
    } else if radix == 16 && 65 <= u <= 70 {
        Some((u - 55) as nat)
    } else {
        None
    }
}

pub open spec fn all_digits(s: Seq<char>, radix: u32) -> bool {
    forall|i: int| 0 <= i < s.len() ==> (#[trigger] digit_of(s[i], radix)).is_some()
}

/// The number that the digits `s` write in `radix`.
pub open spec fn digits_value(s: Seq<char>, radix: u32) -> nat
    decreases s.len(),
{
    if s.len() == 0 {
        0
    } else {
        digits_value(s.drop_last(), radix) * radix as nat + digit_of(s.last(), radix).unwrap_or(0)
    }
}

/// What `from_str_radix` gives for an unsigned type whose largest value is
/// `max`: an optional `+`, then at least one digit, of value at most `max`.
pub open spec fn parse_unsigned(s: Seq<char>, radix: u32, max: nat) -> Option<nat> {
    let d = if s.len() > 0 && s[0] == '+' { s.drop_first() } else { s };
    if d.len() == 0 || !all_digits(d, radix) || digits_value(d, radix) > max {
        None
    } else {
        Some(digits_value(d, radix))
    }
}

fn digit_value(c: char, radix: u32) -> (r: Option<u64>)
    requires
        radix == 10 || radix == 16,
    ensures
        r.is_some() == digit_of(c, radix).is_some(),
        r.is_some() ==> r.unwrap() == digit_of(c, radix).unwrap(),
        r.is_some() ==> r.unwrap() < radix,
{
    let u = c as u32;
    if 48 <= u && u <= 57 && (u - 48) < radix {
        Some((u - 48) as u64)
    } else if radix == 16 && 97 <= u && u <= 102 {
        Some((u - 87) as u64)
    } else if radix == 16 && 65 <= u && u <= 70 {
        Some((u - 55) as u64)
    } else {
        None
    }
}

proof fn lemma_digits_value_grows(s: Seq<char>, radix: u32, k: int)
    requires
        0 <= k <= s.len(),
        radix >= 1,
    ensures
        digits_value(s.take(k), radix) <= digits_value(s, radix),
    decreases s.len() - k,
{
    if k < s.len() {
        lemma_digits_value_grows(s, radix, k + 1);
        assert(s.take(k + 1).drop_last() =~= s.take(k));
        let v = digits_value(s.take(k), radix);
        assert(v * radix as nat >= v) by (nonlinear_arith)
            requires
                radix >= 1,
        ;
    } else {
        assert(s.take(k) =~= s);
    }
}

/// Parses `s[a..b]` as `parse_unsigned` does, for a largest value `max`.
pub fn parse_unsigned_range(s: &str, a: usize, b: usize, radix: u32, max: u64) -> (r: Option<u64>)
    requires
        a <= b <= s@.len(),
        radix == 10 || radix == 16,
        max <= 0xffff_ffff,
    ensures
        r.is_some() == parse_unsigned(s@.subrange(a as int, b as int), radix, max as nat).is_some(),
        r.is_some() ==> r.unwrap() == parse_unsigned(
            s@.subrange(a as int, b as int),
            radix,
            max as nat,
        ).unwrap(),
{
    let ghost w = s@.subrange(a as int, b as int);
    let mut i: usize = a;
    if a < b && s.get_char(a) == '+' {
        i = a + 1;
    }
    let ghost d = s@.subrange(i as int, b as int);
    assert(d == if w.len() > 0 && w[0] == '+' { w.drop_first() } else { w });
    if i == b {
        assert(d.len() == 0);
        return None;
    }
    let start = i;
    let mut v: u64 = 0;
    assert(d.take(0) =~= seq![]);
    while i < b
        invariant
            start <= i <= b <= s@.len(),
            d == s@.subrange(start as int, b as int),
            w == s@.subrange(a as int, b as int),
            d == if w.len() > 0 && w[0] == '+' { w.drop_first() } else { w },
            d.len() > 0,
            radix == 10 || radix == 16,
            max <= 0xffff_ffff,
            v <= max,
            all_digits(d.take(i - start), radix),
            v == digits_value(d.take(i - start), radix),
        decreases b - i,
    {
        let c = s.get_char(i);
        assert(d[i - start] == c);
        assert(d.take(i + 1 - start).drop_last() =~= d.take(i - start));
        match digit_value(c, radix) {
            None => {
                assert(!all_digits(d, radix)) by {
                    assert(digit_of(d[i - start], radix).is_none());
                }
                return None;
            },
            Some(x) => {
                assert(all_digits(d.take(i + 1 - start), radix)) by {
                    assert forall|k: int| 0 <= k < d.take(i + 1 - start).len() implies (
                    #[trigger] digit_of(d.take(i + 1 - start)[k], radix)).is_some() by {
                        if k < i - start {
                            assert(d.take(i + 1 - start)[k] == d.take(i - start)[k]);
                        }
                    }
                }
                assert(v * (radix as u64) <= 0xffff_ffffu64 * 16) by (nonlinear_arith)
                    requires
                        v <= 0xffff_ffffu64,
                        radix <= 16,
                ;
                let nv = v * (radix as u64) + x;
                assert(d.take(i + 1 - start).last() == c);
                assert(digits_value(d.take(i + 1 - start), radix) == nv);
                if nv > max {
                    proof {
                        lemma_digits_value_grows(d, radix, i + 1 - start);
                    }
                    return None;
                }
                v = nv;
            },
        }
        i = i + 1;
    }
    assert(d.take(b - start) =~= d);
    Some(v)
}

} // verus!
