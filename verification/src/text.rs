//! Character-level helpers: decimal digits, zero padding, unsigned
//! integer parsing and prefix trimming, each stated over `Seq<char>`.

use vstd::prelude::*;

verus! {

/// The decimal digit character for `d` (`0 <= d < 10`).
pub open spec fn digit_char(d: int) -> char {
    if d == 0 { '0' }
    else if d == 1 { '1' }
    else if d == 2 { '2' }
    else if d == 3 { '3' }
    else if d == 4 { '4' }
    else if d == 5 { '5' }
    else if d == 6 { '6' }
    else if d == 7 { '7' }
    else if d == 8 { '8' }
    else { '9' }
}

/// Whether `c` is one of the ASCII digits `0` to `9`.
pub open spec fn is_digit(c: char) -> bool {
    '0' <= c && c <= '9'
}

/// The numeric value of the digit character `c`.
pub open spec fn digit_value(c: char) -> int {
    c as int - '0' as int
}

/// The shortest decimal rendering of `n`, most significant digit first.
pub open spec fn decimal(n: nat) -> Seq<char>
    decreases n,
{
    if n < 10 {
        seq![digit_char(n as int)]
    } else {
        decimal(n / 10).push(digit_char((n % 10) as int))
    }
}

/// A one-character string holding the digit `d`.
fn digit_text(d: u64) -> (r: &'static str)
    requires
        d < 10,
    ensures
        r@ == seq![digit_char(d as int)],
{
    if d == 0 {
        proof { reveal_strlit("0"); }
        "0"
    } else if d == 1 {
        proof { reveal_strlit("1"); }
        "1"
    } else if d == 2 {
        proof { reveal_strlit("2"); }
        "2"
    } else if d == 3 {
        proof { reveal_strlit("3"); }
        "3"
    } else if d == 4 {
        proof { reveal_strlit("4"); }
        "4"
    } else if d == 5 {
        proof { reveal_strlit("5"); }
        "5"
    } else if d == 6 {
        proof { reveal_strlit("6"); }
        "6"
    } else if d == 7 {
        proof { reveal_strlit("7"); }
        "7"
    } else if d == 8 {
        proof { reveal_strlit("8"); }
        "8"
    } else {
        proof { reveal_strlit("9"); }
        "9"
    }
}

/// Appends the decimal rendering of `n` to `out`.
pub fn push_decimal(out: &mut String, n: u64)
    ensures
        final(out)@ == old(out)@ + decimal(n as nat),
    decreases n,
{
    if n >= 10 {
        push_decimal(out, n / 10);
    }
    let d = digit_text(n % 10);
    out.append(d);
    proof {
        if n >= 10 {
            assert(decimal(n as nat) == decimal((n / 10) as nat).push(digit_char((n % 10) as int)));
        }
    }
}


/// `digits` left-padded with `0` to at least `width` characters.
pub open spec fn zero_padded(digits: Seq<char>, width: nat) -> Seq<char> {
    if digits.len() >= width {
        digits
    } else {
        Seq::new((width - digits.len()) as nat, |i: int| '0') + digits
    }
}

/// Appends `n` in decimal, left-padded with zeros to at least `width`
/// characters (the rendering of `format!("{:0width$}", n)`).
pub fn push_zero_padded(out: &mut String, n: u64, width: usize)
    ensures
        final(out)@ == old(out)@ + zero_padded(decimal(n as nat), width as nat),
{
    let mut t = String::new();
    push_decimal(&mut t, n);
    let t_str = t.as_str();
    let l = t_str.unicode_len();
    let ghost start = out@;
    let mut k = l;
    proof { reveal_strlit("0"); }
    while k < width
        invariant
            l <= k,
            k <= width || k == l,
            l == decimal(n as nat).len(),
            t_str@ == decimal(n as nat),
            out@ == start + Seq::new((k - l) as nat, |i: int| '0'),
        decreases width - k,
    {
        proof { reveal_strlit("0"); }
        out.append("0");
        assert(out@ =~= start + Seq::new((k + 1 - l) as nat, |i: int| '0'));
        k += 1;
    }
    out.append(t_str);
    proof {
        if l >= width {
            assert(out@ =~= start + decimal(n as nat));
        } else {
            assert(out@ =~= start + zero_padded(decimal(n as nat), width as nat));
        }
    }
}

/// Whether every character of `s` is a decimal digit.
pub open spec fn all_digits(s: Seq<char>) -> bool {
    forall|i: int| 0 <= i < s.len() ==> is_digit(#[trigger] s[i])
}

/// The value of a string of decimal digits, most significant first.
pub open spec fn digits_value(s: Seq<char>) -> int
    decreases s.len(),
{
    if s.len() == 0 {
        0
    } else {
        digits_value(s.drop_last()) * 10 + digit_value(s.last())
    }
}

/// The digits that `str::parse::<u32>` reads: the text without one
/// leading `+`.
pub open spec fn unsigned_digits(s: Seq<char>) -> Seq<char> {
    if s.len() > 0 && s[0] == '+' {
        s.drop_first()
    } else {
        s
    }
}

/// What `str::parse::<u32>` gives: an optional `+` followed by at least one
/// decimal digit and nothing else, whose value fits in a `u32`.
pub open spec fn parse_u32_spec(s: Seq<char>) -> Option<u32> {
    let d = unsigned_digits(s);
    if d.len() > 0 && all_digits(d) && digits_value(d) <= u32::MAX {
        Some(digits_value(d) as u32)
    } else {
        None
    }
}

/// A prefix of a digit string is worth no more than the whole string.
pub proof fn lemma_digits_prefix_le(s: Seq<char>, k: int)
    requires
        all_digits(s),
        0 <= k <= s.len(),
    ensures
        digits_value(s.take(k)) <= digits_value(s),
    decreases s.len(),
{
    if k < s.len() {
        let t = s.drop_last();
        assert(all_digits(t));
        lemma_digits_prefix_le(t, k);
        assert(t.take(k) =~= s.take(k));
        assert(is_digit(s[s.len() - 1]));
        assert(digits_value(t) >= 0) by {
            lemma_digits_nonneg(t);
        }
    } else {
        assert(s.take(k) =~= s);
    }
}

/// A digit string has a non-negative value.
pub proof fn lemma_digits_nonneg(s: Seq<char>)
    requires
        all_digits(s),
    ensures
        digits_value(s) >= 0,
    decreases s.len(),
{
    if s.len() > 0 {
        let t = s.drop_last();
        assert(all_digits(t));
        lemma_digits_nonneg(t);
        assert(is_digit(s[s.len() - 1]));
    }
}

/// Parses an unsigned 32-bit integer the way `str::parse::<u32>` does.
pub fn parse_u32(s: &str) -> (r: Option<u32>)
    ensures
        r == parse_u32_spec(s@),
{
    let len = s.unicode_len();
    let mut i: usize = 0;
    if len > 0 && s.get_char(0) == '+' {
        i = 1;
    }
    let ghost d = unsigned_digits(s@);
    assert(d =~= s@.subrange(i as int, len as int));
    if i == len {
        return None;
    }
    let start = i;
    let mut acc: u64 = 0;
    while i < len
        invariant
            start <= i <= len,
            start < len,
            len == s@.len(),
            d == s@.subrange(start as int, len as int),
            d == unsigned_digits(s@),
            acc == digits_value(d.take(i - start)),
            acc <= u32::MAX,
            all_digits(d.take(i - start)),
        decreases len - i,
    {
        let c = s.get_char(i);
        if !('0' <= c && c <= '9') {
            assert(d[i - start] == c);
            assert(!is_digit(d[i - start]));
            return None;
        }
        let v = (c as u32 - '0' as u32) as u64;
        let ghost pre = d.take(i - start);
        let ghost next = d.take(i + 1 - start);
        assert(next.drop_last() =~= pre);
        assert(next.last() == c);
        acc = acc * 10 + v;
        assert(all_digits(next));
        if acc > u32::MAX as u64 {
            proof {
                if all_digits(d) {
                    lemma_digits_prefix_le(d, i + 1 - start);
                }
            }
            return None;
        }
        i += 1;
    }
    assert(d.take(len - start) =~= d);
    Some(acc as u32)
}

/// Whether two strings hold the same characters.
pub fn same_text(a: &str, b: &str) -> (r: bool)
    ensures
        r == (a@ == b@),
{
    let la = a.unicode_len();
    let lb = b.unicode_len();
    if la != lb {
        return false;
    }
    let mut i: usize = 0;
    while i < la
        invariant
            i <= la,
            la == a@.len(),
            lb == b@.len(),
            la == lb,
            forall|j: int| 0 <= j < i ==> a@[j] == b@[j],
        decreases la - i,
    {
        if a.get_char(i) != b.get_char(i) {
            return false;
        }
        i += 1;
    }
    assert(a@ =~= b@);
    true
}

/// Whether `p` is a non-empty pattern that occurs in `s` at position `at`.
pub open spec fn occurs_at(s: Seq<char>, p: Seq<char>, at: int) -> bool {
    &&& p.len() > 0
    &&& 0 <= at
    &&& at + p.len() <= s.len()
    &&& s.subrange(at, at + p.len()) == p
}

/// `s` with every leading occurrence of the pattern `p` removed
/// (the result of `str::trim_start_matches` with a string pattern).
pub open spec fn trim_start_spec(s: Seq<char>, p: Seq<char>) -> Seq<char>
    decreases s.len(),
{
    if occurs_at(s, p, 0) {
        trim_start_spec(s.subrange(p.len() as int, s.len() as int), p)
    } else {
        s
    }
}

/// Law: after trimming, the text no longer begins with the pattern, and
/// the trimmed text is what follows some number of copies of the pattern.
pub proof fn law_trim_leaves_no_leading_pattern(s: Seq<char>, p: Seq<char>)
    ensures
        !occurs_at(trim_start_spec(s, p), p, 0),
        exists|k: nat| #[trigger] (k * p.len()) <= s.len()
            && s.subrange((k * p.len()) as int, s.len() as int) == trim_start_spec(s, p),
    decreases s.len(),
{
    if occurs_at(s, p, 0) {
        let rest = s.subrange(p.len() as int, s.len() as int);
        law_trim_leaves_no_leading_pattern(rest, p);
        let k = choose|k: nat| #[trigger] (k * p.len()) <= rest.len()
            && rest.subrange((k * p.len()) as int, rest.len() as int) == trim_start_spec(rest, p);
        assert((k + 1) * p.len() == k * p.len() + p.len()) by (nonlinear_arith);
        assert(s.subrange(((k + 1) * p.len()) as int, s.len() as int)
            =~= rest.subrange((k * p.len()) as int, rest.len() as int));
        assert(((k + 1) as nat * p.len()) <= s.len());
    } else {
        assert(s.subrange((0 * p.len()) as int, s.len() as int) =~= s);
        assert((0nat * p.len()) <= s.len());
    }
}

fn occurs_at_exec(s: &str, slen: usize, p: &str, plen: usize, at: usize) -> (r: bool)
    requires
        slen == s@.len(),
        plen == p@.len(),
        at <= slen,
    ensures
        r == occurs_at(s@, p@, at as int),
{
    if plen == 0 || plen > slen - at {
        return false;
    }
    let mut j: usize = 0;
    while j < plen
        invariant
            j <= plen,
            at + plen <= slen,
            slen == s@.len(),
            plen == p@.len(),
            forall|k: int| 0 <= k < j ==> s@[at + k] == p@[k],
        decreases plen - j,
    {
        if s.get_char(at + j) != p.get_char(j) {
            assert(s@.subrange(at as int, at + plen)[j as int] != p@[j as int]);
            return false;
        }
        j += 1;
    }
    assert(s@.subrange(at as int, at + plen) =~= p@);
    true
}

/// Removes every leading occurrence of `p` from `s`, as
/// `str::trim_start_matches` does with a string pattern.
pub fn trim_start_matches<'a>(s: &'a str, p: &str) -> (r: &'a str)
    ensures
        r@ == trim_start_spec(s@, p@),
{
    let slen = s.unicode_len();
    let plen = p.unicode_len();
    let mut i: usize = 0;
    assert(s@.subrange(0, slen as int) =~= s@);
    while occurs_at_exec(s, slen, p, plen, i)
        invariant
            i <= slen,
            slen == s@.len(),
            plen == p@.len(),
            trim_start_spec(s@, p@) == trim_start_spec(s@.subrange(i as int, slen as int), p@),
        decreases slen - i,
    {
        let ghost rest = s@.subrange(i as int, slen as int);
        assert(rest.subrange(0, plen as int) =~= s@.subrange(i as int, i + plen));
        assert(rest.subrange(plen as int, rest.len() as int) =~= s@.subrange(i + plen, slen as int));
        i = i + plen;
    }
    proof {
        let rest = s@.subrange(i as int, slen as int);
        if occurs_at(rest, p@, 0) {
            assert(rest.subrange(0, plen as int) =~= s@.subrange(i as int, i + plen));
        }
    }
    s.substring_char(i, slen)
}

} // verus!
