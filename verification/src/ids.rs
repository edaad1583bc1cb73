//! Sequential identifiers of the form `PREFIX` followed by a number that is
//! zero-padded to three digits: `HMI-001` for meters, `CUS-HMI-001` for
//! customers and `INV-001` for invoices. The next identifier is one more
//! than the number found in the most recent one.

use vstd::prelude::*;
use crate::text::{
    all_digits, decimal, digit_char, digit_value, digits_value, is_digit, parse_u32,
    parse_u32_spec, push_zero_padded, trim_start_matches, trim_start_spec, unsigned_digits,
    zero_padded, occurs_at,
};

verus! {

/// Prefix of meter numbers.
pub const METER_PREFIX: &'static str = "HMI-";

/// Prefix of customer numbers.
pub const CUSTOMER_PREFIX: &'static str = "CUS-HMI-";

/// Prefix of invoice numbers.
pub const INVOICE_PREFIX: &'static str = "INV-";

/// Minimum number of digits in the numeric part of an identifier.
pub const ID_DIGITS: usize = 3;

/// The identifier with prefix `prefix` and number `n`.
pub open spec fn formatted_id(prefix: Seq<char>, n: nat) -> Seq<char> {
    prefix + zero_padded(decimal(n), 3)
}

/// The number carried by `id`: the leading copies of `prefix` are trimmed
/// and the rest is read as a `u32`; text that does not read as one counts
/// as 0.
pub open spec fn id_number_spec(prefix: Seq<char>, id: Seq<char>) -> nat {
    match parse_u32_spec(trim_start_spec(id, prefix)) {
        Some(n) => n as nat,
        None => 0,
    }
}

/// The number that follows the most recent identifier `last`
/// (1 when there is none yet).
pub open spec fn next_number_spec(prefix: Seq<char>, last: Option<Seq<char>>) -> nat {
    match last {
        Some(id) => id_number_spec(prefix, id) + 1,
        None => 1,
    }
}

/// The text of an optional string.
pub open spec fn opt_text(o: Option<&str>) -> Option<Seq<char>> {
    match o {
        Some(s) => Some(s@),
        None => None,
    }
}

/// The identifier that follows `last` under `prefix`.
pub open spec fn next_id_spec(prefix: Seq<char>, last: Option<Seq<char>>) -> Seq<char> {
    formatted_id(prefix, next_number_spec(prefix, last))
}

/// Whether an identifier can follow `last` without the number leaving
/// the `u32` range.
pub open spec fn can_follow(prefix: Seq<char>, last: Option<Seq<char>>) -> bool {
    last matches Some(id) ==> id_number_spec(prefix, id) < u32::MAX
}

/// The number carried by `id` under `prefix` (0 when the rest of the text
/// is not a `u32`).
pub fn id_number(prefix: &str, id: &str) -> (r: u32)
    ensures
        r == id_number_spec(prefix@, id@),
{
    let rest = trim_start_matches(id, prefix);
    match parse_u32(rest) {
        Some(n) => n,
        None => 0,
    }
}

/// Appends `prefix` followed by `n` zero-padded to three digits.
fn format_id(prefix: &str, n: u32) -> (r: String)
    ensures
        r@ == formatted_id(prefix@, n as nat),
{
    let mut out = String::from_str(prefix);
    push_zero_padded(&mut out, n as u64, ID_DIGITS);
    out
}

/// The identifier that follows `last_id`: its number plus one, or 1 when
/// there is no identifier yet. The caller checks `can_follow` first; the
/// increment would overflow otherwise.
pub fn next_id(prefix: &str, last_id: Option<&str>) -> (r: String)
    requires
        can_follow(prefix@, opt_text(last_id)),
    ensures
        r@ == next_id_spec(prefix@, opt_text(last_id)),
{
    let n: u32 = match last_id {
        Some(id) => id_number(prefix, id) + 1,
        None => 1,
    };
    format_id(prefix, n)
}

/// The next meter number after the most recent one, `last_meter_id`.
pub fn gen_meter_no(last_meter_id: Option<&str>) -> (r: String)
    requires
        can_follow(METER_PREFIX@, opt_text(last_meter_id)),
    ensures
        r@ == next_id_spec(METER_PREFIX@, opt_text(last_meter_id)),
{
    next_id(METER_PREFIX, last_meter_id)
}

/// The next customer number after the most recent one, `last_customer_id`.
pub fn gen_customer_no(last_customer_id: Option<&str>) -> (r: String)
    requires
        can_follow(CUSTOMER_PREFIX@, opt_text(last_customer_id)),
    ensures
        r@ == next_id_spec(CUSTOMER_PREFIX@, opt_text(last_customer_id)),
{
    next_id(CUSTOMER_PREFIX, last_customer_id)
}

/// The next invoice number after the most recent one, `last_invoice_id`.
pub fn gen_invoice_no(last_invoice_id: Option<&str>) -> (r: String)
    requires
        can_follow(INVOICE_PREFIX@, opt_text(last_invoice_id)),
    ensures
        r@ == next_id_spec(INVOICE_PREFIX@, opt_text(last_invoice_id)),
{
    next_id(INVOICE_PREFIX, last_invoice_id)
}

/// Whether a batch of `count + 1` meter numbers can start at the number of
/// `next_meter_no` without the counter leaving the `u32` range.
pub open spec fn batch_fits(next_meter_no: Seq<char>, count: int) -> bool {
    count < 0 || id_number_spec(METER_PREFIX@, next_meter_no) + count < u32::MAX
}

/// Meter numbers for a batch: `count + 1` consecutive numbers starting at the
/// number of `next_meter_no` (none when `count` is negative).
pub fn batch_meter_numbers(next_meter_no: &str, count: i64) -> (r: Vec<String>)
    requires
        batch_fits(next_meter_no@, count as int),
    ensures
        count < 0 ==> r.len() == 0,
        count >= 0 ==> r.len() == count + 1,
        forall|k: int|
            0 <= k < r.len() ==> #[trigger] r[k]@ == formatted_id(
                METER_PREFIX@,
                (id_number_spec(METER_PREFIX@, next_meter_no@) + k) as nat,
            ),
{
    let start = id_number(METER_PREFIX, next_meter_no);
    let mut out: Vec<String> = Vec::new();
    if count < 0 {
        return out;
    }
    let mut k: i64 = 0;
    while k <= count
        invariant
            0 <= k <= count + 1,
            count >= 0,
            start + count < u32::MAX,
            out.len() == k,
            start == id_number_spec(METER_PREFIX@, next_meter_no@),
            forall|j: int|
                0 <= j < out.len() ==> #[trigger] out[j]@ == formatted_id(
                    METER_PREFIX@,
                    (start + j) as nat,
                ),
        decreases count + 1 - k,
    {
        let n = start + k as u32;
        out.push(format_id(METER_PREFIX, n));
        k += 1;
    }
    out
}


/// The digit characters read back as the digits they stand for.
proof fn lemma_digit_char(d: int)
    requires
        0 <= d < 10,
    ensures
        is_digit(digit_char(d)),
        digit_value(digit_char(d)) == d,
{
}

/// The decimal rendering of `n` is a non-empty digit string worth `n`.
proof fn lemma_decimal(n: nat)
    ensures
        decimal(n).len() >= 1,
        all_digits(decimal(n)),
        digits_value(decimal(n)) == n,
    decreases n,
{
    if n < 10 {
        lemma_digit_char(n as int);
        assert(decimal(n).drop_last() =~= Seq::<char>::empty());
        assert(digits_value(Seq::<char>::empty()) == 0);
    } else {
        lemma_decimal(n / 10);
        lemma_digit_char((n % 10) as int);
        let s = decimal(n);
        assert(s.drop_last() =~= decimal(n / 10));
        assert(s.last() == digit_char((n % 10) as int));
        assert(digits_value(s) == digits_value(decimal(n / 10)) * 10 + (n % 10) as int);
        assert forall|i: int| 0 <= i < s.len() implies is_digit(#[trigger] s[i]) by {
            if i < s.len() - 1 {
                assert(s[i] == decimal(n / 10)[i]);
            }
        }
    }
}

/// Leading zeros do not change the value of a digit string.
proof fn lemma_leading_zeros(k: nat, s: Seq<char>)
    ensures
        digits_value(Seq::new(k, |i: int| '0') + s) == digits_value(s),
    decreases s.len(), k,
{
    let z = Seq::new(k, |i: int| '0');
    if s.len() == 0 {
        assert(z + s =~= z);
        if k > 0 {
            assert(z.drop_last() =~= Seq::new((k - 1) as nat, |i: int| '0'));
            lemma_leading_zeros((k - 1) as nat, s);
            assert(Seq::new((k - 1) as nat, |i: int| '0') + s =~= Seq::new((k - 1) as nat, |i: int| '0'));
        }
    } else {
        assert((z + s).drop_last() =~= z + s.drop_last());
        assert((z + s).last() == s.last());
        lemma_leading_zeros(k, s.drop_last());
    }
}

/// A zero-padded decimal rendering is a non-empty digit string that starts
/// with a digit and reads back as the number it renders.
proof fn lemma_padded_digits(n: nat, width: nat)
    ensures
        zero_padded(decimal(n), width).len() >= 1,
        all_digits(zero_padded(decimal(n), width)),
        digits_value(zero_padded(decimal(n), width)) == n,
{
    lemma_decimal(n);
    let d = decimal(n);
    if d.len() < width {
        let k = (width - d.len()) as nat;
        let z = Seq::new(k, |i: int| '0');
        lemma_leading_zeros(k, d);
        let p = z + d;
        assert forall|i: int| 0 <= i < p.len() implies is_digit(#[trigger] p[i]) by {
            if i >= k {
                assert(p[i] == d[i - k]);
            }
        }
    }
}

/// Law: reading back a zero-padded number gives the number: for every
/// `u32` value `n` and every width, `parse::<u32>` of `n` rendered with at
/// least `width` digits is `n`.
pub proof fn law_padded_number_reads_back(n: u32, width: nat)
    ensures
        parse_u32_spec(zero_padded(decimal(n as nat), width)) == Some(n),
{
    lemma_padded_digits(n as nat, width);
    let p = zero_padded(decimal(n as nat), width);
    assert(is_digit(p[0]));
    assert(unsigned_digits(p) == p);
}

/// Law: the number of an identifier built from `prefix` and `n` is `n`,
/// for every prefix that is non-empty and does not begin with a digit.
pub proof fn law_id_number_of_formatted(prefix: Seq<char>, n: u32)
    requires
        prefix.len() > 0,
        !is_digit(prefix[0]),
    ensures
        id_number_spec(prefix, formatted_id(prefix, n as nat)) == n,
{
    let p = zero_padded(decimal(n as nat), 3);
    let id = formatted_id(prefix, n as nat);
    lemma_padded_digits(n as nat, 3);
    assert(id.subrange(0, prefix.len() as int) =~= prefix);
    assert(id.subrange(prefix.len() as int, id.len() as int) =~= p);
    assert(occurs_at(id, prefix, 0));
    assert(is_digit(p[0]));
    if occurs_at(p, prefix, 0) {
        assert(p.subrange(0, prefix.len() as int)[0] == prefix[0]);
    }
    assert(trim_start_spec(p, prefix) == p);
    assert(trim_start_spec(id, prefix) == p);
    law_padded_number_reads_back(n, 3);
}

/// The three identifier prefixes are non-empty and begin with a letter.
pub proof fn lemma_prefixes_start_with_letter()
    ensures
        METER_PREFIX@.len() > 0 && !is_digit(METER_PREFIX@[0]),
        CUSTOMER_PREFIX@.len() > 0 && !is_digit(CUSTOMER_PREFIX@[0]),
        INVOICE_PREFIX@.len() > 0 && !is_digit(INVOICE_PREFIX@[0]),
{
    reveal_strlit("HMI-");
    reveal_strlit("CUS-HMI-");
    reveal_strlit("INV-");
}

/// Law: identifiers are handed out consecutively. Whatever the most recent
/// identifier `last`, the number of the identifier generated after it is
/// its next number, so generating once more continues with the number after
/// that.
pub proof fn law_ids_are_consecutive(prefix: Seq<char>, last: Option<Seq<char>>)
    requires
        prefix.len() > 0,
        !is_digit(prefix[0]),
        can_follow(prefix, last),
    ensures
        id_number_spec(prefix, next_id_spec(prefix, last)) == next_number_spec(prefix, last),
        next_number_spec(prefix, Some(next_id_spec(prefix, last))) == next_number_spec(prefix, last) + 1,
{
    let n = next_number_spec(prefix, last);
    law_id_number_of_formatted(prefix, n as u32);
}

/// Law: with no identifier yet, the first one is the prefix followed by
/// `001`.
pub proof fn law_first_id(prefix: Seq<char>)
    ensures
        next_id_spec(prefix, None) == prefix + seq!['0', '0', '1'],
{
    assert(decimal(1) =~= seq!['1']);
    assert(zero_padded(decimal(1), 3) =~= seq!['0', '0', '1']);
}

/// Law: a batch started from a freshly generated meter number continues the
/// numbering: its `k`-th number is the one that `k` further generations
/// would hand out.
pub proof fn law_batch_continues_numbering(last: Option<Seq<char>>, k: nat)
    requires
        can_follow(METER_PREFIX@, last),
    ensures
        formatted_id(
            METER_PREFIX@,
            id_number_spec(METER_PREFIX@, next_id_spec(METER_PREFIX@, last)) + k,
        ) == formatted_id(METER_PREFIX@, next_number_spec(METER_PREFIX@, last) + k),
{
    lemma_prefixes_start_with_letter();
    law_ids_are_consecutive(METER_PREFIX@, last);
}

} // verus!
