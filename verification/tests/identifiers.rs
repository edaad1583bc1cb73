use utility_billing::ids::{
    batch_meter_numbers, gen_customer_no, gen_invoice_no, gen_meter_no, id_number, next_id,
    CUSTOMER_PREFIX, INVOICE_PREFIX, METER_PREFIX,
};
use utility_billing::text::{parse_u32, push_decimal, push_zero_padded, same_text, trim_start_matches};

#[test]
fn first_meter_number_is_001() {
    assert_eq!(gen_meter_no(None), "HMI-001");
    assert_eq!(gen_customer_no(None), "CUS-HMI-001");
    assert_eq!(gen_invoice_no(None), "INV-001");
}

#[test]
fn next_meter_number_increments() {
    assert_eq!(gen_meter_no(Some("HMI-007")), "HMI-008");
    assert_eq!(gen_meter_no(Some("HMI-099")), "HMI-100");
    assert_eq!(gen_meter_no(Some("HMI-999")), "HMI-1000");
}

#[test]
fn next_customer_and_invoice_numbers_increment() {
    assert_eq!(gen_customer_no(Some("CUS-HMI-041")), "CUS-HMI-042");
    assert_eq!(gen_invoice_no(Some("INV-010")), "INV-011");
}

#[test]
fn unreadable_number_counts_as_zero() {
    assert_eq!(gen_meter_no(Some("HMI-abc")), "HMI-001");
    assert_eq!(gen_meter_no(Some("")), "HMI-001");
    assert_eq!(gen_invoice_no(Some("INV--3")), "INV-001");
    assert_eq!(gen_meter_no(Some("HMI-4294967296")), "HMI-001");
}

#[test]
fn repeated_prefixes_are_all_trimmed() {
    assert_eq!(gen_meter_no(Some("HMI-HMI-005")), "HMI-006");
    assert_eq!(id_number(METER_PREFIX, "HMI-HMI-HMI-12"), 12);
}

#[test]
fn plus_sign_is_accepted() {
    assert_eq!(gen_meter_no(Some("HMI-+12")), "HMI-013");
}

#[test]
fn id_number_reads_the_number() {
    assert_eq!(id_number(CUSTOMER_PREFIX, "CUS-HMI-007"), 7);
    assert_eq!(id_number(INVOICE_PREFIX, "INV-4294967295"), 4294967295);
    assert_eq!(id_number(INVOICE_PREFIX, "XYZ-5"), 0);
}

#[test]
fn next_id_with_other_prefix() {
    assert_eq!(next_id("PAY-", Some("PAY-041")), "PAY-042");
    assert_eq!(next_id("PAY-", None), "PAY-001");
}

#[test]
fn generated_numbers_are_consecutive() {
    let a = gen_meter_no(Some("HMI-041"));
    let b = gen_meter_no(Some(&a));
    let c = gen_meter_no(Some(&b));
    assert_eq!(a, "HMI-042");
    assert_eq!(b, "HMI-043");
    assert_eq!(c, "HMI-044");
    assert_eq!(id_number(METER_PREFIX, &c), id_number(METER_PREFIX, &b) + 1);
}

#[test]
fn batch_holds_count_plus_one_numbers() {
    let batch = batch_meter_numbers("HMI-005", 2);
    assert_eq!(batch, vec!["HMI-005", "HMI-006", "HMI-007"]);
}

#[test]
fn batch_with_zero_count_holds_one_number() {
    assert_eq!(batch_meter_numbers("HMI-010", 0), vec!["HMI-010"]);
}

#[test]
fn batch_with_negative_count_is_empty() {
    assert!(batch_meter_numbers("HMI-010", -1).is_empty());
}

#[test]
fn batch_continues_from_generated_number() {
    let next = gen_meter_no(Some("HMI-998"));
    let batch = batch_meter_numbers(&next, 2);
    assert_eq!(batch[0], next);
    assert_eq!(batch, vec!["HMI-999", "HMI-1000", "HMI-1001"]);
}

#[test]
fn batch_from_unreadable_number_starts_at_zero() {
    assert_eq!(batch_meter_numbers("garbage", 1), vec!["HMI-000", "HMI-001"]);
}

#[test]
fn parse_u32_follows_std() {
    for text in ["0", "7", "+7", "0012", "4294967295", "4294967296", "", "+", "-", "-1", "-0", "1 ", " 1", "1_0", "١"] {
        assert_eq!(parse_u32(text), text.parse::<u32>().ok(), "text {:?}", text);
    }
}

#[test]
fn trim_start_matches_follows_std() {
    for (s, p) in [("HMI-HMI-1", "HMI-"), ("HMI-1", "HMI"), ("abc", ""), ("", "x"), ("aaa", "aa"), ("xHMI-", "HMI-")] {
        assert_eq!(trim_start_matches(s, p), s.trim_start_matches(p), "{:?} {:?}", s, p);
    }
}

#[test]
fn zero_padding_matches_format() {
    for n in [0u64, 7, 42, 999, 1000, 123456] {
        let mut out = String::new();
        push_zero_padded(&mut out, n, 3);
        assert_eq!(out, format!("{:03}", n));
        let mut plain = String::from("x");
        push_decimal(&mut plain, n);
        assert_eq!(plain, format!("x{}", n));
    }
}

#[test]
fn same_text_compares_characters() {
    assert!(same_text("pending", "pending"));
    assert!(!same_text("pending", "Pending"));
    assert!(!same_text("all", "al"));
}
