use my_transaction_engine::amount::{parse_amount, parse_amount_field};
use my_transaction_engine::numeric::parse_uint_u32;
use my_transaction_engine::try_run;

// Amount parsing: values come back in ten-thousandths, rounded to four
// fractional digits, half to even.

#[test]
fn test_parse_amount_plain() {
    assert_eq!(parse_amount("1"), Some(10_000));
    assert_eq!(parse_amount("5.0"), Some(50_000));
    assert_eq!(parse_amount("2.5"), Some(25_000));
    assert_eq!(parse_amount("-42.0"), Some(-420_000));
    assert_eq!(parse_amount("0.0001"), Some(1));
}

#[test]
fn test_parse_amount_rounds_half_to_even() {
    assert_eq!(parse_amount("5.42190327521"), Some(54_219));
    assert_eq!(parse_amount("0.00005"), Some(0));
    assert_eq!(parse_amount("0.00015"), Some(2));
    assert_eq!(parse_amount("0.00025"), Some(2));
}

#[test]
fn test_parse_amount_rejects_garbage() {
    assert_eq!(parse_amount("abc"), None);
    assert_eq!(parse_amount(""), None);
    assert_eq!(parse_amount("1.2.3"), None);
}

#[test]
fn test_parse_amount_field_empty_is_absent() {
    assert_eq!(parse_amount_field(""), Some(None));
    assert_eq!(parse_amount_field("2.5"), Some(Some(25_000)));
    assert_eq!(parse_amount_field("x"), None);
}

// Identifier parsing mirrors `str::parse` for unsigned integers.

#[test]
fn test_parse_uint() {
    assert_eq!(parse_uint_u32("0", u32::MAX), Some(0));
    assert_eq!(parse_uint_u32("42", u32::MAX), Some(42));
    assert_eq!(parse_uint_u32("+7", u32::MAX), Some(7));
    assert_eq!(parse_uint_u32("-0", u32::MAX), Some(0));
    assert_eq!(parse_uint_u32("-1", u32::MAX), None);
    assert_eq!(parse_uint_u32("", u32::MAX), None);
    assert_eq!(parse_uint_u32("+", u32::MAX), None);
    assert_eq!(parse_uint_u32("12a", u32::MAX), None);
    assert_eq!(parse_uint_u32("65536", 65_535), None);
    assert_eq!(parse_uint_u32("65535", 65_535), Some(65_535));
    assert_eq!(parse_uint_u32("4294967295", u32::MAX), Some(u32::MAX));
    assert_eq!(parse_uint_u32("4294967296", u32::MAX), None);
}

// Whole-run parsing edges.

#[test]
fn test_row_with_out_of_range_client_is_skipped() {
    let given = "type,client,tx,amount\ndeposit, 1, 1, 1.0\ndeposit, 70000, 2, 2.0\n";
    let expected = "client,available,held,total,locked\n1,1.0000,0.0000,1.0000,false\n";
    assert_eq!(try_run(given), expected);
}

#[test]
fn test_columns_found_by_header_name() {
    let given = "amount,tx,client,type\n3.5, 1, 9, deposit\n";
    let expected = "client,available,held,total,locked\n9,3.5000,0.0000,3.5000,false\n";
    assert_eq!(try_run(given), expected);
}

#[test]
fn test_missing_column_skips_all_rows() {
    let given = "type,client,tx\ndeposit, 1, 1\n";
    let expected = "client,available,held,total,locked\n";
    assert_eq!(try_run(given), expected);
}

#[test]
fn test_empty_amount_is_zero_deposit() {
    let given = "type,client,tx,amount\ndeposit, 1, 1,\n";
    let expected = "client,available,held,total,locked\n1,0.0000,0.0000,0.0000,false\n";
    assert_eq!(try_run(given), expected);
}

#[test]
fn test_two_clients_render_in_creation_order() {
    let given = "type,client,tx,amount\ndeposit, 2, 1, 1.0\ndeposit, 1, 2, 2.0\n";
    let expected = "client,available,held,total,locked\n2,1.0000,0.0000,1.0000,false\n1,2.0000,0.0000,2.0000,false\n";
    assert_eq!(try_run(given), expected);
}

#[test]
fn test_negative_held_renders_with_sign() {
    let given = "type,client,tx,amount\ndeposit, 1, 1, 5.0\nwithdrawal, 1, 2, 2.5\ndispute, 1, 2,\n";
    let expected = "client,available,held,total,locked\n1,5.0000,-2.5000,2.5000,false\n";
    assert_eq!(try_run(given), expected);
}

#[test]
fn test_empty_input_renders_header_only() {
    assert_eq!(try_run(""), "client,available,held,total,locked\n");
    assert_eq!(try_run("type,client,tx,amount\n"), "client,available,held,total,locked\n");
}
