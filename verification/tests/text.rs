use user_site::json::user_to_json;
use user_site::migrate::pending_migrations;
use user_site::numtext::i32_dec_string;
use user_site::numtext::parse_i32;
use user_site::store::User;

#[test]
fn parses_plain_and_signed_decimals() {
    assert_eq!(parse_i32("0"), Some(0));
    assert_eq!(parse_i32("123"), Some(123));
    assert_eq!(parse_i32("+5"), Some(5));
    assert_eq!(parse_i32("-7"), Some(-7));
    assert_eq!(parse_i32("2147483647"), Some(i32::MAX));
    assert_eq!(parse_i32("-2147483648"), Some(i32::MIN));
    assert_eq!(parse_i32("007"), Some(7));
}

#[test]
fn rejects_what_is_not_a_decimal_i32() {
    assert_eq!(parse_i32(""), None);
    assert_eq!(parse_i32("-"), None);
    assert_eq!(parse_i32("+"), None);
    assert_eq!(parse_i32("abc"), None);
    assert_eq!(parse_i32("12a"), None);
    assert_eq!(parse_i32(" 1"), None);
    assert_eq!(parse_i32("2147483648"), None);
    assert_eq!(parse_i32("-2147483649"), None);
    assert_eq!(parse_i32("99999999999999999999"), None);
}

#[test]
fn renders_decimals_exactly() {
    assert_eq!(i32_dec_string(0), "0");
    assert_eq!(i32_dec_string(42), "42");
    assert_eq!(i32_dec_string(-123), "-123");
    assert_eq!(i32_dec_string(i32::MAX), "2147483647");
    assert_eq!(i32_dec_string(i32::MIN), "-2147483648");
}

#[test]
fn renders_a_user_row_as_json() {
    let u = User {
        id: 1,
        username: "a".to_string(),
        email: "a@x.com".to_string(),
        password: "p".to_string(),
        admin: false,
    };
    assert_eq!(
        user_to_json(&u),
        "{\"id\":1,\"username\":\"a\",\"email\":\"a@x.com\",\"password\":\"p\",\"admin\":false}"
    );
}

#[test]
fn escapes_json_string_characters() {
    let u = User {
        id: -2,
        username: "a\"b\\c".to_string(),
        email: "tab\there".to_string(),
        password: "line\nbreak\u{1}".to_string(),
        admin: true,
    };
    let rendered = user_to_json(&u);
    assert_eq!(
        rendered,
        "{\"id\":-2,\"username\":\"a\\\"b\\\\c\",\"email\":\"tab\\there\",\"password\":\"line\\nbreak\\u0001\",\"admin\":true}"
    );
}

#[test]
fn pending_migrations_keep_order_and_drop_applied() {
    let all = vec![1u64, 2, 3, 4];
    let applied = vec![2u64];
    assert_eq!(pending_migrations(&all, &applied), vec![1u64, 3, 4]);
    let none_applied: Vec<u64> = Vec::new();
    assert_eq!(pending_migrations(&all, &none_applied), vec![1u64, 2, 3, 4]);
    let all_applied = vec![4u64, 3, 2, 1];
    assert_eq!(pending_migrations(&all, &all_applied), Vec::<u64>::new());
}
