use zero2prod::stamps::{new_uuid_v4, utc_now_display, utc_now_rfc3339};
use zero2prod::text::{i32_to_decimal, join, str_equal, u32_to_decimal};

#[test]
fn decimals() {
    assert_eq!(u32_to_decimal(0), "0");
    assert_eq!(u32_to_decimal(10), "10");
    assert_eq!(u32_to_decimal(4294967295), "4294967295");
    assert_eq!(i32_to_decimal(-2147483648), "-2147483648");
    assert_eq!(i32_to_decimal(2147483647), "2147483647");
    assert_eq!(i32_to_decimal(-5), "-5");
}

#[test]
fn joining() {
    let parts = vec!["a".to_string(), "b".to_string(), "c".to_string()];
    assert_eq!(join(&parts, " AND "), "a AND b AND c");
    assert_eq!(join(&Vec::new(), ", "), "");
    assert_eq!(join(&vec!["x".to_string()], ", "), "x");
}

#[test]
fn equality_of_texts() {
    assert!(str_equal("région", "région"));
    assert!(!str_equal("a", "ab"));
    assert!(!str_equal("ab", "ac"));
}

#[test]
fn fresh_ids_and_times() {
    let id = new_uuid_v4();
    assert_eq!(id.len(), 36);
    assert_eq!(&id[14..15], "4");
    assert!(utc_now_display().ends_with(" UTC"));
    assert!(utc_now_rfc3339().ends_with("+00:00"));
}
