use codex_y::text::{push_bool, push_decimal};

#[test]
fn decimal_text() {
    for n in [0u64, 7, 10, 99, 100, 12345, u64::MAX] {
        let mut s = String::from("x");
        push_decimal(&mut s, n);
        assert_eq!(s, format!("x{n}"));
    }
    let mut s = String::new();
    push_bool(&mut s, true);
    push_bool(&mut s, false);
    assert_eq!(s, "truefalse");
}
