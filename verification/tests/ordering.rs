use follow_audit::ordering::name_less;

#[test]
fn name_less_is_the_order_of_the_bytes() {
    assert!(name_less("a", "b"));
    assert!(!name_less("b", "a"));
    assert!(!name_less("a", "a"));
    assert!(!name_less("", ""));
    assert!(name_less("", "a"));
    assert!(!name_less("a", ""));
    assert!(name_less("a", "ab"));
    assert!(!name_less("ab", "a"));
    assert!(name_less("ab", "b"));
    assert!(name_less("Z", "a"));
    assert!(!name_less("a", "Z"));
    assert!(name_less("z", "\u{e9}"));
    assert!(name_less("\u{e9}", "\u{4e2d}"));
    assert!(name_less("\u{4e2d}", "\u{1f41d}"));
    assert!(!name_less("\u{1f41d}", "\u{ffff}"));
    assert!(name_less("user_9", "user_a"));
    assert!(name_less("user10", "user9"));
}

#[test]
fn name_less_agrees_with_the_order_of_str() {
    let names = ["", "a", "A", "aa", "ab", "b", "\u{e9}", "e\u{301}", "\u{1f41d}", "zz", "z_", "0"];
    for left in names {
        for right in names {
            assert_eq!(name_less(left, right), left < right);
        }
    }
}
