use imglaze::chat::opt_next_space;
use imglaze::text::{chars_of, is_space, same_text, starts_with_text, trim_bounds};

#[test]
fn next_space_splits_command_and_args() {
    assert_eq!(opt_next_space("img https://a.com/x.png more"), ("img", Some("https://a.com/x.png more")));
}

#[test]
fn next_space_without_space_returns_input() {
    assert_eq!(opt_next_space("img"), ("img", None));
    assert_eq!(opt_next_space(""), ("", None));
    assert_eq!(opt_next_space("\tx\t"), ("\tx\t", None));
}

#[test]
fn next_space_trims_both_halves() {
    assert_eq!(opt_next_space("  a  b "), ("", Some("a  b")));
    assert_eq!(opt_next_space("a\u{3000} b"), ("a", Some("b")));
    assert_eq!(opt_next_space("img   "), ("img", Some("")));
}

#[test]
fn next_space_left_half_has_no_space() {
    for input in ["x y z", " lead", "trail ", "a\u{2003}b c"] {
        let (left, right) = opt_next_space(input);
        assert!(!left.contains(' '));
        assert_eq!(left, left.trim());
        assert_eq!(right, Some(right.unwrap().trim()));
    }
}

#[test]
fn whitespace_matches_std() {
    for u in 0u32..0x3100 {
        if let Some(c) = char::from_u32(u) {
            assert_eq!(is_space(c), c.is_whitespace(), "{:x}", u);
        }
    }
}

#[test]
fn trim_bounds_match_std_trim() {
    for s in ["", "   ", " a ", "\u{85}ab\u{a0}", "x", "a b"] {
        let v = chars_of(s);
        let (b, e) = trim_bounds(&v, 0, v.len());
        let t: String = v[b..e].iter().collect();
        assert_eq!(t, s.trim());
    }
}

#[test]
fn text_comparisons() {
    assert!(same_text("abc", "abc"));
    assert!(!same_text("abc", "abd"));
    assert!(starts_with_text("::img", "::"));
    assert!(!starts_with_text(":", "::"));
    assert_eq!(chars_of("hé!"), vec!['h', 'é', '!']);
}
