use fast_down::confirm::{choices, confirm, get_text, predicate, read_answer};

#[test]
fn fixed_answers() {
    assert_eq!(predicate(true, false), Some(true));
    assert_eq!(predicate(true, true), Some(true));
    assert_eq!(predicate(false, true), Some(false));
    assert_eq!(predicate(false, false), None);
    assert_eq!(get_text(true), b'Y');
    assert_eq!(get_text(false), b'N');
    assert_eq!(choices(true), "(Y/n) ");
    assert_eq!(choices(false), "(y/N) ");
}

#[test]
fn answers() {
    for default in [true, false] {
        assert_eq!(read_answer("y", default), Some(true));
        assert_eq!(read_answer("Y\n", default), Some(true));
        assert_eq!(read_answer("  y \r\n", default), Some(true));
        assert_eq!(read_answer("n", default), Some(false));
        assert_eq!(read_answer("N\n", default), Some(false));
        assert_eq!(read_answer("", default), Some(default));
        assert_eq!(read_answer("\n", default), Some(default));
        assert_eq!(read_answer("   \t", default), Some(default));
        assert_eq!(read_answer("yes", default), None);
        assert_eq!(read_answer("no", default), None);
        assert_eq!(read_answer("x", default), None);
        assert_eq!(read_answer("y n", default), None);
    }
}

#[test]
fn fixed_answer_goes_before_the_line() {
    assert_eq!(confirm(Some(true), "n", false), Some(true));
    assert_eq!(confirm(Some(false), "y", true), Some(false));
    assert_eq!(confirm(None, "y", false), Some(true));
    assert_eq!(confirm(None, "", false), Some(false));
    assert_eq!(confirm(None, "maybe", false), None);
}
