use fast_down::names::{candidate_name, final_name, sanitize};

#[test]
fn reserved_characters_are_stripped() {
    assert_eq!(sanitize("a<b>c:d\"e/f\\g|h?i*j.txt"), "abcdefghij.txt");
    assert_eq!(sanitize("tab\there\nnew\u{7f}del\0nul"), "tabherenewdelnul");
    assert_eq!(sanitize("plain name (1).tar.gz"), "plain name (1).tar.gz");
    assert_eq!(sanitize("日本語.txt"), "日本語.txt");
    assert_eq!(sanitize("///"), "");
    assert_eq!(sanitize(""), "");
}

#[test]
fn long_names_are_cut() {
    let long = "x".repeat(300);
    assert_eq!(sanitize(&long), "x".repeat(255));
    let exact = "y".repeat(255);
    assert_eq!(sanitize(&exact), exact);
    let mixed = format!("{}{}", "/".repeat(100), "é".repeat(256));
    assert_eq!(sanitize(&mixed), "é".repeat(255));
}

#[test]
fn final_name_drops_the_part_suffix() {
    assert_eq!(final_name("a.zip.fdpart"), "a.zip");
    assert_eq!(final_name(".fdpart"), "");
    assert_eq!(final_name("a.zip"), "a.zip");
    assert_eq!(final_name("a.fdpart.zip"), "a.fdpart.zip");
    assert_eq!(final_name("a.FDPART"), "a.FDPART");
    assert_eq!(final_name("fdpart"), "fdpart");
    assert_eq!(final_name(""), "");
    assert_eq!(final_name("x.fdpart.fdpart"), "x.fdpart");
}

#[test]
fn candidates_carry_the_attempt() {
    assert_eq!(candidate_name("a", Some("zip"), 0), "a.zip");
    assert_eq!(candidate_name("a", Some("zip"), 1), "a (1).zip");
    assert_eq!(candidate_name("a", Some("zip"), 12), "a (12).zip");
    assert_eq!(candidate_name("a", None, 0), "a");
    assert_eq!(candidate_name("a", None, 3), "a (3)");
    assert_eq!(candidate_name("a.tar", Some("gz"), 2), "a.tar (2).gz");
}
