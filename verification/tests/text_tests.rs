use deploy_bot::text::{
    join_path, split_words, str_contains, str_starts_with, strip_ansi_codes, trim_bounds,
};

#[test]
fn ansi_codes_are_removed() {
    assert_eq!(strip_ansi_codes("\x1b[1;31mred\x1b[0m plain"), "red plain");
    assert_eq!(strip_ansi_codes("no codes"), "no codes");
    assert_eq!(strip_ansi_codes("\x1bX kept"), "X kept");
    assert_eq!(strip_ansi_codes("cut \x1b[12"), "cut ");
    let once = strip_ansi_codes("\x1b[2K\x1b[1Gprogress");
    assert_eq!(strip_ansi_codes(&once), once);
}

#[test]
fn words_split_at_white_space() {
    assert_eq!(split_words("  a  b\tc\n"), vec!["a", "b", "c"]);
    assert!(split_words(" \u{3000} ").is_empty());
    assert_eq!(split_words("x\u{a0}y"), vec!["x", "y"]);
}

#[test]
fn trimming() {
    let cs: Vec<char> = " \t 42 \n".chars().collect();
    let (a, b) = trim_bounds(&cs);
    assert_eq!(cs[a..b].iter().collect::<String>(), "42");
    let cs: Vec<char> = "   ".chars().collect();
    let (a, b) = trim_bounds(&cs);
    assert_eq!(a, b);
}

#[test]
fn path_joining() {
    assert_eq!(join_path("/srv", "app"), "/srv/app");
    assert_eq!(join_path("/srv/", "app"), "/srv/app");
    assert_eq!(join_path("", "app"), "app");
    assert_eq!(join_path("/srv", "/etc"), "/etc");
}

#[test]
fn searching() {
    assert!(str_contains("https://github.com/x", "github.com"));
    assert!(!str_contains("https://gitlab.com/x", "github.com"));
    assert!(str_starts_with("version = \"1\"", "version = "));
    assert!(!str_starts_with("ver", "version"));
}
