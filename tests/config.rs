use mew::config::start_path;

#[test]
fn start_line_with_double_quotes() {
    let toml = "[package]\nname = \"demo\"\nstart = \"src/main.mew\"\n";
    assert_eq!(start_path(toml).as_deref(), Some("src/main.mew"));
}

#[test]
fn start_line_with_single_quotes_and_spaces() {
    assert_eq!(start_path("  start =   'app.mew'  ").as_deref(), Some("app.mew"));
}

#[test]
fn first_start_line_wins() {
    assert_eq!(start_path("start = \"a.mew\"\nstart = \"b.mew\"").as_deref(), Some("a.mew"));
}

#[test]
fn lines_with_two_equals_are_skipped() {
    assert_eq!(start_path("start = a = b\nstart = \"c.mew\"").as_deref(), Some("c.mew"));
}

#[test]
fn no_start_line() {
    assert_eq!(start_path("[package]\nname = \"x\""), None);
    assert_eq!(start_path(""), None);
    assert_eq!(start_path("start"), None);
}

#[test]
fn crlf_lines() {
    assert_eq!(start_path("name = \"x\"\r\nstart = \"w.mew\"\r\n").as_deref(), Some("w.mew"));
}
