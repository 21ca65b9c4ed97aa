use switchit::project::Project;
use switchit::store::{parse_line, parse_store, render_store, StoreError};

fn project(name: &str, path: &str) -> Project {
    Project::new(name.to_string(), path.to_string())
}

#[test]
fn parse_line_splits_at_delimiter() {
    let p = parse_line("Switchit{}/home/me/switchit").unwrap();
    assert_eq!(p.name, "Switchit");
    assert_eq!(p.path, "/home/me/switchit");
}

#[test]
fn parse_line_splits_at_first_delimiter_only() {
    let p = parse_line("a{}b{}c").unwrap();
    assert_eq!(p.name, "a");
    assert_eq!(p.path, "b{}c");
}

#[test]
fn parse_line_name_ending_in_brace() {
    let p = parse_line("a{{}b").unwrap();
    assert_eq!(p.name, "a{");
    assert_eq!(p.path, "b");
}

#[test]
fn parse_line_rejects_missing_delimiter() {
    assert!(parse_line("no delimiter here").is_none());
    assert!(parse_line("half { brace }").is_none());
}

#[test]
fn parse_line_rejects_empty_fields() {
    assert!(parse_line("{}/p").is_none());
    assert!(parse_line("X{}").is_none());
    assert!(parse_line("{}").is_none());
}

#[test]
fn parse_line_keeps_unicode() {
    let p = parse_line("Café{}/home/josé").unwrap();
    assert_eq!(p.name, "Café");
    assert_eq!(p.path, "/home/josé");
}

#[test]
fn parse_store_reads_records_in_order() {
    let v = parse_store("X{}/p\nY{}/q\n").unwrap();
    assert_eq!(v, vec![project("X", "/p"), project("Y", "/q")]);
}

#[test]
fn parse_store_empty_text() {
    assert_eq!(parse_store("").unwrap(), Vec::<Project>::new());
}

#[test]
fn parse_store_last_line_without_break() {
    let v = parse_store("X{}/p\nY{}/q").unwrap();
    assert_eq!(v, vec![project("X", "/p"), project("Y", "/q")]);
}

#[test]
fn parse_store_skips_blank_lines() {
    let v = parse_store("\nX{}/p\n\n\nY{}/q\n\n").unwrap();
    assert_eq!(v, vec![project("X", "/p"), project("Y", "/q")]);
}

#[test]
fn parse_store_accepts_crlf() {
    let v = parse_store("X{}/p\r\nY{}/q\r\n").unwrap();
    assert_eq!(v, vec![project("X", "/p"), project("Y", "/q")]);
}

#[test]
fn parse_store_fails_on_line_without_delimiter() {
    assert_eq!(
        parse_store("X{}/p\nbroken line\nY{}/q\n").unwrap_err(),
        StoreError::MalformedLine { line: 2 }
    );
}

#[test]
fn parse_store_fails_on_empty_name() {
    assert_eq!(
        parse_store("{}/p\n").unwrap_err(),
        StoreError::MalformedLine { line: 1 }
    );
}

#[test]
fn parse_store_fails_on_empty_path_after_blank_lines() {
    assert_eq!(
        parse_store("X{}/p\n\n\nY{}\n").unwrap_err(),
        StoreError::MalformedLine { line: 4 }
    );
}

#[test]
fn parse_store_reports_first_malformed_line() {
    assert_eq!(
        parse_store("a\nb\n").unwrap_err(),
        StoreError::MalformedLine { line: 1 }
    );
}

#[test]
fn render_store_writes_one_line_per_project() {
    let s = render_store(&vec![project("X", "/p"), project("Y", "/q")]);
    assert_eq!(s, "X{}/p\nY{}/q\n");
}

#[test]
fn render_store_empty() {
    assert_eq!(render_store(&Vec::new()), "");
}

#[test]
fn store_round_trip() {
    let v = vec![
        project("Switchit", "/home/me/code/switchit"),
        project("Café", "C:\\Users\\me\\café"),
        project("dup", "/a"),
        project("dup", "/b{}c"),
        project("brace{", "}x"),
    ];
    let text = render_store(&v);
    assert_eq!(parse_store(&text).unwrap(), v);
}
