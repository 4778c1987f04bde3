use nexus_linux::files::{join_lines, parse_uri_list, write_uri_list};

fn strings(items: &[&str]) -> Vec<String> {
    items.iter().map(|s| s.to_string()).collect()
}

#[test]
fn comments_blanks_and_other_schemes_are_passed_over() {
    let raw = "# copied\r\n\r\nfile:///home/a b\r\nhttp://x/y\r\n  /plain/path  \r\nrelative\r\nfile://host/z";
    assert_eq!(parse_uri_list(raw), strings(&["/home/a b", "/plain/path", "host/z"]));
    assert!(parse_uri_list("").is_empty());
    assert!(parse_uri_list("\n\r\n # not a comment? yes\n").is_empty());
}

#[test]
fn escapes_are_decoded() {
    assert_eq!(parse_uri_list("file:///a%20b"), strings(&["/a b"]));
    assert_eq!(parse_uri_list("file:///%C3%a9"), strings(&["/é"]));
    assert_eq!(parse_uri_list("file:///a+b"), strings(&["/a+b"]));
    // Malformed escapes stay.
    assert_eq!(parse_uri_list("file:///100%"), strings(&["/100%"]));
    assert_eq!(parse_uri_list("file:///%4"), strings(&["/%4"]));
    assert_eq!(parse_uri_list("file:///%%41%4g%zz"), strings(&["/%A%4g%zz"]));
    // What does not decode to text is left as it stands.
    assert_eq!(parse_uri_list("file:///%ff"), strings(&["/%ff"]));
    assert_eq!(parse_uri_list("file:///%C3"), strings(&["/%C3"]));
    // A plain path is not decoded.
    assert_eq!(parse_uri_list("/a%20b"), strings(&["/a%20b"]));
}

#[test]
fn lines_end_as_in_text() {
    assert_eq!(parse_uri_list("/a\n/b\r\n/c"), strings(&["/a", "/b", "/c"]));
    assert_eq!(parse_uri_list("/a\r/b\n"), strings(&["/a\r/b"]));
    assert_eq!(parse_uri_list("/a\r"), strings(&["/a"]));
    assert_eq!(parse_uri_list("file://"), strings(&[""]));
    assert_eq!(parse_uri_list("file:/"), Vec::<String>::new());
}

#[test]
fn lists_are_written_one_uri_a_line() {
    assert_eq!(write_uri_list(&strings(&["/a b", "/c"])), "file:///a b\r\nfile:///c\r\n");
    assert_eq!(write_uri_list(&vec![]), "");
    assert_eq!(join_lines(&strings(&["/a", "/b", ""])), "/a\n/b\n");
    assert_eq!(join_lines(&strings(&["/a"])), "/a");
    assert_eq!(join_lines(&vec![]), "");
}

#[test]
fn surviving_paths_are_read_back() {
    let paths = strings(&["/home/é/x y", "", "/100%", "/a\rb", " /lead"]);
    assert_eq!(parse_uri_list(&write_uri_list(&paths)), paths);
}

#[test]
fn other_paths_are_not() {
    for path in ["/a%20b", "/a ", "/a\nb", "/a\r"] {
        let paths = strings(&[path]);
        assert_ne!(parse_uri_list(&write_uri_list(&paths)), paths);
    }
}
