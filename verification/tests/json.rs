use nexus_linux::json::{parse_json, Json};

#[test]
fn documents_are_read_whole() {
    let doc = parse_json(br#"{"b":[1,true,null,"x"],"a":{"c":"d"}}"#).unwrap();
    match doc.get("b") {
        Some(Json::List(items)) => {
            assert_eq!(items.len(), 4);
            assert!(matches!(items[0], Json::Number));
            assert!(matches!(items[1], Json::Bool(true)));
            assert!(matches!(items[2], Json::Null));
            assert!(matches!(&items[3], Json::Text(s) if s == "x"));
        }
        _ => unreachable!(),
    }
    assert_eq!(doc.get("a").unwrap().get_text("c"), Some("d".to_string()));
    assert!(doc.get("z").is_none());
    assert!(doc.get_text("a").is_none());
    assert!(Json::Null.get("a").is_none());
}

#[test]
fn what_is_no_document_is_refused() {
    assert!(parse_json(b"").is_none());
    assert!(parse_json(b"{").is_none());
    assert!(parse_json(b"{} x").is_none());
    assert!(parse_json(b"\"\xff\"").is_none());
}

#[test]
fn the_last_of_two_equal_names_is_kept() {
    let doc = parse_json(br#"{"a":"1","a":"2"}"#).unwrap();
    assert_eq!(doc.get_text("a"), Some("2".to_string()));
}
