use nexus_linux::clipboard::{
    clipboard_query, read_files, read_html, read_x11_atom_string, ClipboardQuery, ClipboardReply,
    Flavour, SelectionAnswer, SelectionStep,
};
use nexus_linux::session::SessionType;
use nexus_linux::window::CommandOutput;

fn pasted(success: bool, stdout: &[u8]) -> ClipboardReply {
    ClipboardReply::WlPaste(Some(CommandOutput { success, stdout: stdout.to_vec() }))
}

#[test]
fn queries_depend_on_the_session() {
    match clipboard_query(SessionType::Wayland, Flavour::Html) {
        ClipboardQuery::WlPaste(args) => assert_eq!(args, vec!["-t", "text/html", "-n"]),
        _ => unreachable!(),
    }
    match clipboard_query(SessionType::Wayland, Flavour::Files) {
        ClipboardQuery::WlPaste(args) => assert_eq!(args, vec!["-t", "text/uri-list", "-n"]),
        _ => unreachable!(),
    }
    match clipboard_query(SessionType::X11, Flavour::Html) {
        ClipboardQuery::Selection(target) => assert_eq!(target, "text/html"),
        _ => unreachable!(),
    }
    match clipboard_query(SessionType::X11, Flavour::Files) {
        ClipboardQuery::Selection(target) => assert_eq!(target, "text/uri-list"),
        _ => unreachable!(),
    }
}

#[test]
fn html_is_trimmed_under_wayland_only() {
    assert_eq!(read_html(pasted(true, b" <b>x</b>\n")), Some("<b>x</b>".to_string()));
    assert_eq!(read_html(pasted(true, b" \n")), None);
    assert_eq!(read_html(pasted(true, b"")), None);
    assert_eq!(read_html(pasted(true, b"\xff")), None);
    assert_eq!(read_html(pasted(false, b"<b>")), None);
    assert_eq!(read_html(ClipboardReply::WlPaste(None)), None);
    assert_eq!(
        read_html(ClipboardReply::Selection(Some(" <b> ".to_string()))),
        Some(" <b> ".to_string())
    );
    assert_eq!(read_html(ClipboardReply::Selection(None)), None);
}

#[test]
fn files_are_read_from_either_source() {
    let expected = Some(vec!["/a b".to_string(), "/c".to_string()]);
    assert_eq!(read_files(pasted(true, b"file:///a%20b\r\n/c\r\n")), expected);
    let raw = "file:///a%20b\n/c".to_string();
    assert_eq!(read_files(ClipboardReply::Selection(Some(raw))), expected);
    assert_eq!(read_files(pasted(true, b"# nothing\r\n")), None);
    assert_eq!(read_files(pasted(true, b"")), None);
    assert_eq!(read_files(pasted(true, b"/\xff")), None);
    assert_eq!(read_files(pasted(false, b"/c")), None);
    assert_eq!(read_files(ClipboardReply::WlPaste(None)), None);
    assert_eq!(read_files(ClipboardReply::Selection(None)), None);
}

#[test]
fn the_selection_owner_has_300_ms() {
    let at = |millis| read_x11_atom_string(SelectionAnswer::Elapsed { millis });
    assert!(matches!(at(0), SelectionStep::Poll));
    assert!(matches!(at(299), SelectionStep::Poll));
    assert!(matches!(at(300), SelectionStep::Done(None)));
    assert!(matches!(
        read_x11_atom_string(SelectionAnswer::Nothing),
        SelectionStep::Pause { millis: 10 }
    ));
}

#[test]
fn the_answer_of_the_owner_ends_the_conversion() {
    let notified = |property| read_x11_atom_string(SelectionAnswer::Notified { property });
    assert!(matches!(notified(0), SelectionStep::Done(None)));
    assert!(matches!(notified(12), SelectionStep::Fetch(12)));
    let fetched = |value: Option<&[u8]>| {
        read_x11_atom_string(SelectionAnswer::Fetched(value.map(|v| v.to_vec())))
    };
    assert!(matches!(fetched(Some("é".as_bytes())), SelectionStep::Done(Some(s)) if s == "é"));
    assert!(matches!(fetched(Some(b"")), SelectionStep::Done(None)));
    assert!(matches!(fetched(Some(b"\xff")), SelectionStep::Done(None)));
    assert!(matches!(fetched(None), SelectionStep::Abort));
}
