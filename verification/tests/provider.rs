use nexus_linux::clipboard::{
    read_files, read_html, read_x11_atom_string, ClipboardReply, SelectionAnswer, SelectionStep,
};
use nexus_linux::provider::{
    answer_request, persist_clipboard_data, provide_wayland_clipboard, provide_x11_clipboard,
    watch_wl_copy, ClipboardAtoms, ClipboardPayload, ClipboardProvider, PropertyData,
    ProviderAction, ProviderEvent, SelectionRequest, WlCopyAction, WlCopyEvent,
};
use nexus_linux::session::SessionType;
use nexus_linux::window::CommandOutput;

const ATOMS: ClipboardAtoms = ClipboardAtoms {
    clipboard: 100,
    targets: 101,
    utf8_string: 102,
    string: 31,
    html: 103,
    uri_list: 104,
    png: 105,
};

fn request(target: u32) -> SelectionRequest {
    SelectionRequest { time: 1, requestor: 2, selection: 100, target, property: 4 }
}

fn text() -> ClipboardPayload {
    ClipboardPayload::Text("é".to_string())
}

fn html() -> ClipboardPayload {
    ClipboardPayload::Html { text: "x".to_string(), html: " <b>x</b> ".to_string() }
}

fn files() -> ClipboardPayload {
    ClipboardPayload::Files(vec!["/a b".to_string(), "/c".to_string()])
}

fn image() -> ClipboardPayload {
    ClipboardPayload::Image(vec![0x89, 0x50])
}

fn served(payload: &ClipboardPayload, target: u32) -> Option<Vec<u8>> {
    let reply = answer_request(&ATOMS, payload, request(target));
    assert_eq!(reply.notice.time, 1);
    assert_eq!(reply.notice.requestor, 2);
    assert_eq!(reply.notice.selection, 100);
    assert_eq!(reply.notice.target, target);
    match reply.write {
        Some(write) => {
            assert_eq!(reply.notice.property, 4);
            assert_eq!((write.window, write.property), (2, 4));
            match write.data {
                PropertyData::Bytes { kind, bytes } => {
                    assert_eq!(kind, target);
                    Some(bytes)
                }
                PropertyData::Atoms(_) => unreachable!(),
            }
        }
        None => {
            assert_eq!(reply.notice.property, 0);
            None
        }
    }
}

#[test]
fn payloads_serve_their_targets_and_refuse_others() {
    assert_eq!(served(&text(), 102), Some("é".as_bytes().to_vec()));
    assert_eq!(served(&text(), 31), Some("é".as_bytes().to_vec()));
    assert_eq!(served(&text(), 103), None);
    assert_eq!(served(&html(), 103), Some(b" <b>x</b> ".to_vec()));
    assert_eq!(served(&html(), 102), Some(b"x".to_vec()));
    assert_eq!(served(&html(), 104), None);
    assert_eq!(served(&files(), 104), Some(b"file:///a b\r\nfile:///c\r\n".to_vec()));
    assert_eq!(served(&files(), 31), Some(b"/a b\n/c".to_vec()));
    assert_eq!(served(&files(), 105), None);
    assert_eq!(served(&image(), 105), Some(vec![0x89, 0x50]));
    assert_eq!(served(&image(), 102), None);
    assert_eq!(served(&image(), 999), None);
}

#[test]
fn targets_are_announced_for_every_payload() {
    for payload in [text(), html(), files(), image()] {
        let reply = answer_request(&ATOMS, &payload, request(101));
        assert_eq!(reply.notice.property, 4);
        match reply.write.unwrap().data {
            PropertyData::Atoms(atoms) => assert_eq!(atoms, vec![101, 102, 31, 103, 104, 105]),
            PropertyData::Bytes { .. } => unreachable!(),
        }
    }
}

#[test]
fn a_provider_serves_until_it_is_superseded() {
    let payload = text();
    let next = |event| provide_x11_clipboard(&ATOMS, &payload, event);
    assert!(matches!(next(ProviderEvent::Ready), ProviderAction::Claim));
    assert!(matches!(next(ProviderEvent::Claimed), ProviderAction::ReadToken));
    assert!(matches!(next(ProviderEvent::Token(1)), ProviderAction::Poll));
    assert!(matches!(next(ProviderEvent::Token(0)), ProviderAction::Stop));
    assert!(matches!(next(ProviderEvent::Nothing), ProviderAction::Pause { millis: 20 }));
    assert!(matches!(next(ProviderEvent::Cleared { selection: 1 }), ProviderAction::Pause { millis: 20 }));
    assert!(matches!(next(ProviderEvent::Cleared { selection: 100 }), ProviderAction::Stop));
    assert!(matches!(next(ProviderEvent::Requested(request(102))), ProviderAction::Reply(_)));
    assert!(matches!(next(ProviderEvent::Replied), ProviderAction::Pause { millis: 20 }));
    assert!(matches!(next(ProviderEvent::Paused), ProviderAction::ReadToken));
    let none = ClipboardAtoms { clipboard: 0, ..ATOMS };
    assert!(matches!(
        provide_x11_clipboard(&none, &payload, ProviderEvent::Ready),
        ProviderAction::Abandon
    ));
}

#[test]
fn wl_copy_gets_one_type() {
    let job = |payload| {
        let job = provide_wayland_clipboard(payload);
        assert_eq!(job.args.len(), 2);
        assert_eq!(job.args[0], "--type");
        (job.args[1].clone(), job.input)
    };
    assert_eq!(job(text()), ("text/plain;charset=utf-8".to_string(), "é".as_bytes().to_vec()));
    assert_eq!(job(html()), ("text/html".to_string(), b" <b>x</b> ".to_vec()));
    assert_eq!(job(files()), ("text/uri-list".to_string(), b"file:///a b\r\nfile:///c\r\n".to_vec()));
    assert_eq!(job(image()), ("image/png".to_string(), vec![0x89, 0x50]));
}

#[test]
fn wl_copy_is_watched() {
    assert_eq!(watch_wl_copy(WlCopyEvent::Started), WlCopyAction::ReadToken);
    assert_eq!(watch_wl_copy(WlCopyEvent::Token(1)), WlCopyAction::CheckExit);
    assert_eq!(watch_wl_copy(WlCopyEvent::Token(2)), WlCopyAction::Kill);
    assert_eq!(watch_wl_copy(WlCopyEvent::Exited(false)), WlCopyAction::Pause { millis: 200 });
    assert_eq!(watch_wl_copy(WlCopyEvent::Exited(true)), WlCopyAction::Kill);
    assert_eq!(watch_wl_copy(WlCopyEvent::Paused), WlCopyAction::ReadToken);
}

#[test]
fn the_session_chooses_the_provider() {
    match persist_clipboard_data(SessionType::Wayland, files()) {
        ClipboardProvider::WlCopy(job) => assert_eq!(Some(job.input), served(&files(), 104)),
        _ => unreachable!(),
    }
    match persist_clipboard_data(SessionType::X11, text()) {
        ClipboardProvider::Selection(payload) => {
            assert!(matches!(payload, ClipboardPayload::Text(s) if s == "é"));
        }
        _ => unreachable!(),
    }
}

fn converted(bytes: Vec<u8>) -> Option<String> {
    match read_x11_atom_string(SelectionAnswer::Fetched(Some(bytes))) {
        SelectionStep::Done(text) => text,
        _ => unreachable!(),
    }
}

#[test]
fn what_is_served_is_read_back() {
    let paths = Some(vec!["/a b".to_string(), "/c".to_string()]);
    let output = |payload| {
        let job = provide_wayland_clipboard(payload);
        ClipboardReply::WlPaste(Some(CommandOutput { success: true, stdout: job.input }))
    };
    assert_eq!(read_files(output(files())), paths);
    assert_eq!(read_html(output(html())), Some("<b>x</b>".to_string()));
    let list = converted(served(&files(), 104).unwrap());
    assert_eq!(read_files(ClipboardReply::Selection(list)), paths);
    let markup = converted(served(&html(), 103).unwrap());
    assert_eq!(read_html(ClipboardReply::Selection(markup)), Some(" <b>x</b> ".to_string()));
    assert!(matches!(files().clone(), ClipboardPayload::Files(paths) if paths.len() == 2));
}
