use nexus_linux::paste::{
    is_terminal_class, is_terminal_name, paste_into, paste_keys, raise_x11_window, Error,
    KeyMotion, KeyStroke, PasteAction, PasteEvent, PasteKey, RaiseRequest,
};
use nexus_linux::session::SessionType;
use nexus_linux::window::WindowInfo;

#[test]
fn detects_terminal_classes() {
    assert!(is_terminal_class("gnome-terminal"));
    assert!(is_terminal_class("Kitty"));
    assert!(is_terminal_class("alacritty"));
    assert!(is_terminal_class("foot"));
    assert!(!is_terminal_class("firefox"));
    assert!(!is_terminal_class("code"));
}

#[test]
fn terminal_classes_ignore_case_and_allow_parts() {
    assert!(is_terminal_class("XTerm"));
    assert!(is_terminal_class("org.wezfurlong.WezTerm"));
    assert!(is_terminal_class("KONSOLE"));
    assert!(is_terminal_class("TERM"));
    assert!(!is_terminal_class("footclient"));
    assert!(!is_terminal_class("kitty2"));
    assert!(!is_terminal_class("ter"));
    assert!(!is_terminal_class(""));
    // The Kelvin sign is the one non-ASCII character whose lower case is `k`.
    assert!(is_terminal_class("\u{212a}itty"));
    assert!(!is_terminal_name("Kitty"));
    assert!(is_terminal_name("kitty"));
}

fn stroke(key: PasteKey, motion: KeyMotion) -> KeyStroke {
    KeyStroke { key, motion }
}

#[test]
fn terminals_get_shift_insert_and_others_control_v() {
    assert_eq!(
        paste_keys(true),
        vec![
            stroke(PasteKey::Shift, KeyMotion::Press),
            stroke(PasteKey::Insert, KeyMotion::Click),
            stroke(PasteKey::Shift, KeyMotion::Release),
        ]
    );
    assert_eq!(
        paste_keys(false),
        vec![
            stroke(PasteKey::Control, KeyMotion::Press),
            stroke(PasteKey::V, KeyMotion::Click),
            stroke(PasteKey::Control, KeyMotion::Release),
        ]
    );
}

#[test]
fn only_known_x11_windows_are_raised() {
    assert!(matches!(
        paste_into(42, SessionType::X11, PasteEvent::Begin),
        PasteAction::Raise(42)
    ));
    assert!(matches!(
        paste_into(0, SessionType::X11, PasteEvent::Begin),
        PasteAction::Settle { millis: 80 }
    ));
    assert!(matches!(
        paste_into(42, SessionType::Wayland, PasteEvent::Begin),
        PasteAction::Settle { millis: 80 }
    ));
    let captured = 0xffff_fff0u32 as isize;
    assert!(matches!(
        paste_into(captured, SessionType::X11, PasteEvent::Begin),
        PasteAction::Raise(0xffff_fff0)
    ));
}

fn run(target: WindowInfo) -> Vec<KeyStroke> {
    let mut typed = vec![];
    let mut event = PasteEvent::Begin;
    loop {
        event = match paste_into(7, SessionType::X11, event) {
            PasteAction::Raise(window) => {
                assert_eq!(window, 7);
                PasteEvent::Raised
            }
            PasteAction::Settle { .. } => PasteEvent::Settled,
            PasteAction::OpenKeyboard => PasteEvent::KeyboardReady,
            PasteAction::InspectTarget => PasteEvent::Target(target.clone()),
            PasteAction::Type { terminal, index, stroke } => {
                typed.push(stroke);
                PasteEvent::Typed { terminal, index }
            }
            PasteAction::Finish(result) => {
                assert!(result.is_ok());
                return typed;
            }
        };
    }
}

#[test]
fn a_paste_types_what_suits_the_target() {
    let app = |name: &str| WindowInfo { app: Some(name.to_string()), title: None, hwnd: 0 };
    assert_eq!(run(app("Alacritty")), paste_keys(true));
    assert_eq!(run(app("firefox")), paste_keys(false));
    assert_eq!(run(WindowInfo::default()), paste_keys(false));
}

fn failure(event: PasteEvent) -> String {
    match paste_into(7, SessionType::X11, event) {
        PasteAction::Finish(Err(error)) => error.message().to_string(),
        other => panic!("unexpected: {:?}", other),
    }
}

#[test]
fn failures_say_what_failed() {
    assert_eq!(
        failure(PasteEvent::KeyboardFailed("NoConnection".to_string())),
        "Enigo initialization failed: NoConnection"
    );
    let typing = |key, motion| {
        failure(PasteEvent::TypeFailed { stroke: stroke(key, motion), detail: "x".to_string() })
    };
    assert_eq!(typing(PasteKey::Shift, KeyMotion::Press), "failed Shift press: x");
    assert_eq!(typing(PasteKey::Insert, KeyMotion::Click), "failed Insert click: x");
    assert_eq!(typing(PasteKey::V, KeyMotion::Click), "failed V click: x");
    assert_eq!(typing(PasteKey::Control, KeyMotion::Release), "failed Control release: x");
    assert_eq!(Error::platform("m".to_string()).message(), "m");
}

#[test]
fn raising_asks_the_window_manager_first() {
    let requests = raise_x11_window(9, 300);
    assert_eq!(requests.len(), 4);
    match requests[0] {
        RaiseRequest::Message { mask, format, window, kind, data } => {
            assert_eq!(mask, (1 << 19) | (1 << 20));
            assert_eq!(format, 32);
            assert_eq!(window, 9);
            assert_eq!(kind, 300);
            assert_eq!(data, [2, 0, 0, 0, 0]);
        }
        _ => unreachable!(),
    }
    assert!(matches!(requests[1], RaiseRequest::StackAbove { window: 9 }));
    assert!(matches!(requests[2], RaiseRequest::Focus { window: 9 }));
    assert!(matches!(requests[3], RaiseRequest::Flush));
}
