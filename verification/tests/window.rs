use nexus_linux::json::{parse_json, Json};
use nexus_linux::session::SessionEnv;
use nexus_linux::window::{
    find_sway_focused, foreground_window, hyprland_window, read_hyprland_window, read_sway_window,
    read_x11_window, CommandOutput, PropertyReply, WindowAnswer, WindowInfo, WindowStep, X11Answer,
    X11Step,
};

fn output(success: bool, stdout: &str) -> Option<CommandOutput> {
    Some(CommandOutput { success, stdout: stdout.as_bytes().to_vec() })
}

fn parts(window: Option<WindowInfo>) -> Option<(Option<String>, Option<String>, isize)> {
    window.map(|w| (w.app, w.title, w.hwnd))
}

fn info(app: Option<&str>, title: Option<&str>, hwnd: isize) -> Option<(Option<String>, Option<String>, isize)> {
    Some((app.map(str::to_string), title.map(str::to_string), hwnd))
}

#[test]
fn hyprland_replies_are_read() {
    let read = |s: &str| parts(read_hyprland_window(&output(true, s)));
    assert_eq!(read(r#"{"class":"firefox","title":"News"}"#), info(Some("firefox"), Some("News"), 0));
    assert_eq!(read(r#"{"class":"firefox","title":7}"#), info(Some("firefox"), None, 0));
    assert_eq!(read(r#"{"title":""}"#), info(None, Some(""), 0));
    assert_eq!(read("{}"), None);
    assert_eq!(read("[]"), None);
    assert_eq!(read("not json"), None);
    assert_eq!(parts(read_hyprland_window(&output(false, r#"{"class":"firefox"}"#))), None);
    assert_eq!(parts(read_hyprland_window(&None)), None);
    let reply = Json::Object(vec![("class".to_string(), Json::Text("a".to_string()))]);
    assert_eq!(parts(hyprland_window(&reply)), info(Some("a"), None, 0));
}

fn sway(doc: &str) -> Option<(Option<String>, Option<String>, isize)> {
    parts(find_sway_focused(&parse_json(doc.as_bytes()).unwrap()))
}

#[test]
fn sway_windows_are_found_below_their_containers() {
    assert_eq!(
        sway(r#"{"focused":false,"nodes":[{"app_id":"foot"},{"nodes":[{"focused":true,"app_id":"code","name":"main.rs"}]}]}"#),
        info(Some("code"), Some("main.rs"), 0)
    );
    // A focused node below wins over one above, a tiled one over a floating one.
    assert_eq!(
        sway(r#"{"focused":true,"app_id":"top","floating_nodes":[{"focused":true,"app_id":"f"}],"nodes":[{"focused":true,"app_id":"t"}]}"#),
        info(Some("t"), None, 0)
    );
    assert_eq!(
        sway(r#"{"focused":true,"app_id":"top","floating_nodes":[{"focused":true,"app_id":"f"}],"nodes":[]}"#),
        info(Some("f"), None, 0)
    );
    assert_eq!(
        sway(r#"{"nodes":[{"focused":true,"app_id":"one"},{"focused":true,"app_id":"two"}]}"#),
        info(Some("one"), None, 0)
    );
    // A focused node that names no window is passed over.
    assert_eq!(
        sway(r#"{"focused":true,"app_id":"top","nodes":[{"focused":true}]}"#),
        info(Some("top"), None, 0)
    );
}

#[test]
fn xwayland_windows_have_properties() {
    assert_eq!(
        sway(r#"{"focused":true,"app_id":null,"name":"n","window_properties":{"class":"Steam","title":"Shop"}}"#),
        info(Some("Steam"), Some("Shop"), 0)
    );
    assert_eq!(
        sway(r#"{"focused":true,"window_properties":{"title":"Shop"}}"#),
        info(None, Some("Shop"), 0)
    );
    assert_eq!(sway(r#"{"focused":true,"window_properties":{}}"#), None);
    assert_eq!(sway(r#"{"focused":true}"#), None);
    assert_eq!(sway(r#"{"focused":1,"app_id":"x"}"#), None);
    assert_eq!(parts(read_sway_window(&output(true, r#"{"focused":true,"app_id":"x"}"#))), info(Some("x"), None, 0));
    assert_eq!(parts(read_sway_window(&output(false, r#"{"focused":true,"app_id":"x"}"#))), None);
    assert_eq!(parts(read_sway_window(&output(true, "x"))), None);
}

fn x11(active: Option<u32>, name: PropertyReply, class: PropertyReply) -> Option<(Option<String>, Option<String>, isize)> {
    let mut name = Some(name);
    let mut class = Some(class);
    let mut answer = X11Answer::Active(active);
    loop {
        answer = match read_x11_window(answer) {
            X11Step::AskName(window) => X11Answer::Name(window, name.take().unwrap()),
            X11Step::AskClass(window, title) => X11Answer::Class(window, title, class.take().unwrap()),
            X11Step::Done(window) => return parts(window),
        };
    }
}

fn value(bytes: &[u8]) -> PropertyReply {
    PropertyReply::Value(bytes.to_vec())
}

#[test]
fn x11_windows_are_read_from_their_properties() {
    assert_eq!(x11(Some(5), value(b"Inbox"), value(b"navigator\0firefox\0")), info(Some("firefox"), Some("Inbox"), 5));
    assert_eq!(x11(Some(5), value(b""), value(b"\0\0")), info(None, None, 5));
    assert_eq!(x11(Some(5), value(b"\xff"), value(b"a\0\xff\0")), info(None, None, 5));
    assert_eq!(x11(Some(5), value(b"t"), value(b"one")), info(Some("one"), Some("t"), 5));
    assert_eq!(x11(Some(5), value(b"t"), value(b"\0a\0\0b\0\0")), info(Some("b"), Some("t"), 5));
    assert_eq!(x11(Some(5), PropertyReply::Failed, PropertyReply::Failed), info(None, None, 5));
    assert_eq!(x11(Some(5), PropertyReply::Unsent, value(b"a")), None);
    assert_eq!(x11(Some(5), value(b"t"), PropertyReply::Unsent), None);
    assert_eq!(x11(Some(0), value(b"t"), value(b"a")), None);
    assert_eq!(x11(None, value(b"t"), value(b"a")), None);
}

fn env(hyprland: bool, sway: bool, wayland: bool) -> SessionEnv {
    let set = |b: bool| if b { Some("1".to_string()) } else { None };
    SessionEnv {
        wayland_display: set(wayland),
        xdg_session_type: None,
        xdg_current_desktop: None,
        hyprland_instance_signature: set(hyprland),
        swaysock: set(sway),
    }
}

fn lookup(env: SessionEnv, hyprland: &str, sway: &str, x11: Option<WindowInfo>) -> (Vec<char>, WindowInfo) {
    let mut asked = vec![];
    let mut answer = WindowAnswer::Start;
    loop {
        answer = match foreground_window(&env, answer) {
            WindowStep::AskHyprland => {
                asked.push('h');
                WindowAnswer::Hyprland(output(true, hyprland))
            }
            WindowStep::AskSway => {
                asked.push('s');
                WindowAnswer::Sway(output(true, sway))
            }
            WindowStep::AskX11 => {
                asked.push('x');
                WindowAnswer::X11(x11.clone())
            }
            WindowStep::Found(window) => return (asked, window),
        };
    }
}

#[test]
fn compositors_are_asked_before_the_x_server() {
    let hypr = r#"{"class":"h"}"#;
    let tree = r#"{"focused":true,"app_id":"s"}"#;
    let x = || Some(WindowInfo { app: Some("x".to_string()), title: None, hwnd: 3 });

    let (asked, window) = lookup(env(true, true, true), hypr, tree, x());
    assert_eq!((asked, window.app.as_deref()), (vec!['h'], Some("h")));
    let (asked, window) = lookup(env(true, true, true), "{}", tree, x());
    assert_eq!((asked, window.app.as_deref()), (vec!['h', 's'], Some("s")));
    let (asked, window) = lookup(env(true, true, true), "{}", "{}", x());
    assert_eq!((asked, window.app, window.hwnd), (vec!['h', 's'], None, 0));
    let (asked, window) = lookup(env(false, true, false), hypr, "{}", x());
    assert_eq!((asked, window.app.as_deref(), window.hwnd), (vec!['s', 'x'], Some("x"), 3));
    let (asked, window) = lookup(env(false, false, false), hypr, tree, None);
    assert_eq!((asked, window.app, window.hwnd), (vec!['x'], None, 0));
    let (asked, window) = lookup(env(false, false, true), hypr, tree, x());
    assert_eq!((asked, window.app, window.title), (vec![], None, None));
}
