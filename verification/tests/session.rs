use nexus_linux::session::{
    detect_session_type, is_gnome_desktop, is_gnome_name, SessionEnv, SessionType,
};

fn env() -> SessionEnv {
    SessionEnv {
        wayland_display: None,
        xdg_session_type: None,
        xdg_current_desktop: None,
        hyprland_instance_signature: None,
        swaysock: None,
    }
}

#[test]
fn a_wayland_display_or_session_type_makes_it_wayland() {
    assert_eq!(detect_session_type(&env()), SessionType::X11);
    let display = SessionEnv { wayland_display: Some(String::new()), ..env() };
    assert_eq!(detect_session_type(&display), SessionType::Wayland);
    let kind = |s: &str| SessionEnv { xdg_session_type: Some(s.to_string()), ..env() };
    assert_eq!(detect_session_type(&kind("wayland")), SessionType::Wayland);
    assert_eq!(detect_session_type(&kind("x11")), SessionType::X11);
    assert_eq!(detect_session_type(&kind("Wayland")), SessionType::X11);
    assert_eq!(detect_session_type(&kind("wayland ")), SessionType::X11);
}

#[test]
fn gnome_is_found_in_any_case() {
    let desktop = |s: &str| SessionEnv { xdg_current_desktop: Some(s.to_string()), ..env() };
    assert!(is_gnome_desktop(&desktop("ubuntu:GNOME")));
    assert!(is_gnome_desktop(&desktop("gnome")));
    assert!(!is_gnome_desktop(&desktop("KDE")));
    assert!(!is_gnome_desktop(&desktop("")));
    assert!(!is_gnome_desktop(&env()));
    assert!(is_gnome_name("gnome-classic"));
    assert!(!is_gnome_name("GNOME"));
}
