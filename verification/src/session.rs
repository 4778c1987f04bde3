//! Runtime environment detection.
use vstd::prelude::*;
use vstd::utf8::is_ascii_chars;

use crate::text::{
    ascii_lowercase, has_part, law_parts, lowercase, text_contains, text_equals, text_view, to_lowercase,
};

verus! {

/// The environment variables that tell sessions and desktops apart. A variable that is
/// unset, or whose value is not Unicode, is `None`.
#[derive(Debug)]
pub struct SessionEnv {
    /// `WAYLAND_DISPLAY`.
    pub wayland_display: Option<String>,
    /// `XDG_SESSION_TYPE`.
    pub xdg_session_type: Option<String>,
    /// `XDG_CURRENT_DESKTOP`.
    pub xdg_current_desktop: Option<String>,
    /// `HYPRLAND_INSTANCE_SIGNATURE`.
    pub hyprland_instance_signature: Option<String>,
    /// `SWAYSOCK`.
    pub swaysock: Option<String>,
}

/// Session type detected at runtime.
#[derive(Debug, Clone, Copy, PartialEq, Eq, Structural)]
pub enum SessionType {
    Wayland,
    X11,
}

/// The session type that `env` shows: Wayland where a Wayland display is set or the session
/// says that it is one, X11 otherwise.
pub open spec fn session_type(env: SessionEnv) -> SessionType {
    if env.wayland_display is Some || text_view(env.xdg_session_type) == Some("wayland"@) {
        SessionType::Wayland
    } else {
        SessionType::X11
    }
}

/// Detect whether the session is Wayland or X11.
pub fn detect_session_type(env: &SessionEnv) -> (session: SessionType)
    ensures
        session == session_type(*env),
{
    if env.wayland_display.is_some() {
        return SessionType::Wayland;
    }
    match &env.xdg_session_type {
        Some(kind) if text_equals(kind.as_str(), "wayland") => SessionType::Wayland,
        _ => SessionType::X11,
    }
}

/// Whether a desktop's name, in lower case, is one of GNOME Shell.
pub open spec fn gnome_name(lower: Seq<char>) -> bool {
    has_part(lower, "gnome"@)
}

/// Check if a desktop's name, in lower case, is one of GNOME Shell.
pub fn is_gnome_name(lower: &str) -> (gnome: bool)
    ensures
        gnome == has_part(lower@, "gnome"@),
        gnome == gnome_name(lower@),
{
    text_contains(lower, "gnome")
}

/// Whether `env` shows a desktop that is GNOME Shell.
pub open spec fn gnome_desktop(env: SessionEnv) -> bool {
    match text_view(env.xdg_current_desktop) {
        Some(desktop) => gnome_name(lowercase(desktop)),
        None => false,
    }
}

/// Check if running inside GNOME Shell.
pub fn is_gnome_desktop(env: &SessionEnv) -> (gnome: bool)
    ensures
        gnome == gnome_desktop(*env),
        gnome == match text_view(env.xdg_current_desktop) {
            Some(desktop) => has_part(lowercase(desktop), "gnome"@),
            None => false,
        },
        text_view(env.xdg_current_desktop) matches Some(desktop) ==> is_ascii_chars(desktop) ==> gnome
            == has_part(ascii_lowercase(desktop), "gnome"@),
{
    match &env.xdg_current_desktop {
        Some(desktop) => {
            let lower = to_lowercase(desktop.as_str());
            is_gnome_name(lower.as_str())
        },
        None => false,
    }
}

/// Whether two environments show the same text, or none, in a variable.
pub open spec fn same_text(a: Option<String>, b: Option<String>) -> bool {
    match (a, b) {
        (Some(x), Some(y)) => x@ == y@,
        (None, None) => true,
        _ => false,
    }
}

/// Where a Wayland display is set, the session is Wayland, whatever the other variables hold.
pub proof fn law_wayland_display_decides(env: SessionEnv)
    ensures
        env.wayland_display is Some ==> session_type(env) == SessionType::Wayland,
{
}

/// Changing the declared session type alone turns no session with a Wayland display into
/// X11, and decides every session without one: it is Wayland exactly where the type says
/// `wayland`.
pub proof fn law_declared_type_decides_the_rest(env: SessionEnv, declared: Option<String>)
    ensures
        ({
            let changed = SessionEnv { xdg_session_type: declared, ..env };
            &&& env.wayland_display is Some ==> session_type(changed) == session_type(env)
                && session_type(changed) == SessionType::Wayland
            &&& env.wayland_display is None ==> (session_type(changed) == SessionType::Wayland <==> (
            declared is Some && declared->0@ == seq!['w', 'a', 'y', 'l', 'a', 'n', 'd']))
        }),
{
    reveal_strlit("wayland");
    assert("wayland"@ =~= seq!['w', 'a', 'y', 'l', 'a', 'n', 'd']);
}

/// A session without a Wayland display, and whose declared type is missing, is X11. Setting a
/// Wayland display turns every session into Wayland.
pub proof fn law_display_turns_a_session(env: SessionEnv, display: String)
    ensures
        env.wayland_display is None && env.xdg_session_type is None ==> session_type(env)
            == SessionType::X11,
        session_type(SessionEnv { wayland_display: Some(display), ..env }) == SessionType::Wayland,
{
}

/// Nothing but the Wayland display and the declared type plays a part.
pub proof fn law_only_two_variables_decide(a: SessionEnv, b: SessionEnv)
    requires
        a.wayland_display is Some <==> b.wayland_display is Some,
        same_text(a.xdg_session_type, b.xdg_session_type),
    ensures
        session_type(a) == session_type(b),
{
}

/// A desktop is GNOME exactly where its name has `gnome` somewhere; without a name it is not,
/// and nothing but the name plays a part.
pub proof fn law_gnome_is_found_anywhere(
    env: SessionEnv,
    lower: Seq<char>,
    before: Seq<char>,
    after: Seq<char>,
)
    ensures
        gnome_name(before + seq!['g', 'n', 'o', 'm', 'e'] + after),
        gnome_name(lower) ==> exists|x: Seq<char>, y: Seq<char>|
            lower == #[trigger] (x + "gnome"@ + y),
        env.xdg_current_desktop is None ==> !gnome_desktop(env),
        env.xdg_current_desktop matches Some(name) ==> gnome_desktop(env) == gnome_name(
            lowercase(name@),
        ),
{
    reveal_strlit("gnome");
    assert("gnome"@ =~= seq!['g', 'n', 'o', 'm', 'e']);
    law_parts(before + "gnome"@ + after, "gnome"@);
    law_parts(lower, "gnome"@);
}

} // verus!
