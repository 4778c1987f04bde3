//! Pasting into the window that had the focus.
use vstd::prelude::*;
use vstd::utf8::is_ascii_chars;

use crate::session::SessionType;
use crate::text::{
    ascii_lowercase, has_part, law_parts, lowercase, text_contains, text_equals, text_view, to_lowercase,
};
use crate::window::{x11_step, PropertyReply, WindowInfo, X11Answer, X11StepView};

verus! {

/// What can go wrong on the platform side.
#[derive(Debug)]
pub enum Error {
    /// A platform service failed; the text says which, and how.
    Platform(String),
}

impl Error {
    /// A failure of a platform service.
    pub fn platform(message: String) -> (error: Error)
        ensures
            error == Error::Platform(message),
    {
        Error::Platform(message)
    }

    /// What the error says.
    pub open spec fn text(self) -> Seq<char> {
        match self {
            Error::Platform(message) => message@,
        }
    }

    /// What the error says.
    pub fn message(&self) -> (message: &str)
        ensures
            message@ == self.text(),
    {
        match self {
            Error::Platform(message) => message.as_str(),
        }
    }
}

/// Whether a window class, in lower case, is one of a terminal emulator.
pub open spec fn terminal_name(lower: Seq<char>) -> bool {
    ||| has_part(lower, "terminal"@)
    ||| has_part(lower, "term"@)
    ||| lower == "kitty"@
    ||| lower == "alacritty"@
    ||| lower == "foot"@
    ||| lower == "wezterm"@
    ||| lower == "konsole"@
}

/// Whether a window class, in lower case, is one of a terminal emulator.
pub fn is_terminal_name(lower: &str) -> (terminal: bool)
    ensures
        terminal == terminal_name(lower@),
{
    text_contains(lower, "terminal") || text_contains(lower, "term") || text_equals(lower, "kitty")
        || text_equals(lower, "alacritty") || text_equals(lower, "foot") || text_equals(
        lower,
        "wezterm",
    ) || text_equals(lower, "konsole")
}

/// Whether a window class is one of a terminal emulator, in whatever case it is written.
pub fn is_terminal_class(class: &str) -> (terminal: bool)
    ensures
        terminal == terminal_name(lowercase(class@)),
        is_ascii_chars(class@) ==> terminal == terminal_name(ascii_lowercase(class@)),
{
    let lower = to_lowercase(class);
    is_terminal_name(lower.as_str())
}

/// A key that pasting uses.
#[derive(Debug, Clone, Copy, PartialEq, Eq, Structural)]
pub enum PasteKey {
    Shift,
    Control,
    Insert,
    V,
}

/// What is done with a key.
#[derive(Debug, Clone, Copy, PartialEq, Eq, Structural)]
pub enum KeyMotion {
    Press,
    Click,
    Release,
}

/// One step of typing.
#[derive(Debug, Clone, Copy, PartialEq, Eq, Structural)]
pub struct KeyStroke {
    pub key: PasteKey,
    pub motion: KeyMotion,
}

/// The key that is held while pasting.
pub open spec fn paste_modifier(terminal: bool) -> PasteKey {
    if terminal {
        PasteKey::Shift
    } else {
        PasteKey::Control
    }
}

/// The key that is clicked to paste.
pub open spec fn paste_click(terminal: bool) -> PasteKey {
    if terminal {
        PasteKey::Insert
    } else {
        PasteKey::V
    }
}

/// The strokes that paste: Shift+Insert into a terminal emulator, Ctrl+V elsewhere.
pub open spec fn paste_strokes(terminal: bool) -> Seq<KeyStroke> {
    seq![
        KeyStroke { key: paste_modifier(terminal), motion: KeyMotion::Press },
        KeyStroke { key: paste_click(terminal), motion: KeyMotion::Click },
        KeyStroke { key: paste_modifier(terminal), motion: KeyMotion::Release },
    ]
}

/// The strokes that paste: Shift+Insert into a terminal emulator, Ctrl+V elsewhere.
pub fn paste_keys(terminal: bool) -> (strokes: Vec<KeyStroke>)
    ensures
        strokes@ == paste_strokes(terminal),
{
    let (modifier, click) = if terminal {
        (PasteKey::Shift, PasteKey::Insert)
    } else {
        (PasteKey::Control, PasteKey::V)
    };
    let mut strokes: Vec<KeyStroke> = Vec::new();
    strokes.push(KeyStroke { key: modifier, motion: KeyMotion::Press });
    strokes.push(KeyStroke { key: click, motion: KeyMotion::Click });
    strokes.push(KeyStroke { key: modifier, motion: KeyMotion::Release });
    assert(strokes@ =~= paste_strokes(terminal));
    strokes
}

/// The name of a key in messages.
pub open spec fn key_name(key: PasteKey) -> Seq<char> {
    match key {
        PasteKey::Shift => "Shift"@,
        PasteKey::Control => "Control"@,
        PasteKey::Insert => "Insert"@,
        PasteKey::V => "V"@,
    }
}

/// The name of a motion in messages.
pub open spec fn motion_name(motion: KeyMotion) -> Seq<char> {
    match motion {
        KeyMotion::Press => "press"@,
        KeyMotion::Click => "click"@,
        KeyMotion::Release => "release"@,
    }
}

/// What is reported when a stroke fails for the reason `detail`.
pub open spec fn stroke_failure(stroke: KeyStroke, detail: Seq<char>) -> Seq<char> {
    "failed "@ + key_name(stroke.key) + " "@ + motion_name(stroke.motion) + ": "@ + detail
}

/// What is reported when key synthesis is not available for the reason `detail`.
pub open spec fn keyboard_failure(detail: Seq<char>) -> Seq<char> {
    "Enigo initialization failed: "@ + detail
}

fn report_stroke(stroke: KeyStroke, detail: &str) -> (error: Error)
    ensures
        error.text() == stroke_failure(stroke, detail@),
{
    let mut message = String::new();
    message.append("failed ");
    message.append(
        match stroke.key {
            PasteKey::Shift => "Shift",
            PasteKey::Control => "Control",
            PasteKey::Insert => "Insert",
            PasteKey::V => "V",
        },
    );
    message.append(" ");
    message.append(
        match stroke.motion {
            KeyMotion::Press => "press",
            KeyMotion::Click => "click",
            KeyMotion::Release => "release",
        },
    );
    message.append(": ");
    message.append(detail);
    assert(message@ =~= stroke_failure(stroke, detail@));
    Error::platform(message)
}

/// What was done last while pasting.
#[derive(Debug)]
pub enum PasteEvent {
    /// Nothing yet.
    Begin,
    /// The window was raised.
    Raised,
    /// The window manager had its moment.
    Settled,
    /// Key synthesis is not available; the text says why.
    KeyboardFailed(String),
    /// Key synthesis is available.
    KeyboardReady,
    /// The window that has the focus now.
    Target(WindowInfo),
    /// A stroke was typed; `index` counts the strokes from 0.
    Typed { terminal: bool, index: usize },
    /// A stroke could not be typed; the text says why.
    TypeFailed { stroke: KeyStroke, detail: String },
}

/// What to do next while pasting.
#[derive(Debug)]
pub enum PasteAction {
    /// Raise and focus an X11 window.
    Raise(u32),
    /// Give the window manager a moment to settle focus.
    Settle { millis: u64 },
    /// Set up key synthesis.
    OpenKeyboard,
    /// Look up the window that has the focus.
    InspectTarget,
    /// Type a stroke.
    Type { terminal: bool, index: usize, stroke: KeyStroke },
    /// Pasting is over.
    Finish(Result<(), Error>),
}

/// What a [`PasteAction`] says.
pub enum PasteActionView {
    Raise(u32),
    Settle { millis: u64 },
    OpenKeyboard,
    InspectTarget,
    Type { terminal: bool, index: usize, stroke: KeyStroke },
    Done,
    Fail(Seq<char>),
}

impl View for PasteAction {
    type V = PasteActionView;

    open spec fn view(&self) -> PasteActionView {
        match *self {
            PasteAction::Raise(window) => PasteActionView::Raise(window),
            PasteAction::Settle { millis } => PasteActionView::Settle { millis },
            PasteAction::OpenKeyboard => PasteActionView::OpenKeyboard,
            PasteAction::InspectTarget => PasteActionView::InspectTarget,
            PasteAction::Type { terminal, index, stroke } => PasteActionView::Type {
                terminal,
                index,
                stroke,
            },
            PasteAction::Finish(Ok(_)) => PasteActionView::Done,
            PasteAction::Finish(Err(error)) => PasteActionView::Fail(error.text()),
        }
    }
}

/// Whether the window that has the focus is a terminal emulator.
pub open spec fn targets_terminal(target: WindowInfo) -> bool {
    match text_view(target.app) {
        Some(class) => terminal_name(lowercase(class)),
        None => false,
    }
}

/// The stroke number `index`, or the end where there is none.
pub open spec fn type_or_finish(terminal: bool, index: int) -> PasteActionView {
    if 0 <= index < paste_strokes(terminal).len() {
        PasteActionView::Type {
            terminal,
            index: index as usize,
            stroke: paste_strokes(terminal)[index],
        }
    } else {
        PasteActionView::Done
    }
}

/// The action that follows an event, when pasting into the window `hwnd`.
pub open spec fn paste_action(
    hwnd: isize,
    session: SessionType,
    event: PasteEvent,
) -> PasteActionView {
    match event {
        PasteEvent::Begin => if hwnd != 0 && session == SessionType::X11 {
            PasteActionView::Raise(hwnd as u32)
        } else {
            PasteActionView::Settle { millis: 80 }
        },
        PasteEvent::Raised => PasteActionView::Settle { millis: 80 },
        PasteEvent::Settled => PasteActionView::OpenKeyboard,
        PasteEvent::KeyboardFailed(detail) => PasteActionView::Fail(keyboard_failure(detail@)),
        PasteEvent::KeyboardReady => PasteActionView::InspectTarget,
        PasteEvent::Target(target) => type_or_finish(targets_terminal(target), 0),
        PasteEvent::Typed { terminal, index } => type_or_finish(terminal, index + 1),
        PasteEvent::TypeFailed { stroke, detail } => PasteActionView::Fail(
            stroke_failure(stroke, detail@),
        ),
    }
}

fn next_stroke(terminal: bool, index: usize) -> (action: PasteAction)
    ensures
        action@ == type_or_finish(terminal, index as int),
{
    let strokes = paste_keys(terminal);
    if index < strokes.len() {
        PasteAction::Type { terminal, index, stroke: strokes[index] }
    } else {
        PasteAction::Finish(Ok(()))
    }
}

/// Raise the targeted window in X11 and simulate pasting, one action at a time.
/// Uses Shift+Insert for terminal emulators if applicable, otherwise Ctrl+V.
pub fn paste_into(hwnd: isize, session: SessionType, event: PasteEvent) -> (action: PasteAction)
    ensures
        action@ == paste_action(hwnd, session, event),
        event matches PasteEvent::Target(target) ==> text_view(target.app) matches Some(class) ==> (
        is_ascii_chars(class) ==> action@ == type_or_finish(
            terminal_name(ascii_lowercase(class)),
            0,
        )),
{
    match event {
        PasteEvent::Begin => if hwnd != 0 && session == SessionType::X11 {
            PasteAction::Raise(hwnd as u32)
        } else {
            PasteAction::Settle { millis: 80 }
        },
        PasteEvent::Raised => PasteAction::Settle { millis: 80 },
        PasteEvent::Settled => PasteAction::OpenKeyboard,
        PasteEvent::KeyboardFailed(detail) => {
            let mut message = String::new();
            message.append("Enigo initialization failed: ");
            message.append(detail.as_str());
            assert(message@ =~= keyboard_failure(detail@));
            PasteAction::Finish(Err(Error::platform(message)))
        },
        PasteEvent::KeyboardReady => PasteAction::InspectTarget,
        PasteEvent::Target(target) => {
            let terminal = match &target.app {
                Some(class) => is_terminal_class(class.as_str()),
                None => false,
            };
            next_stroke(terminal, 0)
        },
        PasteEvent::Typed { terminal, index } => if index < usize::MAX {
            next_stroke(terminal, index + 1)
        } else {
            PasteAction::Finish(Ok(()))
        },
        PasteEvent::TypeFailed { stroke, detail } => PasteAction::Finish(
            Err(report_stroke(stroke, detail.as_str())),
        ),
    }
}

/// A request to the X server that helps to raise a window.
#[derive(Debug, Clone, Copy)]
pub enum RaiseRequest {
    /// Send a client message about `window` to those who listen on the root window with
    /// `mask`.
    Message { mask: u32, format: u8, window: u32, kind: u32, data: [u32; 5] },
    /// Put the window above its siblings.
    StackAbove { window: u32 },
    /// Give the window the input focus, which falls back to the root window's pointer.
    Focus { window: u32 },
    /// Send what is still held back.
    Flush,
}

/// The requests that raise `window`, in order: a pager asks the window manager to activate
/// it (`net_active` is the atom `_NET_ACTIVE_WINDOW`), then it is raised and focused
/// directly.
pub open spec fn raise_requests(window: u32, net_active: u32) -> Seq<RaiseRequest> {
    seq![
        RaiseRequest::Message {
            mask: SUBSTRUCTURE_MASK,
            format: 32,
            window,
            kind: net_active,
            data: [SOURCE_PAGER, 0, 0, 0, 0],
        },
        RaiseRequest::StackAbove { window },
        RaiseRequest::Focus { window },
        RaiseRequest::Flush,
    ]
}

/// The event masks `SubstructureNotify` and `SubstructureRedirect`.
pub const SUBSTRUCTURE_MASK: u32 = 0x18_0000;

/// The source indication of pagers and window managers.
pub const SOURCE_PAGER: u32 = 2;

/// The requests that raise and focus an X11 window.
pub fn raise_x11_window(window: u32, net_active: u32) -> (requests: Vec<RaiseRequest>)
    ensures
        requests@ == raise_requests(window, net_active),
{
    let mut requests: Vec<RaiseRequest> = Vec::new();
    requests.push(
        RaiseRequest::Message {
            mask: SUBSTRUCTURE_MASK,
            format: 32,
            window,
            kind: net_active,
            data: [SOURCE_PAGER, 0, 0, 0, 0],
        },
    );
    requests.push(RaiseRequest::StackAbove { window });
    requests.push(RaiseRequest::Focus { window });
    requests.push(RaiseRequest::Flush);
    assert(requests@ =~= raise_requests(window, net_active));
    requests
}

/// The keys that are still down after `strokes`.
pub open spec fn keys_held(strokes: Seq<KeyStroke>) -> Set<PasteKey>
    decreases strokes.len(),
{
    if strokes.len() == 0 {
        Set::empty()
    } else {
        let before = keys_held(strokes.drop_last());
        match strokes.last().motion {
            KeyMotion::Press => before.insert(strokes.last().key),
            KeyMotion::Click => before,
            KeyMotion::Release => before.remove(strokes.last().key),
        }
    }
}

/// Pasting clicks one key while exactly its modifier is down, and leaves no key down.
pub proof fn law_paste_releases_what_it_presses(terminal: bool)
    ensures
        terminal ==> paste_modifier(terminal) == PasteKey::Shift && paste_click(terminal)
            == PasteKey::Insert,
        !terminal ==> paste_modifier(terminal) == PasteKey::Control && paste_click(terminal)
            == PasteKey::V,
        paste_strokes(terminal).len() == 3,
        paste_strokes(terminal)[1] == (KeyStroke {
            key: paste_click(terminal),
            motion: KeyMotion::Click,
        }),
        keys_held(paste_strokes(terminal).take(1)) == set![paste_modifier(terminal)],
        keys_held(paste_strokes(terminal)) == Set::<PasteKey>::empty(),
{
    let strokes = paste_strokes(terminal);
    reveal_with_fuel(keys_held, 4);
    assert(strokes.take(1).drop_last() =~= Seq::empty());
    assert(strokes.take(1).last() == strokes[0]);
    assert(strokes.drop_last().drop_last() =~= strokes.take(1));
    assert(strokes.drop_last().last() == strokes[1]);
    assert(strokes.last() == strokes[2]);
    assert(keys_held(strokes.take(1)) =~= set![paste_modifier(terminal)]);
    assert(keys_held(strokes.drop_last()) == keys_held(strokes.take(1)));
    assert(keys_held(strokes) =~= Set::empty());
}

/// The event that reports that an action was done without failure; `None` after the last.
pub open spec fn done_event(action: PasteActionView, target: WindowInfo) -> Option<PasteEvent> {
    match action {
        PasteActionView::Raise(_) => Some(PasteEvent::Raised),
        PasteActionView::Settle { .. } => Some(PasteEvent::Settled),
        PasteActionView::OpenKeyboard => Some(PasteEvent::KeyboardReady),
        PasteActionView::InspectTarget => Some(PasteEvent::Target(target)),
        PasteActionView::Type { terminal, index, .. } => Some(PasteEvent::Typed { terminal, index }),
        PasteActionView::Done => None,
        PasteActionView::Fail(_) => None,
    }
}

/// The actions, at most `steps` of them, that follow `event` when each is done without
/// failure and `target` has the focus.
pub open spec fn paste_actions(
    hwnd: isize,
    session: SessionType,
    target: WindowInfo,
    event: PasteEvent,
    steps: nat,
) -> Seq<PasteActionView>
    decreases steps,
{
    if steps == 0 {
        Seq::empty()
    } else {
        let action = paste_action(hwnd, session, event);
        match done_event(action, target) {
            Some(next) => seq![action] + paste_actions(
                hwnd,
                session,
                target,
                next,
                (steps - 1) as nat,
            ),
            None => seq![action],
        }
    }
}

/// Where nothing fails, pasting raises the window (if there is one to raise), waits, looks
/// who has the focus, types the strokes that suit it, and ends.
pub proof fn law_paste_runs_to_its_end(
    hwnd: isize,
    session: SessionType,
    target: WindowInfo,
    steps: nat,
)
    requires
        steps >= 8,
    ensures
        paste_actions(hwnd, session, target, PasteEvent::Begin, steps) == (if hwnd != 0 && session
            == SessionType::X11 {
            seq![PasteActionView::Raise(hwnd as u32)]
        } else {
            Seq::empty()
        }) + seq![
            PasteActionView::Settle { millis: 80 },
            PasteActionView::OpenKeyboard,
            PasteActionView::InspectTarget,
            type_or_finish(targets_terminal(target), 0),
            type_or_finish(targets_terminal(target), 1),
            type_or_finish(targets_terminal(target), 2),
            PasteActionView::Done,
        ],
{
    reveal_with_fuel(paste_actions, 8);
    let actions = paste_actions(hwnd, session, target, PasteEvent::Begin, steps);
    let terminal = targets_terminal(target);
    assert(paste_strokes(terminal).len() == 3);
    assert(type_or_finish(terminal, 3) == PasteActionView::Done);
    if hwnd != 0 && session == SessionType::X11 {
        assert(actions[0] == PasteActionView::Raise(hwnd as u32));
    }
}

/// The window that a capture recorded is the one that pasting raises.
pub proof fn law_paste_raises_the_captured_window(
    window: u32,
    title: Option<String>,
    class: PropertyReply,
)
    requires
        window != 0,
        !(class is Unsent),
    ensures
        match x11_step(X11Answer::Class(window, title, class)) {
            X11StepView::Done(Some(captured)) => paste_action(
                captured.hwnd,
                SessionType::X11,
                PasteEvent::Begin,
            ) == PasteActionView::Raise(window),
            _ => false,
        },
{
    assert(window != 0 ==> window as isize != 0) by (bit_vector);
    assert((window as isize) as u32 == window) by (bit_vector);
}

/// A class is one of a terminal exactly where it has `term` somewhere, whatever stands before
/// and after it, or is one of four names in full.
pub proof fn law_terminal_classes(lower: Seq<char>, before: Seq<char>, after: Seq<char>)
    ensures
        terminal_name(before + seq!['t', 'e', 'r', 'm'] + after),
        terminal_name("kitty"@),
        terminal_name("alacritty"@),
        terminal_name("foot"@),
        terminal_name("konsole"@),
        terminal_name(lower) && (forall|x: Seq<char>, y: Seq<char>|
            lower != #[trigger] (x + "term"@ + y)) ==> lower == "kitty"@ || lower == "alacritty"@
            || lower == "foot"@ || lower == "konsole"@,
{
    reveal_strlit("term");
    reveal_strlit("terminal");
    reveal_strlit("wezterm");
    assert("term"@ =~= seq!['t', 'e', 'r', 'm']);
    law_parts(before + "term"@ + after, "term"@);
    law_parts(lower, "term"@);
    law_parts(lower, "terminal"@);
    if has_part(lower, "terminal"@) {
        let (x, y) = choose|x: Seq<char>, y: Seq<char>| lower == #[trigger] (x + "terminal"@ + y);
        assert(lower =~= x + "term"@ + (seq!['i', 'n', 'a', 'l'] + y));
    }
    if lower == "wezterm"@ {
        assert(lower =~= seq!['w', 'e', 'z'] + "term"@ + Seq::empty());
    }
}

/// The window that has the focus is a terminal exactly where its class, in lower case, is one
/// of a terminal. Its title and its id play no part.
pub proof fn law_target_class_decides(target: WindowInfo)
    ensures
        target.app is None ==> !targets_terminal(target),
        target.app matches Some(class) ==> targets_terminal(target) == terminal_name(
            lowercase(class@),
        ),
{
}

/// Every failure ends the paste at once, and its message says what failed and why.
pub proof fn law_failures_end_the_paste(
    hwnd: isize,
    session: SessionType,
    stroke: KeyStroke,
    detail: String,
)
    ensures
        paste_action(hwnd, session, PasteEvent::KeyboardFailed(detail)) == PasteActionView::Fail(
            "Enigo initialization failed: "@ + detail@,
        ),
        paste_action(hwnd, session, PasteEvent::TypeFailed { stroke, detail })
            == PasteActionView::Fail(
            "failed "@ + (match stroke.key {
                PasteKey::Shift => "Shift"@,
                PasteKey::Control => "Control"@,
                PasteKey::Insert => "Insert"@,
                PasteKey::V => "V"@,
            }) + " "@ + (match stroke.motion {
                KeyMotion::Press => "press"@,
                KeyMotion::Click => "click"@,
                KeyMotion::Release => "release"@,
            }) + ": "@ + detail@,
        ),
{
}

/// A paste ends well only after its last stroke, fails only after a failure, and types only
/// strokes of its own kind, each after the one before it.
pub proof fn law_paste_goes_in_order(hwnd: isize, session: SessionType, event: PasteEvent)
    ensures
        paste_action(hwnd, session, event) is Done <==> (event matches PasteEvent::Typed {
            index,
            ..
        } && index >= 2),
        paste_action(hwnd, session, event) is Fail <==> event is KeyboardFailed || event
            is TypeFailed,
        paste_action(hwnd, session, event) is Raise <==> event is Begin && hwnd != 0 && session
            == SessionType::X11,
        paste_action(hwnd, session, event) is Settle <==> event is Raised || (event is Begin && !(
        hwnd != 0 && session == SessionType::X11)),
        paste_action(hwnd, session, event) is OpenKeyboard <==> event is Settled,
        paste_action(hwnd, session, event) is InspectTarget <==> event is KeyboardReady,
        paste_action(hwnd, session, event) matches PasteActionView::Type {
            terminal,
            index,
            stroke,
        } ==> {
            &&& index < 3
            &&& stroke == paste_strokes(terminal)[index as int]
            &&& match event {
                PasteEvent::Target(target) => index == 0 && terminal == targets_terminal(target),
                PasteEvent::Typed { terminal: kind, index: last } => index == last + 1 && terminal
                    == kind,
                _ => false,
            }
        },
{
}

/// Whichever window is to be raised, each request speaks of it and of no other: a client
/// message in 32-bit units to those who manage the root window, from a pager, then the
/// window is stacked above the others and gets the focus, and all is sent.
pub proof fn law_raising_speaks_of_one_window(window: u32, net_active: u32)
    ensures
        ({
            let requests = raise_requests(window, net_active);
            &&& requests.len() == 4
            &&& requests[0] matches RaiseRequest::Message {
                mask,
                format,
                window: told,
                kind,
                data,
            } && mask == 0x8_0000 + 0x10_0000 && format == 32 && told == window && kind
                == net_active && data@ == seq![2u32, 0, 0, 0, 0]
            &&& requests[1] matches RaiseRequest::StackAbove { window: told } && told == window
            &&& requests[2] matches RaiseRequest::Focus { window: told } && told == window
            &&& requests[3] is Flush
        }),
{
    assert(raise_requests(window, net_active)[0]->data@ =~= seq![2u32, 0, 0, 0, 0]);
}

/// An action is seen as it is, with all that it carries.
pub proof fn law_action_view(action: PasteAction)
    ensures
        match action {
            PasteAction::Raise(window) => action@ == PasteActionView::Raise(window),
            PasteAction::Settle { millis } => action@ == (PasteActionView::Settle { millis }),
            PasteAction::OpenKeyboard => action@ is OpenKeyboard,
            PasteAction::InspectTarget => action@ is InspectTarget,
            PasteAction::Type { terminal, index, stroke } => action@ == (PasteActionView::Type {
                terminal,
                index,
                stroke,
            }),
            PasteAction::Finish(Ok(_)) => action@ is Done,
            PasteAction::Finish(Err(Error::Platform(message))) => action@ == PasteActionView::Fail(
                message@,
            ),
        },
{
}

} // verus!
