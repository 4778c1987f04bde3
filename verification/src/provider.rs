//! Serving clipboard content to other applications.
use vstd::prelude::*;
use vstd::utf8::encode_utf8;

use crate::files::{join_lines, joined_lines, texts_view, uri_list, write_uri_list};
use crate::session::SessionType;

verus! {

/// Content that the clipboard offers.
#[derive(Debug)]
pub enum ClipboardPayload {
    Text(String),
    Html { text: String, html: String },
    Files(Vec<String>),
    /// A picture, as PNG.
    Image(Vec<u8>),
}

/// What a [`ClipboardPayload`] holds.
pub enum PayloadView {
    Text(Seq<char>),
    Html { text: Seq<char>, html: Seq<char> },
    Files(Seq<Seq<char>>),
    Image(Seq<u8>),
}

impl View for ClipboardPayload {
    type V = PayloadView;

    open spec fn view(&self) -> PayloadView {
        match *self {
            ClipboardPayload::Text(text) => PayloadView::Text(text@),
            ClipboardPayload::Html { text, html } => PayloadView::Html { text: text@, html: html@ },
            ClipboardPayload::Files(paths) => PayloadView::Files(texts_view(paths@)),
            ClipboardPayload::Image(png) => PayloadView::Image(png@),
        }
    }
}

impl Clone for ClipboardPayload {
    fn clone(&self) -> (payload: ClipboardPayload)
        ensures
            payload@ == self@,
    {
        match self {
            ClipboardPayload::Text(text) => ClipboardPayload::Text(text.clone()),
            ClipboardPayload::Html { text, html } => ClipboardPayload::Html {
                text: text.clone(),
                html: html.clone(),
            },
            ClipboardPayload::Files(paths) => {
                let copy = paths.clone();
                assert(texts_view(copy@) =~= texts_view(paths@));
                ClipboardPayload::Files(copy)
            },
            ClipboardPayload::Image(png) => {
                let copy = png.clone();
                assert(copy@ =~= png@);
                ClipboardPayload::Image(copy)
            },
        }
    }
}

/// The MIME type under which `wl-copy` offers a payload.
pub open spec fn wayland_type(payload: PayloadView) -> Seq<char> {
    match payload {
        PayloadView::Text(_) => "text/plain;charset=utf-8"@,
        PayloadView::Html { .. } => "text/html"@,
        PayloadView::Files(_) => "text/uri-list"@,
        PayloadView::Image(_) => "image/png"@,
    }
}

/// The bytes that `wl-copy` serves for a payload.
pub open spec fn wayland_bytes(payload: PayloadView) -> Seq<u8> {
    match payload {
        PayloadView::Text(text) => encode_utf8(text),
        PayloadView::Html { text, html } => encode_utf8(html),
        PayloadView::Files(paths) => encode_utf8(uri_list(paths)),
        PayloadView::Image(png) => png,
    }
}

/// A run of `wl-copy`: its arguments, and what it gets on standard input.
#[derive(Debug)]
pub struct WlCopyJob {
    pub args: Vec<String>,
    pub input: Vec<u8>,
}

/// The run of `wl-copy` that serves a payload under Wayland.
pub fn provide_wayland_clipboard(payload: ClipboardPayload) -> (job: WlCopyJob)
    ensures
        texts_view(job.args@) == seq!["--type"@, wayland_type(payload@)],
        job.input@ == wayland_bytes(payload@),
{
    let ghost served = payload@;
    let (kind, input) = match payload {
        ClipboardPayload::Text(text) => ("text/plain;charset=utf-8", text.as_str().as_bytes_vec()),
        ClipboardPayload::Html { text: _, html } => ("text/html", html.as_str().as_bytes_vec()),
        ClipboardPayload::Files(paths) => {
            let list = write_uri_list(&paths);
            ("text/uri-list", list.as_str().as_bytes_vec())
        },
        ClipboardPayload::Image(png) => ("image/png", png),
    };
    let mut args: Vec<String> = Vec::new();
    args.push("--type".to_owned());
    args.push(kind.to_owned());
    assert(texts_view(args@) =~= seq!["--type"@, wayland_type(served)]);
    WlCopyJob { args, input }
}

/// What was seen last while `wl-copy` serves.
#[derive(Debug, Clone, Copy)]
pub enum WlCopyEvent {
    /// The process runs, and has its input.
    Started,
    /// The token of this provider: 1 while it is wanted.
    Token(u32),
    /// Whether the process has exited.
    Exited(bool),
    /// A pause is over.
    Paused,
}

/// What to do next while `wl-copy` serves.
#[derive(Debug, Clone, Copy, PartialEq, Eq)]
pub enum WlCopyAction {
    /// Look at the token.
    ReadToken,
    /// See whether the process has exited.
    CheckExit,
    Pause { millis: u64 },
    /// Kill the process, and be done.
    Kill,
}

/// The action that follows an event: `wl-copy` is left alone until it exits by itself or is
/// no longer wanted.
pub open spec fn wl_copy_action(event: WlCopyEvent) -> WlCopyAction {
    match event {
        WlCopyEvent::Started => WlCopyAction::ReadToken,
        WlCopyEvent::Token(token) => if token == 1 {
            WlCopyAction::CheckExit
        } else {
            WlCopyAction::Kill
        },
        WlCopyEvent::Exited(exited) => if exited {
            WlCopyAction::Kill
        } else {
            WlCopyAction::Pause { millis: 200 }
        },
        WlCopyEvent::Paused => WlCopyAction::ReadToken,
    }
}

/// Watches over a run of `wl-copy`, one event at a time.
pub fn watch_wl_copy(event: WlCopyEvent) -> (action: WlCopyAction)
    ensures
        action == wl_copy_action(event),
{
    match event {
        WlCopyEvent::Started => WlCopyAction::ReadToken,
        WlCopyEvent::Token(token) => if token == 1 {
            WlCopyAction::CheckExit
        } else {
            WlCopyAction::Kill
        },
        WlCopyEvent::Exited(exited) => if exited {
            WlCopyAction::Kill
        } else {
            WlCopyAction::Pause { millis: 200 }
        },
        WlCopyEvent::Paused => WlCopyAction::ReadToken,
    }
}

/// The atoms that a provider deals with; 0 where the X server did not tell.
#[derive(Debug, Clone, Copy)]
pub struct ClipboardAtoms {
    /// `CLIPBOARD`.
    pub clipboard: u32,
    /// `TARGETS`.
    pub targets: u32,
    /// `UTF8_STRING`.
    pub utf8_string: u32,
    /// `STRING`.
    pub string: u32,
    /// `text/html`.
    pub html: u32,
    /// `text/uri-list`.
    pub uri_list: u32,
    /// `image/png`.
    pub png: u32,
}

/// A request for the selection.
#[derive(Debug, Clone, Copy)]
pub struct SelectionRequest {
    pub time: u32,
    pub requestor: u32,
    pub selection: u32,
    pub target: u32,
    pub property: u32,
}

/// What is stored in a property.
#[derive(Debug)]
pub enum PropertyData {
    /// A list of atoms, under the type `ATOM`.
    Atoms(Vec<u32>),
    /// Bytes, under the type `kind`.
    Bytes { kind: u32, bytes: Vec<u8> },
}

/// A property to be replaced.
#[derive(Debug)]
pub struct PropertyWrite {
    pub window: u32,
    pub property: u32,
    pub data: PropertyData,
}

/// The event that tells a requestor how its request went.
#[derive(Debug, Clone, Copy)]
pub struct SelectionNotice {
    pub time: u32,
    pub requestor: u32,
    pub selection: u32,
    pub target: u32,
    pub property: u32,
}

/// The answer to a request: the property to replace, if any, then the notice to send.
#[derive(Debug)]
pub struct SelectionReply {
    pub write: Option<PropertyWrite>,
    pub notice: SelectionNotice,
}

/// What a [`PropertyData`] holds.
pub enum DataView {
    Atoms(Seq<u32>),
    Bytes { kind: u32, bytes: Seq<u8> },
}

/// What a [`SelectionReply`] says. `write` holds the window, the property and the data.
pub struct ReplyView {
    pub write: Option<(u32, u32, DataView)>,
    pub notice: SelectionNotice,
}

impl View for PropertyData {
    type V = DataView;

    open spec fn view(&self) -> DataView {
        match *self {
            PropertyData::Atoms(atoms) => DataView::Atoms(atoms@),
            PropertyData::Bytes { kind, bytes } => DataView::Bytes { kind, bytes: bytes@ },
        }
    }
}

impl View for SelectionReply {
    type V = ReplyView;

    open spec fn view(&self) -> ReplyView {
        ReplyView {
            write: match self.write {
                Some(write) => Some((write.window, write.property, write.data@)),
                None => None,
            },
            notice: self.notice,
        }
    }
}

/// Whether a target asks for plain text.
pub open spec fn asks_for_text(atoms: ClipboardAtoms, target: u32) -> bool {
    target == atoms.utf8_string || target == atoms.string
}

/// The bytes that a payload has for a target; `None` where it has none.
pub open spec fn served_bytes(
    atoms: ClipboardAtoms,
    payload: PayloadView,
    target: u32,
) -> Option<Seq<u8>> {
    match payload {
        PayloadView::Text(text) => if asks_for_text(atoms, target) {
            Some(encode_utf8(text))
        } else {
            None
        },
        PayloadView::Html { text, html } => if target == atoms.html {
            Some(encode_utf8(html))
        } else if asks_for_text(atoms, target) {
            Some(encode_utf8(text))
        } else {
            None
        },
        PayloadView::Files(paths) => if target == atoms.uri_list {
            Some(encode_utf8(uri_list(paths)))
        } else if asks_for_text(atoms, target) {
            Some(encode_utf8(joined_lines(paths)))
        } else {
            None
        },
        PayloadView::Image(png) => if target == atoms.png {
            Some(png)
        } else {
            None
        },
    }
}

/// The targets that a provider announces.
pub open spec fn announced_targets(atoms: ClipboardAtoms) -> Seq<u32> {
    seq![
        atoms.targets,
        atoms.utf8_string,
        atoms.string,
        atoms.html,
        atoms.uri_list,
        atoms.png,
    ]
}

/// The data that answers a request; `None` where the request is refused.
pub open spec fn served_data(
    atoms: ClipboardAtoms,
    payload: PayloadView,
    target: u32,
) -> Option<DataView> {
    if target == atoms.targets {
        Some(DataView::Atoms(announced_targets(atoms)))
    } else {
        match served_bytes(atoms, payload, target) {
            Some(bytes) => Some(DataView::Bytes { kind: target, bytes }),
            None => None,
        }
    }
}

/// The answer to a request: the data goes into the property that the requestor named, and
/// the notice names it too; a refused request gets a notice without a property.
pub open spec fn selection_reply(
    atoms: ClipboardAtoms,
    payload: PayloadView,
    request: SelectionRequest,
) -> ReplyView {
    let data = served_data(atoms, payload, request.target);
    ReplyView {
        write: match data {
            Some(d) => Some((request.requestor, request.property, d)),
            None => None,
        },
        notice: SelectionNotice {
            time: request.time,
            requestor: request.requestor,
            selection: request.selection,
            target: request.target,
            property: if data is Some {
                request.property
            } else {
                0
            },
        },
    }
}

fn serve_bytes(atoms: &ClipboardAtoms, payload: &ClipboardPayload, target: u32) -> (bytes: Option<
    Vec<u8>,
>)
    ensures
        match bytes {
            Some(b) => served_bytes(*atoms, payload@, target) == Some(b@),
            None => served_bytes(*atoms, payload@, target) is None,
        },
{
    let text_wanted = target == atoms.utf8_string || target == atoms.string;
    match payload {
        ClipboardPayload::Text(text) => if text_wanted {
            Some(text.as_str().as_bytes_vec())
        } else {
            None
        },
        ClipboardPayload::Html { text, html } => if target == atoms.html {
            Some(html.as_str().as_bytes_vec())
        } else if text_wanted {
            Some(text.as_str().as_bytes_vec())
        } else {
            None
        },
        ClipboardPayload::Files(paths) => if target == atoms.uri_list {
            let list = write_uri_list(paths);
            Some(list.as_str().as_bytes_vec())
        } else if text_wanted {
            let list = join_lines(paths);
            Some(list.as_str().as_bytes_vec())
        } else {
            None
        },
        ClipboardPayload::Image(png) => if target == atoms.png {
            let copy = png.clone();
            assert(copy@ =~= png@);
            Some(copy)
        } else {
            None
        },
    }
}

/// Answers one request for the selection.
pub fn answer_request(
    atoms: &ClipboardAtoms,
    payload: &ClipboardPayload,
    request: SelectionRequest,
) -> (reply: SelectionReply)
    ensures
        reply@ == selection_reply(*atoms, payload@, request),
{
    let data = if request.target == atoms.targets {
        let mut targets: Vec<u32> = Vec::new();
        targets.push(atoms.targets);
        targets.push(atoms.utf8_string);
        targets.push(atoms.string);
        targets.push(atoms.html);
        targets.push(atoms.uri_list);
        targets.push(atoms.png);
        assert(targets@ =~= announced_targets(*atoms));
        Some(PropertyData::Atoms(targets))
    } else {
        match serve_bytes(atoms, payload, request.target) {
            Some(bytes) => Some(PropertyData::Bytes { kind: request.target, bytes }),
            None => None,
        }
    };
    let property: u32 = if data.is_some() {
        request.property
    } else {
        0
    };
    let write = match data {
        Some(data) => Some(
            PropertyWrite { window: request.requestor, property: request.property, data },
        ),
        None => None,
    };
    SelectionReply {
        write,
        notice: SelectionNotice {
            time: request.time,
            requestor: request.requestor,
            selection: request.selection,
            target: request.target,
            property,
        },
    }
}

/// What was seen last while an X11 provider serves.
#[derive(Debug, Clone, Copy)]
pub enum ProviderEvent {
    /// The window that is to own the selection exists, and the atoms are known.
    Ready,
    /// The selection was claimed.
    Claimed,
    /// The token of this provider: 1 while it is wanted.
    Token(u32),
    /// No event was waiting, or one of another kind, or polling failed.
    Nothing,
    /// This window lost a selection.
    Cleared { selection: u32 },
    /// Someone asks for the selection.
    Requested(SelectionRequest),
    /// The reply to a request was sent.
    Replied,
    /// A pause is over.
    Paused,
}

/// What to do next while an X11 provider serves.
#[derive(Debug)]
pub enum ProviderAction {
    /// Give up: there is no clipboard to serve.
    Abandon,
    /// Claim the selection `CLIPBOARD`.
    Claim,
    /// Look at the token.
    ReadToken,
    /// Poll for an event.
    Poll,
    /// Send this reply.
    Reply(SelectionReply),
    Pause { millis: u64 },
    /// Destroy the window, and be done.
    Stop,
}

/// What a [`ProviderAction`] says.
pub enum ProviderActionView {
    Abandon,
    Claim,
    ReadToken,
    Poll,
    Reply(ReplyView),
    Pause { millis: u64 },
    Stop,
}

impl View for ProviderAction {
    type V = ProviderActionView;

    open spec fn view(&self) -> ProviderActionView {
        match *self {
            ProviderAction::Abandon => ProviderActionView::Abandon,
            ProviderAction::Claim => ProviderActionView::Claim,
            ProviderAction::ReadToken => ProviderActionView::ReadToken,
            ProviderAction::Poll => ProviderActionView::Poll,
            ProviderAction::Reply(reply) => ProviderActionView::Reply(reply@),
            ProviderAction::Pause { millis } => ProviderActionView::Pause { millis },
            ProviderAction::Stop => ProviderActionView::Stop,
        }
    }
}

/// The action that follows an event.
pub open spec fn provider_action(
    atoms: ClipboardAtoms,
    payload: PayloadView,
    event: ProviderEvent,
) -> ProviderActionView {
    match event {
        ProviderEvent::Ready => if atoms.clipboard == 0 {
            ProviderActionView::Abandon
        } else {
            ProviderActionView::Claim
        },
        ProviderEvent::Claimed => ProviderActionView::ReadToken,
        ProviderEvent::Token(token) => if token == 1 {
            ProviderActionView::Poll
        } else {
            ProviderActionView::Stop
        },
        ProviderEvent::Nothing => ProviderActionView::Pause { millis: 20 },
        ProviderEvent::Cleared { selection } => if selection == atoms.clipboard {
            ProviderActionView::Stop
        } else {
            ProviderActionView::Pause { millis: 20 }
        },
        ProviderEvent::Requested(request) => ProviderActionView::Reply(
            selection_reply(atoms, payload, request),
        ),
        ProviderEvent::Replied => ProviderActionView::Pause { millis: 20 },
        ProviderEvent::Paused => ProviderActionView::ReadToken,
    }
}

/// Serves a payload to X11 applications, one event at a time.
pub fn provide_x11_clipboard(
    atoms: &ClipboardAtoms,
    payload: &ClipboardPayload,
    event: ProviderEvent,
) -> (action: ProviderAction)
    ensures
        action@ == provider_action(*atoms, payload@, event),
{
    match event {
        ProviderEvent::Ready => if atoms.clipboard == 0 {
            ProviderAction::Abandon
        } else {
            ProviderAction::Claim
        },
        ProviderEvent::Claimed => ProviderAction::ReadToken,
        ProviderEvent::Token(token) => if token == 1 {
            ProviderAction::Poll
        } else {
            ProviderAction::Stop
        },
        ProviderEvent::Nothing => ProviderAction::Pause { millis: 20 },
        ProviderEvent::Cleared { selection } => if selection == atoms.clipboard {
            ProviderAction::Stop
        } else {
            ProviderAction::Pause { millis: 20 }
        },
        ProviderEvent::Requested(request) => ProviderAction::Reply(
            answer_request(atoms, payload, request),
        ),
        ProviderEvent::Replied => ProviderAction::Pause { millis: 20 },
        ProviderEvent::Paused => ProviderAction::ReadToken,
    }
}

/// How a payload is kept on the clipboard.
#[derive(Debug)]
pub enum ClipboardProvider {
    /// By a run of `wl-copy`.
    WlCopy(WlCopyJob),
    /// By owning the X11 selection and serving this payload.
    Selection(ClipboardPayload),
}

/// How to keep a payload on the clipboard when the application that copied it exits.
pub fn persist_clipboard_data(session: SessionType, payload: ClipboardPayload) -> (provider:
    ClipboardProvider)
    ensures
        match provider {
            ClipboardProvider::WlCopy(job) => {
                &&& session == SessionType::Wayland
                &&& texts_view(job.args@) == seq!["--type"@, wayland_type(payload@)]
                &&& job.input@ == wayland_bytes(payload@)
            },
            ClipboardProvider::Selection(served) => session == SessionType::X11 && served@
                == payload@,
        },
{
    match session {
        SessionType::Wayland => ClipboardProvider::WlCopy(provide_wayland_clipboard(payload)),
        SessionType::X11 => ClipboardProvider::Selection(payload),
    }
}

} // verus!
