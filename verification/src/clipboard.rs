//! Reading HTML and file lists from the clipboard.
use vstd::prelude::*;
use vstd::utf8::{encode_scalar, encode_utf8};

use crate::files::{
    law_comments_are_passed_over, law_list_is_read_line_by_line, law_uri_document_is_read_back,
    listed_paths, parse_uri_list, texts_view, uri_document,
};
use crate::session::SessionType;
use crate::text::{
    blank, law_trimmed, law_utf8_text, string_from_utf8, text_view, tight, trim_text, trimmed,
    utf8_text,
};
use crate::window::CommandOutput;

verus! {

/// A flavour of clipboard content that is read by name.
#[derive(Debug, Clone, Copy, PartialEq, Eq, Structural)]
pub enum Flavour {
    Html,
    Files,
}

/// The MIME type of a flavour.
pub open spec fn flavour_type(flavour: Flavour) -> Seq<char> {
    match flavour {
        Flavour::Html => "text/html"@,
        Flavour::Files => "text/uri-list"@,
    }
}

/// How to ask for clipboard content.
#[derive(Debug)]
pub enum ClipboardQuery {
    /// Run `wl-paste` with these arguments.
    WlPaste(Vec<String>),
    /// Convert the X11 selection to this target.
    Selection(String),
}

/// What a [`ClipboardQuery`] says.
pub enum ClipboardQueryView {
    WlPaste(Seq<Seq<char>>),
    Selection(Seq<char>),
}

impl View for ClipboardQuery {
    type V = ClipboardQueryView;

    open spec fn view(&self) -> ClipboardQueryView {
        match *self {
            ClipboardQuery::WlPaste(args) => ClipboardQueryView::WlPaste(texts_view(args@)),
            ClipboardQuery::Selection(target) => ClipboardQueryView::Selection(target@),
        }
    }
}

/// How to ask for a flavour: through `wl-paste`, without a line feed of its own, under
/// Wayland, and through the selection itself under X11.
pub fn clipboard_query(session: SessionType, flavour: Flavour) -> (query: ClipboardQuery)
    ensures
        query@ == match session {
            SessionType::Wayland => ClipboardQueryView::WlPaste(
                seq!["-t"@, flavour_type(flavour), "-n"@],
            ),
            SessionType::X11 => ClipboardQueryView::Selection(flavour_type(flavour)),
        },
{
    let kind = match flavour {
        Flavour::Html => "text/html",
        Flavour::Files => "text/uri-list",
    };
    match session {
        SessionType::Wayland => {
            let mut args: Vec<String> = Vec::new();
            args.push("-t".to_owned());
            args.push(kind.to_owned());
            args.push("-n".to_owned());
            assert(texts_view(args@) =~= seq!["-t"@, flavour_type(flavour), "-n"@]);
            ClipboardQuery::WlPaste(args)
        },
        SessionType::X11 => ClipboardQuery::Selection(kind.to_owned()),
    }
}

/// What came back of a [`ClipboardQuery`].
#[derive(Debug)]
pub enum ClipboardReply {
    /// The output of `wl-paste`; `None` where it could not be run.
    WlPaste(Option<CommandOutput>),
    /// The text of the X11 selection, if it has one.
    Selection(Option<String>),
}

/// The text that `wl-paste` printed; `None` where it failed, printed nothing, or printed
/// something that is not text.
pub open spec fn pasted_text(output: Option<CommandOutput>) -> Option<Seq<char>> {
    match output {
        Some(out) => if out.success && out.stdout@.len() > 0 {
            utf8_text(out.stdout@)
        } else {
            None
        },
        None => None,
    }
}

fn read_pasted(output: Option<CommandOutput>) -> (text: Option<String>)
    ensures
        text_view(text) == pasted_text(output),
{
    match output {
        Some(out) => if out.success && out.stdout.len() > 0 {
            string_from_utf8(out.stdout)
        } else {
            None
        },
        None => None,
    }
}

/// The HTML in a reply. What `wl-paste` printed is trimmed, and must not be blank; the
/// selection's text is taken as it is.
pub open spec fn html_in_reply(reply: ClipboardReply) -> Option<Seq<char>> {
    match reply {
        ClipboardReply::WlPaste(output) => match pasted_text(output) {
            Some(text) => if trimmed(text).len() > 0 {
                Some(trimmed(text))
            } else {
                None
            },
            None => None,
        },
        ClipboardReply::Selection(text) => text_view(text),
    }
}

/// Read HTML flavour from clipboard if available.
pub fn read_html(reply: ClipboardReply) -> (html: Option<String>)
    ensures
        text_view(html) == html_in_reply(reply),
{
    match reply {
        ClipboardReply::WlPaste(output) => match read_pasted(output) {
            Some(text) => {
                let html = trim_text(text.as_str());
                if html.as_str().is_empty() {
                    None
                } else {
                    Some(html)
                }
            },
            None => None,
        },
        ClipboardReply::Selection(text) => text,
    }
}

/// The `text/uri-list` document in a reply.
pub open spec fn uri_list_in_reply(reply: ClipboardReply) -> Option<Seq<char>> {
    match reply {
        ClipboardReply::WlPaste(output) => pasted_text(output),
        ClipboardReply::Selection(text) => text_view(text),
    }
}

/// The paths in a reply; `None` where it lists none.
pub open spec fn files_in_reply(reply: ClipboardReply) -> Option<Seq<Seq<char>>> {
    match uri_list_in_reply(reply) {
        Some(raw) => if listed_paths(raw).len() > 0 {
            Some(listed_paths(raw))
        } else {
            None
        },
        None => None,
    }
}

/// Read file paths from the clipboard via `text/uri-list`.
pub fn read_files(reply: ClipboardReply) -> (files: Option<Vec<String>>)
    ensures
        match files {
            Some(paths) => files_in_reply(reply) == Some(texts_view(paths@)),
            None => files_in_reply(reply) is None,
        },
{
    let raw = match reply {
        ClipboardReply::WlPaste(output) => read_pasted(output),
        ClipboardReply::Selection(text) => text,
    };
    match raw {
        Some(raw) => {
            let files = parse_uri_list(raw.as_str());
            assert(texts_view(files@).len() == files@.len());
            if files.len() == 0 {
                None
            } else {
                Some(files)
            }
        },
        None => None,
    }
}

/// What happened last while the X11 selection is converted.
#[derive(Debug)]
pub enum SelectionAnswer {
    /// This much time has passed since the conversion was asked for.
    Elapsed { millis: u64 },
    /// No event was waiting, or one of another kind, or polling failed.
    Nothing,
    /// The owner answered; the property is 0 where it refused.
    Notified { property: u32 },
    /// The value of the property, if it could be fetched.
    Fetched(Option<Vec<u8>>),
}

/// What to do next while the X11 selection is converted.
#[derive(Debug)]
pub enum SelectionStep {
    /// Poll for an event.
    Poll,
    /// Pause, then see how much time has passed.
    Pause { millis: u64 },
    /// Fetch and delete this property of the requesting window.
    Fetch(u32),
    /// The conversion is over; the requesting window is no longer needed.
    Done(Option<String>),
    /// The connection failed: there is no text, and nothing left to do.
    Abort,
}

/// What a [`SelectionStep`] says.
pub enum SelectionStepView {
    Poll,
    Pause { millis: u64 },
    Fetch(u32),
    Done(Option<Seq<char>>),
    Abort,
}

impl View for SelectionStep {
    type V = SelectionStepView;

    open spec fn view(&self) -> SelectionStepView {
        match *self {
            SelectionStep::Poll => SelectionStepView::Poll,
            SelectionStep::Pause { millis } => SelectionStepView::Pause { millis },
            SelectionStep::Fetch(property) => SelectionStepView::Fetch(property),
            SelectionStep::Done(text) => SelectionStepView::Done(text_view(text)),
            SelectionStep::Abort => SelectionStepView::Abort,
        }
    }
}

/// The text in the value of a converted selection.
pub open spec fn selection_text(value: Seq<u8>) -> Option<Seq<char>> {
    if value.len() > 0 {
        utf8_text(value)
    } else {
        None
    }
}

/// The step that follows an answer. The owner of the selection has 300 ms.
pub open spec fn selection_step(answer: SelectionAnswer) -> SelectionStepView {
    match answer {
        SelectionAnswer::Elapsed { millis } => if millis < 300 {
            SelectionStepView::Poll
        } else {
            SelectionStepView::Done(None)
        },
        SelectionAnswer::Nothing => SelectionStepView::Pause { millis: 10 },
        SelectionAnswer::Notified { property } => if property != 0 {
            SelectionStepView::Fetch(property)
        } else {
            SelectionStepView::Done(None)
        },
        SelectionAnswer::Fetched(Some(value)) => SelectionStepView::Done(selection_text(value@)),
        SelectionAnswer::Fetched(None) => SelectionStepView::Abort,
    }
}

/// Reads the X11 selection as text, one answer at a time.
pub fn read_x11_atom_string(answer: SelectionAnswer) -> (step: SelectionStep)
    ensures
        step@ == selection_step(answer),
{
    match answer {
        SelectionAnswer::Elapsed { millis } => if millis < 300 {
            SelectionStep::Poll
        } else {
            SelectionStep::Done(None)
        },
        SelectionAnswer::Nothing => SelectionStep::Pause { millis: 10 },
        SelectionAnswer::Notified { property } => if property != 0 {
            SelectionStep::Fetch(property)
        } else {
            SelectionStep::Done(None)
        },
        SelectionAnswer::Fetched(fetched) => match fetched {
            Some(value) => if value.len() > 0 {
                SelectionStep::Done(string_from_utf8(value))
            } else {
                SelectionStep::Done(None)
            },
            None => SelectionStep::Abort,
        },
    }
}

/// `wl-paste` gives a text exactly where it succeeded and printed the encoding of it, and it
/// is not empty.
pub proof fn law_pasted_text(output: Option<CommandOutput>, text: Seq<char>)
    ensures
        pasted_text(output) == Some(text) <==> (output matches Some(out) && out.success && text.len()
            > 0 && out.stdout@ == encode_utf8(text)),
{
    if let Some(out) = output {
        law_utf8_text(out.stdout@, text);
        if text.len() > 0 {
            assert(encode_scalar(text[0] as u32).len() >= 1);
        }
        if out.stdout@.len() > 0 && text.len() == 0 {
            assert(encode_utf8(text) =~= Seq::empty());
        }
    }
}

/// HTML that `wl-paste` prints is taken without the white space around it, unless nothing is
/// left. HTML of the selection is taken as it is.
pub proof fn law_html_is_read(
    before: Seq<char>,
    html: Seq<char>,
    after: Seq<char>,
    output: CommandOutput,
    text: String,
)
    requires
        blank(before),
        tight(html),
        blank(after),
    ensures
        output.success && output.stdout@ == encode_utf8(before + html + after) ==> html_in_reply(
            ClipboardReply::WlPaste(Some(output)),
        ) == if html.len() > 0 {
            Some(html)
        } else {
            None
        },
        !output.success ==> html_in_reply(ClipboardReply::WlPaste(Some(output))) is None,
        utf8_text(output.stdout@) is None ==> html_in_reply(ClipboardReply::WlPaste(Some(output)))
            is None,
        html_in_reply(ClipboardReply::WlPaste(None)) is None,
        html_in_reply(ClipboardReply::Selection(Some(text))) == Some(text@),
        html_in_reply(ClipboardReply::Selection(None)) is None,
{
    let printed = before + html + after;
    law_trimmed(before, html, after);
    law_pasted_text(Some(output), printed);
    if output.success && output.stdout@ == encode_utf8(printed) && printed.len() == 0 {
        assert(encode_utf8(printed) =~= Seq::empty());
    }
}

/// File lists are read alike from both sources: the paths that the document lists, and
/// nothing where it lists none. Where there is no document, there are no files.
pub proof fn law_files_are_read(document: String, output: CommandOutput)
    ensures
        files_in_reply(ClipboardReply::Selection(Some(document))) == if listed_paths(
            document@,
        ).len() > 0 {
            Some(listed_paths(document@))
        } else {
            None
        },
        output.success && output.stdout@ == encode_utf8(document@) ==> files_in_reply(
            ClipboardReply::WlPaste(Some(output)),
        ) == files_in_reply(ClipboardReply::Selection(Some(document))),
        !output.success ==> files_in_reply(ClipboardReply::WlPaste(Some(output))) is None,
        utf8_text(output.stdout@) is None ==> files_in_reply(ClipboardReply::WlPaste(Some(output)))
            is None,
        files_in_reply(ClipboardReply::WlPaste(None)) is None,
        files_in_reply(ClipboardReply::Selection(None)) is None,
{
    law_pasted_text(Some(output), document@);
    if document@.len() == 0 {
        assert(encode_utf8(document@) =~= Seq::empty());
        law_list_is_read_line_by_line(document@, document@);
        law_comments_are_passed_over(document@, document@);
    }
}

/// Files that an application lists as URIs are read as the paths that they are, whatever
/// characters the paths hold.
pub proof fn law_uris_are_read_as_paths(paths: Seq<Seq<char>>, capitals: bool, document: String)
    requires
        paths.len() > 0,
        document@ == uri_document(paths, capitals),
    ensures
        files_in_reply(ClipboardReply::Selection(Some(document))) == Some(paths),
{
    law_uri_document_is_read_back(paths, capitals);
}

/// Under each session every flavour is asked for by its own type.
pub proof fn law_flavours_have_their_types(flavour: Flavour)
    ensures
        flavour == Flavour::Html ==> flavour_type(flavour) == "text/html"@,
        flavour == Flavour::Files ==> flavour_type(flavour) == "text/uri-list"@,
{
}

/// The owner of the selection is waited for below 300 ms and not longer, in pauses of 10 ms.
/// Its refusal ends the wait, its answer is fetched from where it says, and a value gives a
/// text exactly where it is the encoding of it and not empty.
pub proof fn law_selection_is_read(
    millis: u64,
    property: u32,
    value: Vec<u8>,
    text: Seq<char>,
    answer: SelectionAnswer,
)
    ensures
        selection_step(SelectionAnswer::Elapsed { millis }) is Poll <==> millis < 300,
        selection_step(SelectionAnswer::Elapsed { millis }) == SelectionStepView::Done(None) <==> 300
            <= millis,
        selection_step(SelectionAnswer::Nothing) == (SelectionStepView::Pause { millis: 10 }),
        selection_step(SelectionAnswer::Notified { property }) == if property == 0 {
            SelectionStepView::Done(None)
        } else {
            SelectionStepView::Fetch(property)
        },
        selection_step(SelectionAnswer::Fetched(Some(value))) is Done,
        selection_step(SelectionAnswer::Fetched(Some(value))) == SelectionStepView::Done(Some(text))
            <==> text.len() > 0 && value@ == encode_utf8(text),
        selection_step(answer) is Abort <==> (answer matches SelectionAnswer::Fetched(fetched)
            && fetched is None),
{
    law_utf8_text(value@, text);
    if text.len() > 0 {
        assert(encode_scalar(text[0] as u32).len() >= 1);
    } else {
        assert(encode_utf8(text) =~= Seq::empty());
    }
}

/// A query is seen as it is: by whom it asks, and with which words.
pub proof fn law_query_view(query: ClipboardQuery)
    ensures
        match query {
            ClipboardQuery::WlPaste(args) => query@ matches ClipboardQueryView::WlPaste(texts)
                && texts.len() == args@.len() && forall|i: int|
                0 <= i < texts.len() ==> #[trigger] texts[i] == args@[i]@,
            ClipboardQuery::Selection(target) => query@ == ClipboardQueryView::Selection(target@),
        },
{
}

/// A step is seen as it is, with all that it carries.
pub proof fn law_step_view(step: SelectionStep)
    ensures
        match step {
            SelectionStep::Poll => step@ is Poll,
            SelectionStep::Pause { millis } => step@ == (SelectionStepView::Pause { millis }),
            SelectionStep::Fetch(property) => step@ == SelectionStepView::Fetch(property),
            SelectionStep::Done(Some(text)) => step@ == SelectionStepView::Done(Some(text@)),
            SelectionStep::Done(None) => step@ == SelectionStepView::Done(None),
            SelectionStep::Abort => step@ is Abort,
        },
{
}

} // verus!
