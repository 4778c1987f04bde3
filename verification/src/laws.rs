//! What holds between serving the clipboard and reading it.
use vstd::prelude::*;
use vstd::utf8::*;

use crate::clipboard::{
    files_in_reply, html_in_reply, selection_step, ClipboardReply, SelectionAnswer,
    SelectionStepView,
};
use crate::files::{
    joined_lines, law_joined_lines, law_joined_lines_split, law_offered_list,
    law_uri_list_round_trip, split_at_line_feeds, survives_uri_list, uri_list,
};
use crate::provider::{
    announced_targets, provider_action, selection_reply, served_bytes, served_data, wayland_bytes,
    wayland_type, wl_copy_action, ClipboardAtoms, ClipboardPayload, DataView, PayloadView,
    PropertyData, ProviderAction, ProviderActionView, ProviderEvent, SelectionReply,
    SelectionRequest, WlCopyAction, WlCopyEvent,
};
use crate::text::{text_view, trimmed, utf8_text};
use crate::window::CommandOutput;

verus! {

proof fn lemma_utf8_round_trip(text: Seq<char>)
    ensures
        utf8_text(encode_utf8(text)) == Some(text),
        encode_utf8(text).len() > 0 <==> text.len() > 0,
{
    encode_utf8_valid_utf8(text);
    encode_utf8_decode_utf8(text);
    if text.len() > 0 {
        assert(encode_scalar(text[0] as u32).len() >= 1);
    }
}

/// Every request is answered with a notice that repeats what was asked for. A request that
/// is served finds its data in the property that it named, and the notice names it; a
/// request that is refused changes nothing and is told so by a notice without a property.
pub proof fn law_every_request_is_answered(
    atoms: ClipboardAtoms,
    payload: PayloadView,
    request: SelectionRequest,
)
    ensures
        provider_action(atoms, payload, ProviderEvent::Requested(request))
            == ProviderActionView::Reply(selection_reply(atoms, payload, request)),
        ({
            let reply = selection_reply(atoms, payload, request);
            let data = served_data(atoms, payload, request.target);
            &&& reply.notice.time == request.time
            &&& reply.notice.requestor == request.requestor
            &&& reply.notice.selection == request.selection
            &&& reply.notice.target == request.target
            &&& data is Some ==> reply.write == Some((request.requestor, request.property, data->0))
                && reply.notice.property == request.property
            &&& data is None ==> reply.write is None && reply.notice.property == 0
        }),
{
}

/// A request for `TARGETS` is always served, and everything a payload has is announced.
pub proof fn law_served_targets_are_announced(
    atoms: ClipboardAtoms,
    payload: PayloadView,
    target: u32,
)
    ensures
        served_data(atoms, payload, atoms.targets) == Some(
            DataView::Atoms(announced_targets(atoms)),
        ),
        served_data(atoms, payload, target) is Some ==> announced_targets(atoms).contains(target),
{
    let targets = announced_targets(atoms);
    assert(targets[0] == atoms.targets);
    assert(targets[1] == atoms.utf8_string);
    assert(targets[2] == atoms.string);
    assert(targets[3] == atoms.html);
    assert(targets[4] == atoms.uri_list);
    assert(targets[5] == atoms.png);
}

/// Everything but a picture can be had as plain text.
pub proof fn law_plain_text_is_served(atoms: ClipboardAtoms, payload: PayloadView)
    ensures
        !(payload is Image) ==> served_bytes(atoms, payload, atoms.utf8_string) is Some
            && served_bytes(atoms, payload, atoms.string) is Some,
{
}

/// The target under which a payload is offered in full.
pub open spec fn main_target(atoms: ClipboardAtoms, payload: PayloadView) -> u32 {
    match payload {
        PayloadView::Text(_) => atoms.utf8_string,
        PayloadView::Html { .. } => atoms.html,
        PayloadView::Files(_) => atoms.uri_list,
        PayloadView::Image(_) => atoms.png,
    }
}

/// Both kinds of session offer the same bytes for a payload.
pub proof fn law_sessions_offer_the_same(atoms: ClipboardAtoms, payload: PayloadView)
    ensures
        served_bytes(atoms, payload, main_target(atoms, payload)) == Some(wayland_bytes(payload)),
{
}

/// An X11 provider that has claimed the clipboard gives it up only when it is no longer
/// wanted or when another application has taken it over; it never starts without a
/// clipboard to claim.
pub proof fn law_selection_is_served_until_superseded(
    atoms: ClipboardAtoms,
    payload: PayloadView,
    event: ProviderEvent,
)
    ensures
        provider_action(atoms, payload, event) is Stop <==> match event {
            ProviderEvent::Token(token) => token != 1,
            ProviderEvent::Cleared { selection } => selection == atoms.clipboard,
            _ => false,
        },
        provider_action(atoms, payload, event) is Abandon <==> event is Ready && atoms.clipboard
            == 0,
{
}

/// `wl-copy` is killed only when it is no longer wanted or has exited already.
pub proof fn law_wl_copy_is_kept_until_superseded(event: WlCopyEvent)
    ensures
        wl_copy_action(event) == WlCopyAction::Kill <==> match event {
            WlCopyEvent::Token(token) => token != 1,
            WlCopyEvent::Exited(exited) => exited,
            _ => false,
        },
{
}

/// File paths that were copied under Wayland are read back as they were if, and only if,
/// each of them survives the list format.
pub proof fn law_files_round_trip_under_wayland(paths: Seq<Seq<char>>, output: CommandOutput)
    requires
        paths.len() > 0,
        output.success,
        output.stdout@ == wayland_bytes(PayloadView::Files(paths)),
    ensures
        files_in_reply(ClipboardReply::WlPaste(Some(output))) == Some(paths) <==> (forall|i: int|
            0 <= i < paths.len() ==> survives_uri_list(#[trigger] paths[i])),
{
    lemma_utf8_round_trip(uri_list(paths));
    law_uri_list_round_trip(paths);
    reveal_strlit("file://");
    assert(uri_list(paths).len() >= 7);
}

/// File paths that an X11 provider serves are read back as they were if, and only if, each
/// of them survives the list format. `value` is what the provider stored, and `read` what
/// the reader made of it.
pub proof fn law_files_round_trip_under_x11(
    atoms: ClipboardAtoms,
    paths: Seq<Seq<char>>,
    value: Vec<u8>,
    read: Option<String>,
)
    requires
        paths.len() > 0,
        atoms.uri_list != atoms.targets,
        served_data(atoms, PayloadView::Files(paths), atoms.uri_list) == Some(
            DataView::Bytes { kind: atoms.uri_list, bytes: value@ },
        ),
        selection_step(SelectionAnswer::Fetched(Some(value))) == SelectionStepView::Done(
            text_view(read),
        ),
    ensures
        files_in_reply(ClipboardReply::Selection(read)) == Some(paths) <==> (forall|i: int|
            0 <= i < paths.len() ==> survives_uri_list(#[trigger] paths[i])),
{
    lemma_utf8_round_trip(uri_list(paths));
    law_uri_list_round_trip(paths);
    reveal_strlit("file://");
    assert(uri_list(paths).len() >= 7);
}

/// HTML that was copied under Wayland is read back trimmed, and blank HTML not at all.
pub proof fn law_html_round_trip_under_wayland(
    text: Seq<char>,
    html: Seq<char>,
    output: CommandOutput,
)
    requires
        output.success,
        output.stdout@ == wayland_bytes(PayloadView::Html { text, html }),
    ensures
        html_in_reply(ClipboardReply::WlPaste(Some(output))) == if trimmed(html).len() > 0 {
            Some(trimmed(html))
        } else {
            None
        },
{
    lemma_utf8_round_trip(html);
}

/// HTML that an X11 provider serves is read back as it was, and empty HTML not at all.
/// `value` is what the provider stored, and `read` what the reader made of it.
pub proof fn law_html_round_trip_under_x11(
    atoms: ClipboardAtoms,
    text: Seq<char>,
    html: Seq<char>,
    value: Vec<u8>,
    read: Option<String>,
)
    requires
        atoms.html != atoms.targets,
        served_data(atoms, PayloadView::Html { text, html }, atoms.html) == Some(
            DataView::Bytes { kind: atoms.html, bytes: value@ },
        ),
        selection_step(SelectionAnswer::Fetched(Some(value))) == SelectionStepView::Done(
            text_view(read),
        ),
    ensures
        html_in_reply(ClipboardReply::Selection(read)) == if html.len() > 0 {
            Some(html)
        } else {
            None
        },
{
    lemma_utf8_round_trip(html);
}

/// What a request finds in the property that it named, where it is served bytes.
pub open spec fn bytes_for(
    atoms: ClipboardAtoms,
    payload: PayloadView,
    request: SelectionRequest,
) -> Option<Seq<u8>> {
    match selection_reply(atoms, payload, request).write {
        Some((window, property, DataView::Bytes { kind, bytes })) => if window
            == request.requestor && property == request.property && kind == request.target {
            Some(bytes)
        } else {
            None
        },
        _ => None,
    }
}

/// Whether a request is refused: nothing is written, and the notice names no property.
pub open spec fn refused(
    atoms: ClipboardAtoms,
    payload: PayloadView,
    request: SelectionRequest,
) -> bool {
    let reply = selection_reply(atoms, payload, request);
    reply.write is None && reply.notice.property == 0
}

/// Text is served as its UTF-8 to both targets for plain text, and to no other.
pub proof fn law_text_is_served(
    atoms: ClipboardAtoms,
    text: Seq<char>,
    request: SelectionRequest,
)
    requires
        request.target != atoms.targets,
    ensures
        request.target == atoms.utf8_string || request.target == atoms.string ==> bytes_for(
            atoms,
            PayloadView::Text(text),
            request,
        ) == Some(encode_utf8(text)),
        request.target != atoms.utf8_string && request.target != atoms.string ==> refused(
            atoms,
            PayloadView::Text(text),
            request,
        ),
{
}

/// HTML is served as markup to the target for HTML, and as the text that goes with it to the
/// targets for plain text.
pub proof fn law_html_is_served(
    atoms: ClipboardAtoms,
    text: Seq<char>,
    html: Seq<char>,
    request: SelectionRequest,
)
    requires
        request.target != atoms.targets,
    ensures
        ({
            let payload = PayloadView::Html { text, html };
            let plain = request.target == atoms.utf8_string || request.target == atoms.string;
            &&& request.target == atoms.html ==> bytes_for(atoms, payload, request) == Some(
                encode_utf8(html),
            )
            &&& request.target != atoms.html && plain ==> bytes_for(atoms, payload, request)
                == Some(encode_utf8(text))
            &&& request.target != atoms.html && !plain ==> refused(atoms, payload, request)
        }),
{
}

/// A picture is served to the target for PNG as it is, and to no other.
pub proof fn law_picture_is_served(
    atoms: ClipboardAtoms,
    png: Seq<u8>,
    request: SelectionRequest,
)
    requires
        request.target != atoms.targets,
    ensures
        request.target == atoms.png ==> bytes_for(atoms, PayloadView::Image(png), request) == Some(
            png,
        ),
        request.target != atoms.png ==> refused(atoms, PayloadView::Image(png), request),
{
}

/// Files are served to both targets for plain text as the same text, from which splitting at
/// line feeds gives back the paths, as long as there are some and none holds a line feed. A
/// single path is served as it is, and one line feed stands between two lists.
pub proof fn law_files_are_served_as_text(
    atoms: ClipboardAtoms,
    paths: Seq<Seq<char>>,
    more: Seq<Seq<char>>,
    path: Seq<char>,
    request: SelectionRequest,
)
    requires
        request.target == atoms.utf8_string || request.target == atoms.string,
        request.target != atoms.targets,
        request.target != atoms.uri_list,
    ensures
        ({
            let text = |list: Seq<Seq<char>>| utf8_text(
                bytes_for(atoms, PayloadView::Files(list), request)->0,
            );
            &&& bytes_for(atoms, PayloadView::Files(paths), request) is Some
            &&& text(paths) is Some
            &&& paths.len() > 0 && (forall|i: int|
                0 <= i < paths.len() ==> !(#[trigger] paths[i]).contains('\n'))
                ==> split_at_line_feeds(text(paths)->0) == paths
            &&& text(seq![path]) == Some(path)
            &&& text(Seq::empty()) == Some(Seq::<char>::empty())
            &&& paths.len() > 0 && more.len() > 0 ==> text(paths + more) == Some(
                text(paths)->0 + seq!['\n'] + text(more)->0,
            )
        }),
        forall|other: SelectionRequest|
            (other.target == atoms.utf8_string || other.target == atoms.string) && other.target
                != atoms.targets && other.target != atoms.uri_list ==> #[trigger] bytes_for(
                atoms,
                PayloadView::Files(paths),
                other,
            ) == bytes_for(atoms, PayloadView::Files(paths), request),
{
    lemma_utf8_round_trip(joined_lines(paths));
    lemma_utf8_round_trip(joined_lines(more));
    lemma_utf8_round_trip(joined_lines(paths + more));
    lemma_utf8_round_trip(joined_lines(seq![path]));
    lemma_utf8_round_trip(joined_lines(Seq::empty()));
    law_joined_lines(paths, path, more);
    if paths.len() > 0 && (forall|i: int|
        0 <= i < paths.len() ==> !(#[trigger] paths[i]).contains('\n')) {
        law_joined_lines_split(paths);
    }
}

/// Files are served to the target for URI lists one `file://` line a path, in order, and to
/// targets for neither plain text nor URI lists not at all.
pub proof fn law_files_are_served_as_uris(
    atoms: ClipboardAtoms,
    paths: Seq<Seq<char>>,
    more: Seq<Seq<char>>,
    path: Seq<char>,
    request: SelectionRequest,
)
    requires
        request.target != atoms.targets,
    ensures
        ({
            let text = |list: Seq<Seq<char>>| utf8_text(
                bytes_for(atoms, PayloadView::Files(list), request)->0,
            );
            &&& request.target == atoms.uri_list ==> {
                &&& bytes_for(atoms, PayloadView::Files(paths), request) is Some
                &&& text(paths) is Some
                &&& text(seq![path]) == Some(
                    seq!['f', 'i', 'l', 'e', ':', '/', '/'] + path + seq!['\r', '\n'],
                )
                &&& text(Seq::empty()) == Some(Seq::<char>::empty())
                &&& text(paths + more) == Some(text(paths)->0 + text(more)->0)
            }
            &&& request.target != atoms.uri_list && request.target != atoms.utf8_string
                && request.target != atoms.string ==> refused(
                atoms,
                PayloadView::Files(paths),
                request,
            )
        }),
{
    lemma_utf8_round_trip(uri_list(paths));
    lemma_utf8_round_trip(uri_list(more));
    lemma_utf8_round_trip(uri_list(paths + more));
    lemma_utf8_round_trip(uri_list(seq![path]));
    lemma_utf8_round_trip(uri_list(Seq::empty()));
    law_offered_list(paths, path, more);
}

/// Whatever the payload, a request for `TARGETS` is answered with the six atoms that a
/// provider knows, each once.
pub proof fn law_targets_are_the_known_atoms(
    atoms: ClipboardAtoms,
    payload: PayloadView,
    request: SelectionRequest,
)
    requires
        request.target == atoms.targets,
    ensures
        selection_reply(atoms, payload, request).write == Some(
            (
                request.requestor,
                request.property,
                DataView::Atoms(
                    seq![
                        atoms.targets,
                        atoms.utf8_string,
                        atoms.string,
                        atoms.html,
                        atoms.uri_list,
                        atoms.png,
                    ],
                ),
            ),
        ),
        selection_reply(atoms, payload, request).notice.property == request.property,
{
}

/// A provider claims the clipboard where there is one, polls while it is wanted, and looks
/// again whether it is after each pause of 20 ms; every request gets a reply, and whatever
/// else happens is followed by a pause.
pub proof fn law_provider_goes_round(
    atoms: ClipboardAtoms,
    payload: PayloadView,
    event: ProviderEvent,
)
    ensures
        provider_action(atoms, payload, event) is Claim <==> event is Ready && atoms.clipboard != 0,
        provider_action(atoms, payload, event) is Poll <==> event == ProviderEvent::Token(1),
        provider_action(atoms, payload, event) is ReadToken <==> event is Claimed || event is Paused,
        provider_action(atoms, payload, event) is Reply <==> event is Requested,
        event matches ProviderEvent::Requested(request) ==> provider_action(atoms, payload, event)
            == ProviderActionView::Reply(selection_reply(atoms, payload, request)),
        provider_action(atoms, payload, event) is Abandon <==> event is Ready && atoms.clipboard
            == 0,
        provider_action(atoms, payload, event) is Stop <==> (event matches ProviderEvent::Token(
            token,
        ) && token != 1) || (event matches ProviderEvent::Cleared { selection } && selection
            == atoms.clipboard),
        provider_action(atoms, payload, event) is Pause <==> event is Nothing || event is Replied
            || (event matches ProviderEvent::Cleared { selection } && selection
            != atoms.clipboard),
        provider_action(atoms, payload, event) matches ProviderActionView::Pause { millis }
            ==> millis == 20,
{
}

/// `wl-copy` is looked after in the same way, with pauses of 200 ms.
pub proof fn law_wl_copy_watch_goes_round(event: WlCopyEvent)
    ensures
        wl_copy_action(event) is ReadToken <==> event is Started || event is Paused,
        wl_copy_action(event) is CheckExit <==> event == WlCopyEvent::Token(1),
        wl_copy_action(event) is Pause <==> event == WlCopyEvent::Exited(false),
        wl_copy_action(event) is Kill <==> event == WlCopyEvent::Exited(true) || (
        event matches WlCopyEvent::Token(token) && token != 1),
        wl_copy_action(event) matches WlCopyAction::Pause { millis } ==> millis == 200,
{
}

/// `wl-copy` offers each kind of payload under its own type: text and markup as their UTF-8,
/// files as URIs, a picture as it is.
pub proof fn law_wayland_offers(
    text: Seq<char>,
    html: Seq<char>,
    png: Seq<u8>,
    paths: Seq<Seq<char>>,
    more: Seq<Seq<char>>,
    path: Seq<char>,
)
    ensures
        wayland_type(PayloadView::Text(text)) == "text/plain;charset=utf-8"@,
        wayland_bytes(PayloadView::Text(text)) == encode_utf8(text),
        wayland_type(PayloadView::Html { text, html }) == "text/html"@,
        wayland_bytes(PayloadView::Html { text, html }) == encode_utf8(html),
        wayland_type(PayloadView::Image(png)) == "image/png"@,
        wayland_bytes(PayloadView::Image(png)) == png,
        wayland_type(PayloadView::Files(paths)) == "text/uri-list"@,
        wayland_bytes(PayloadView::Files(seq![path])) == encode_utf8(
            seq!['f', 'i', 'l', 'e', ':', '/', '/'] + path + seq!['\r', '\n'],
        ),
        utf8_text(wayland_bytes(PayloadView::Files(paths))) matches Some(first) && utf8_text(
            wayland_bytes(PayloadView::Files(more)),
        ) matches Some(second) && wayland_bytes(PayloadView::Files(paths + more)) == encode_utf8(
            first + second,
        ),
{
    lemma_utf8_round_trip(uri_list(paths));
    lemma_utf8_round_trip(uri_list(more));
    law_offered_list(paths, path, more);
}

/// A payload is seen as it is, with all that it holds.
pub proof fn law_payload_view(payload: ClipboardPayload)
    ensures
        match payload {
            ClipboardPayload::Text(text) => payload@ == PayloadView::Text(text@),
            ClipboardPayload::Html { text, html } => payload@ == (PayloadView::Html {
                text: text@,
                html: html@,
            }),
            ClipboardPayload::Files(paths) => payload@ matches PayloadView::Files(texts)
                && texts.len() == paths@.len() && forall|i: int|
                0 <= i < texts.len() ==> #[trigger] texts[i] == paths@[i]@,
            ClipboardPayload::Image(png) => payload@ == PayloadView::Image(png@),
        },
{
}

/// A reply is seen as it is: where it writes, what it writes, and what it tells.
pub proof fn law_reply_view(reply: SelectionReply)
    ensures
        reply@.notice == reply.notice,
        match reply.write {
            Some(write) => reply@.write matches Some((window, property, data)) && window
                == write.window && property == write.property && match write.data {
                PropertyData::Atoms(atoms) => data == DataView::Atoms(atoms@),
                PropertyData::Bytes { kind, bytes } => data == (DataView::Bytes {
                    kind,
                    bytes: bytes@,
                }),
            },
            None => reply@.write is None,
        },
{
}

/// An action of a provider is seen as it is, with all that it carries.
pub proof fn law_provider_action_view(action: ProviderAction)
    ensures
        match action {
            ProviderAction::Abandon => action@ is Abandon,
            ProviderAction::Claim => action@ is Claim,
            ProviderAction::ReadToken => action@ is ReadToken,
            ProviderAction::Poll => action@ is Poll,
            ProviderAction::Reply(reply) => action@ == ProviderActionView::Reply(reply@),
            ProviderAction::Pause { millis } => action@ == (ProviderActionView::Pause { millis }),
            ProviderAction::Stop => action@ is Stop,
        },
{
}

} // verus!
