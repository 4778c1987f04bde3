//! Active window introspection across compositors.
use vstd::prelude::*;
use vstd::utf8::encode_utf8;

use crate::json::{parse_json, parsed_json, Json, JsonTree};
use crate::session::{detect_session_type, same_text, session_type, SessionEnv, SessionType};
use crate::text::{law_utf8_text, string_from_utf8, text_view, utf8_text};

verus! {

/// Identity of the window that was focused when a copy happened.
#[derive(Debug)]
pub struct WindowInfo {
    /// Application class / id, e.g. `firefox`, `gnome-terminal`.
    pub app: Option<String>,
    /// Window title at the moment of capture.
    pub title: Option<String>,
    /// X11 window id where available, otherwise 0.
    pub hwnd: isize,
}

/// What a [`WindowInfo`] says.
pub struct WindowView {
    pub app: Option<Seq<char>>,
    pub title: Option<Seq<char>>,
    pub hwnd: isize,
}

impl View for WindowInfo {
    type V = WindowView;

    open spec fn view(&self) -> WindowView {
        WindowView { app: text_view(self.app), title: text_view(self.title), hwnd: self.hwnd }
    }
}

/// The view of an optional window.
pub open spec fn window_view(window: Option<WindowInfo>) -> Option<WindowView> {
    match window {
        Some(w) => Some(w@),
        None => None,
    }
}

/// What is said of a window that could not be identified.
pub open spec fn unknown_window() -> WindowView {
    WindowView { app: None, title: None, hwnd: 0 }
}

impl Clone for WindowInfo {
    fn clone(&self) -> (window: WindowInfo)
        ensures
            window@ == self@,
    {
        WindowInfo { app: self.app.clone(), title: self.title.clone(), hwnd: self.hwnd }
    }
}

impl Default for WindowInfo {
    fn default() -> (window: WindowInfo)
        ensures
            window@ == unknown_window(),
    {
        WindowInfo { app: None, title: None, hwnd: 0 }
    }
}

/// What a child process that ran to its end left behind.
#[derive(Debug)]
pub struct CommandOutput {
    /// Whether it exited with success.
    pub success: bool,
    /// What it wrote to standard output.
    pub stdout: Vec<u8>,
}

/// The document that a command printed; `None` where it could not be run, failed, or
/// printed something else.
pub open spec fn printed_json(output: Option<CommandOutput>) -> Option<JsonTree> {
    match output {
        Some(out) => if out.success {
            parsed_json(out.stdout@)
        } else {
            None
        },
        None => None,
    }
}

fn read_output(output: &Option<CommandOutput>) -> (json: Option<Json>)
    ensures
        match json {
            Some(j) => printed_json(*output) == Some(j.tree()),
            None => printed_json(*output) is None,
        },
{
    match output {
        Some(out) if out.success => parse_json(out.stdout.as_slice()),
        _ => None,
    }
}

/// The window that a reply of `hyprctl activewindow -j` describes: its class and its title,
/// as far as the reply has them as text; `None` where it has neither.
pub open spec fn hyprland_reply(reply: JsonTree) -> Option<WindowView> {
    let app = reply.text_at("class"@);
    let title = reply.text_at("title"@);
    if app is None && title is None {
        None
    } else {
        Some(WindowView { app, title, hwnd: 0 })
    }
}

/// The window that a reply of `hyprctl activewindow -j` describes.
pub fn hyprland_window(reply: &Json) -> (window: Option<WindowInfo>)
    ensures
        window_view(window) == hyprland_reply(reply.tree()),
{
    let app = reply.get_text("class");
    let title = reply.get_text("title");
    if app.is_none() && title.is_none() {
        return None;
    }
    Some(WindowInfo { app, title, hwnd: 0 })
}

/// The window in the output of `hyprctl activewindow -j`.
pub open spec fn hyprland_output(output: Option<CommandOutput>) -> Option<WindowView> {
    match printed_json(output) {
        Some(reply) => hyprland_reply(reply),
        None => None,
    }
}

/// The active window that Hyprland reports through `hyprctl`.
pub fn read_hyprland_window(output: &Option<CommandOutput>) -> (window: Option<WindowInfo>)
    ensures
        window_view(window) == hyprland_output(*output),
{
    match read_output(output) {
        Some(reply) => hyprland_window(&reply),
        None => None,
    }
}

/// The window that a node of the Sway tree stands for, if it is focused and names one. A
/// native window has an `app_id`; one under Xwayland has properties instead.
pub open spec fn sway_node_window(node: JsonTree) -> Option<WindowView> {
    if node.field("focused"@) != Some(JsonTree::Bool(true)) {
        None
    } else if node.text_at("app_id"@) is Some {
        Some(WindowView { app: node.text_at("app_id"@), title: node.text_at("name"@), hwnd: 0 })
    } else {
        match node.field("window_properties"@) {
            Some(props) => {
                let app = props.text_at("class"@);
                let title = props.text_at("title"@);
                if app is Some || title is Some {
                    Some(WindowView { app, title, hwnd: 0 })
                } else {
                    None
                }
            },
            None => None,
        }
    }
}

/// The nodes of a Sway tree in the order in which they are searched: those below a node
/// before the node itself, and the tiled ones before the floating ones.
pub open spec fn sway_nodes(node: JsonTree) -> Seq<JsonTree>
    decreases node, 2nat,
{
    sway_nodes_at(node, "nodes"@) + sway_nodes_at(node, "floating_nodes"@) + seq![node]
}

/// The nodes below `node` that its field `name` leads to.
pub open spec fn sway_nodes_at(node: JsonTree, name: Seq<char>) -> Seq<JsonTree>
    decreases node, 1nat,
{
    proof {
        node.lemma_list_is_below(name);
    }
    match node.field(name) {
        Some(JsonTree::List(children)) => sway_nodes_in(children),
        _ => Seq::empty(),
    }
}

/// The nodes of several Sway trees, in the order in which they are searched.
pub open spec fn sway_nodes_in(nodes: Seq<JsonTree>) -> Seq<JsonTree>
    decreases nodes, 0nat,
{
    if nodes.len() == 0 {
        Seq::empty()
    } else {
        sway_nodes_in(nodes.drop_last()) + sway_nodes(nodes.last())
    }
}

/// The window of the first of `nodes` that has one.
pub open spec fn first_sway_window(nodes: Seq<JsonTree>) -> Option<WindowView>
    decreases nodes.len(),
{
    if nodes.len() == 0 {
        None
    } else if sway_node_window(nodes[0]) is Some {
        sway_node_window(nodes[0])
    } else {
        first_sway_window(nodes.drop_first())
    }
}

proof fn lemma_first_sway_window_concat(a: Seq<JsonTree>, b: Seq<JsonTree>)
    ensures
        first_sway_window(a + b) == if first_sway_window(a) is Some {
            first_sway_window(a)
        } else {
            first_sway_window(b)
        },
    decreases a.len(),
{
    if a.len() == 0 {
        assert(a + b =~= b);
    } else {
        lemma_first_sway_window_concat(a.drop_first(), b);
        assert((a + b).drop_first() =~= a.drop_first() + b);
    }
}

/// The window that one node of the Sway tree stands for.
fn read_sway_node(node: &Json) -> (window: Option<WindowInfo>)
    ensures
        window_view(window) == sway_node_window(node.tree()),
{
    let focused = match node.get("focused") {
        Some(Json::Bool(b)) => *b,
        _ => false,
    };
    if !focused {
        return None;
    }
    if let Some(app_id) = node.get_text("app_id") {
        return Some(WindowInfo { app: Some(app_id), title: node.get_text("name"), hwnd: 0 });
    }
    if let Some(props) = node.get("window_properties") {
        let app = props.get_text("class");
        let title = props.get_text("title");
        if app.is_some() || title.is_some() {
            return Some(WindowInfo { app, title, hwnd: 0 });
        }
    }
    None
}

/// The first window among the nodes below `node` that its field `name` leads to.
fn find_sway_focused_at(node: &Json, name: &str) -> (window: Option<WindowInfo>)
    ensures
        window_view(window) == first_sway_window(sway_nodes_at(node.tree(), name@)),
    decreases node.tree(), 1nat,
{
    proof {
        node.tree().lemma_list_is_below(name@);
    }
    match node.get(name) {
        Some(Json::List(children)) => {
            let ghost trees = node.tree().field(name@)->0->List_0;
            for i in 0..children.len()
                invariant
                    node.tree().field(name@) == Some(JsonTree::List(trees)),
                    decreases_to!(node.tree() => trees),
                    trees.len() == children@.len(),
                    forall|j: int|
                        0 <= j < trees.len() ==> #[trigger] trees[j] == children@[j].tree(),
                    first_sway_window(sway_nodes_in(trees.take(i as int))) is None,
            {
                assert(trees[i as int] == children@[i as int].tree());
                assert(decreases_to!(trees => trees[i as int]));
                let found = find_sway_focused(&children[i]);
                proof {
                    let upto = trees.take(i + 1);
                    assert(upto.drop_last() =~= trees.take(i as int));
                    assert(upto.last() == trees[i as int]);
                    lemma_first_sway_window_concat(
                        sway_nodes_in(upto.drop_last()),
                        sway_nodes(upto.last()),
                    );
                    if found is Some {
                        lemma_window_among_more(trees, i + 1);
                    }
                }
                if found.is_some() {
                    return found;
                }
            }
            assert(trees.take(trees.len() as int) =~= trees);
            None
        },
        _ => None,
    }
}

/// What is found among the first of several trees is found among all.
proof fn lemma_window_among_more(trees: Seq<JsonTree>, n: int)
    requires
        0 <= n <= trees.len(),
        first_sway_window(sway_nodes_in(trees.take(n))) is Some,
    ensures
        first_sway_window(sway_nodes_in(trees)) == first_sway_window(sway_nodes_in(trees.take(n))),
    decreases trees.len(),
{
    if n == trees.len() {
        assert(trees.take(n) =~= trees);
    } else {
        assert(trees.drop_last().take(n) =~= trees.take(n));
        lemma_window_among_more(trees.drop_last(), n);
        lemma_first_sway_window_concat(sway_nodes_in(trees.drop_last()), sway_nodes(trees.last()));
    }
}

/// The focused window of a Sway tree: the first, in the order of the search, of the nodes
/// that are focused and name a window.
pub fn find_sway_focused(node: &Json) -> (window: Option<WindowInfo>)
    ensures
        window_view(window) == first_sway_window(sway_nodes(node.tree())),
    decreases node.tree(), 2nat,
{
    proof {
        let tiled = sway_nodes_at(node.tree(), "nodes"@);
        let floating = sway_nodes_at(node.tree(), "floating_nodes"@);
        lemma_first_sway_window_concat(tiled + floating, seq![node.tree()]);
        lemma_first_sway_window_concat(tiled, floating);
        assert(first_sway_window(seq![node.tree()].drop_first()) is None);
        assert(first_sway_window(seq![node.tree()]) == sway_node_window(node.tree()));
    }
    if let Some(window) = find_sway_focused_at(node, "nodes") {
        return Some(window);
    }
    if let Some(window) = find_sway_focused_at(node, "floating_nodes") {
        return Some(window);
    }
    read_sway_node(node)
}

/// The window in the output of `swaymsg -t get_tree`.
pub open spec fn sway_output(output: Option<CommandOutput>) -> Option<WindowView> {
    match printed_json(output) {
        Some(tree) => first_sway_window(sway_nodes(tree)),
        None => None,
    }
}

/// The focused window that Sway reports through `swaymsg`.
pub fn read_sway_window(output: &Option<CommandOutput>) -> (window: Option<WindowInfo>)
    ensures
        window_view(window) == sway_output(*output),
{
    match read_output(output) {
        Some(tree) => find_sway_focused(&tree),
        None => None,
    }
}

/// What came of asking the X server for a window property.
#[derive(Debug)]
pub enum PropertyReply {
    /// The request could not be sent.
    Unsent,
    /// The request was sent, and the answer was an error.
    Failed,
    /// The value of the property.
    Value(Vec<u8>),
}

/// The title in the value of `_NET_WM_NAME`: the text, unless it is empty or not UTF-8.
pub open spec fn x11_title(value: Seq<u8>) -> Option<Seq<char>> {
    match utf8_text(value) {
        Some(text) if text.len() > 0 => Some(text),
        _ => None,
    }
}

/// `bytes` without the zero bytes they end with.
pub open spec fn without_end_zeros(bytes: Seq<u8>) -> Seq<u8>
    decreases bytes.len(),
{
    if bytes.len() > 0 && bytes.last() == 0 {
        without_end_zeros(bytes.drop_last())
    } else {
        bytes
    }
}

/// What follows the last zero byte of `bytes`.
pub open spec fn after_last_zero(bytes: Seq<u8>) -> Seq<u8>
    decreases bytes.len(),
{
    if bytes.len() == 0 || bytes.last() == 0 {
        Seq::empty()
    } else {
        after_last_zero(bytes.drop_last()).push(bytes.last())
    }
}

/// The class in the value of `WM_CLASS`: the last of its strings, which zero bytes end,
/// that is not empty; `None` where there is none or it is not UTF-8.
pub open spec fn x11_class(value: Seq<u8>) -> Option<Seq<char>> {
    let class = after_last_zero(without_end_zeros(value));
    if class.len() == 0 {
        None
    } else {
        utf8_text(class)
    }
}

fn read_x11_title(value: Vec<u8>) -> (title: Option<String>)
    ensures
        text_view(title) == x11_title(value@),
{
    match string_from_utf8(value) {
        Some(text) => if text.as_str().is_empty() {
            None
        } else {
            Some(text)
        },
        None => None,
    }
}

fn read_x11_class(value: &Vec<u8>) -> (class: Option<String>)
    ensures
        text_view(class) == x11_class(value@),
{
    let mut end = value.len();
    assert(value@.take(end as int) =~= value@);
    while end > 0 && value[end - 1] == 0
        invariant
            end <= value@.len(),
            without_end_zeros(value@) == without_end_zeros(value@.take(end as int)),
        decreases end,
    {
        assert(value@.take(end as int).drop_last() =~= value@.take(end - 1));
        end = end - 1;
    }
    let mut start = end;
    assert(value@.subrange(start as int, end as int) =~= Seq::empty());
    assert(after_last_zero(value@.take(end as int)) =~= after_last_zero(value@.take(start as int))
        + value@.subrange(start as int, end as int));
    while start > 0 && value[start - 1] != 0
        invariant
            start <= end <= value@.len(),
            after_last_zero(value@.take(end as int)) == after_last_zero(value@.take(start as int))
                + value@.subrange(start as int, end as int),
        decreases start,
    {
        assert(value@.take(start as int).drop_last() =~= value@.take(start - 1));
        assert(after_last_zero(value@.take(start as int)) + value@.subrange(start as int, end as int)
            =~= after_last_zero(value@.take(start - 1)) + value@.subrange(start - 1, end as int));
        start = start - 1;
    }
    assert(Seq::<u8>::empty() + value@.subrange(start as int, end as int) =~= value@.subrange(
        start as int,
        end as int,
    ));
    if start == end {
        return None;
    }
    let mut class: Vec<u8> = Vec::new();
    for i in start..end
        invariant
            start <= end <= value@.len(),
            class@ == value@.subrange(start as int, i as int),
    {
        class.push(value[i]);
    }
    string_from_utf8(class)
}

/// What the X server answered last while the active window is looked up.
#[derive(Debug)]
pub enum X11Answer {
    /// The first window id in `_NET_ACTIVE_WINDOW` of the root window; `None` where
    /// anything on the way to it failed.
    Active(Option<u32>),
    /// `_NET_WM_NAME` of the window.
    Name(u32, PropertyReply),
    /// `WM_CLASS` of the window whose title is already known.
    Class(u32, Option<String>, PropertyReply),
}

/// What to do next while the active X11 window is looked up.
#[derive(Debug)]
pub enum X11Step {
    /// Ask for `_NET_WM_NAME` of the window.
    AskName(u32),
    /// Ask for `WM_CLASS` of the window, and keep the title.
    AskClass(u32, Option<String>),
    /// The lookup is over.
    Done(Option<WindowInfo>),
}

/// What an [`X11Step`] says.
pub enum X11StepView {
    AskName(u32),
    AskClass(u32, Option<Seq<char>>),
    Done(Option<WindowView>),
}

impl View for X11Step {
    type V = X11StepView;

    open spec fn view(&self) -> X11StepView {
        match *self {
            X11Step::AskName(window) => X11StepView::AskName(window),
            X11Step::AskClass(window, title) => X11StepView::AskClass(window, text_view(title)),
            X11Step::Done(window) => X11StepView::Done(window_view(window)),
        }
    }
}

/// The step that follows an answer. Without an active window, or without a connection that
/// takes requests, there is nothing to report; a property that cannot be had leaves its
/// part of the report out.
pub open spec fn x11_step(answer: X11Answer) -> X11StepView {
    match answer {
        X11Answer::Active(Some(window)) if window != 0 => X11StepView::AskName(window),
        X11Answer::Active(_) => X11StepView::Done(None),
        X11Answer::Name(window, PropertyReply::Value(value)) => X11StepView::AskClass(
            window,
            x11_title(value@),
        ),
        X11Answer::Name(window, PropertyReply::Failed) => X11StepView::AskClass(window, None),
        X11Answer::Name(_, PropertyReply::Unsent) => X11StepView::Done(None),
        X11Answer::Class(window, title, PropertyReply::Value(value)) => X11StepView::Done(
            Some(
                WindowView {
                    app: x11_class(value@),
                    title: text_view(title),
                    hwnd: window as isize,
                },
            ),
        ),
        X11Answer::Class(window, title, PropertyReply::Failed) => X11StepView::Done(
            Some(WindowView { app: None, title: text_view(title), hwnd: window as isize }),
        ),
        X11Answer::Class(_, _, PropertyReply::Unsent) => X11StepView::Done(None),
    }
}

/// Looks up the active window of an X11 session, one answer of the server at a time.
pub fn read_x11_window(answer: X11Answer) -> (step: X11Step)
    ensures
        step@ == x11_step(answer),
{
    match answer {
        X11Answer::Active(active) => match active {
            Some(window) if window != 0 => X11Step::AskName(window),
            _ => X11Step::Done(None),
        },
        X11Answer::Name(window, reply) => match reply {
            PropertyReply::Value(value) => X11Step::AskClass(window, read_x11_title(value)),
            PropertyReply::Failed => X11Step::AskClass(window, None),
            PropertyReply::Unsent => X11Step::Done(None),
        },
        X11Answer::Class(window, title, reply) => {
            let app = match reply {
                PropertyReply::Value(value) => read_x11_class(&value),
                PropertyReply::Failed => None,
                PropertyReply::Unsent => {
                    return X11Step::Done(None);
                },
            };
            X11Step::Done(Some(WindowInfo { app, title, hwnd: window as isize }))
        },
    }
}

/// The text of a property that was asked for; `None` where the answer was an error.
pub open spec fn reply_text(
    reply: PropertyReply,
    read: spec_fn(Seq<u8>) -> Option<Seq<char>>,
) -> Option<Seq<char>> {
    match reply {
        PropertyReply::Value(value) => read(value@),
        _ => None,
    }
}

/// The three steps together report the active window with what its two properties say, or
/// nothing where there is no active window or a request could not be sent.
pub proof fn law_x11_lookup(
    active: Option<u32>,
    name: PropertyReply,
    class: PropertyReply,
    title: Option<String>,
)
    requires
        text_view(title) == reply_text(name, |value| x11_title(value)),
    ensures
        match x11_step(X11Answer::Active(active)) {
            X11StepView::AskName(window) => {
                &&& active == Some(window)
                &&& match x11_step(X11Answer::Name(window, name)) {
                    X11StepView::AskClass(again, kept) => {
                        &&& again == window
                        &&& kept == text_view(title)
                        &&& x11_step(X11Answer::Class(window, title, class)) == X11StepView::Done(
                            if class is Unsent {
                                None
                            } else {
                                Some(
                                    WindowView {
                                        app: reply_text(class, |value| x11_class(value)),
                                        title: kept,
                                        hwnd: window as isize,
                                    },
                                )
                            },
                        )
                    },
                    X11StepView::Done(window) => name is Unsent && window is None,
                    X11StepView::AskName(_) => false,
                }
            },
            X11StepView::Done(window) => (active is None || active == Some(0u32)) && window is None,
            X11StepView::AskClass(_, _) => false,
        },
{
}

/// What came back last while the foreground window is looked up.
#[derive(Debug)]
pub enum WindowAnswer {
    /// Nothing was asked yet.
    Start,
    /// The output of `hyprctl activewindow -j`; `None` where it could not be run.
    Hyprland(Option<CommandOutput>),
    /// The output of `swaymsg -t get_tree`; `None` where it could not be run.
    Sway(Option<CommandOutput>),
    /// The active window of the X server.
    X11(Option<WindowInfo>),
}

/// What to do next while the foreground window is looked up.
#[derive(Debug)]
pub enum WindowStep {
    /// Run `hyprctl activewindow -j`.
    AskHyprland,
    /// Run `swaymsg -t get_tree`.
    AskSway,
    /// Look up the active window of the X server.
    AskX11,
    /// The lookup is over.
    Found(WindowInfo),
}

/// What a [`WindowStep`] says.
pub enum WindowStepView {
    AskHyprland,
    AskSway,
    AskX11,
    Found(WindowView),
}

impl View for WindowStep {
    type V = WindowStepView;

    open spec fn view(&self) -> WindowStepView {
        match *self {
            WindowStep::AskHyprland => WindowStepView::AskHyprland,
            WindowStep::AskSway => WindowStepView::AskSway,
            WindowStep::AskX11 => WindowStepView::AskX11,
            WindowStep::Found(window) => WindowStepView::Found(window@),
        }
    }
}

/// The step after both compositors are done with: only X11 has a way to ask.
pub open spec fn step_without_compositor(env: SessionEnv) -> WindowStepView {
    match session_type(env) {
        SessionType::Wayland => WindowStepView::Found(unknown_window()),
        SessionType::X11 => WindowStepView::AskX11,
    }
}

/// The step after Hyprland is done with.
pub open spec fn step_without_hyprland(env: SessionEnv) -> WindowStepView {
    if env.swaysock is Some {
        WindowStepView::AskSway
    } else {
        step_without_compositor(env)
    }
}

/// The step that follows an answer.
pub open spec fn window_step(env: SessionEnv, answer: WindowAnswer) -> WindowStepView {
    match answer {
        WindowAnswer::Start => if env.hyprland_instance_signature is Some {
            WindowStepView::AskHyprland
        } else {
            step_without_hyprland(env)
        },
        WindowAnswer::Hyprland(output) => match hyprland_output(output) {
            Some(window) => WindowStepView::Found(window),
            None => step_without_hyprland(env),
        },
        WindowAnswer::Sway(output) => match sway_output(output) {
            Some(window) => WindowStepView::Found(window),
            None => step_without_compositor(env),
        },
        WindowAnswer::X11(Some(window)) => WindowStepView::Found(window@),
        WindowAnswer::X11(None) => WindowStepView::Found(unknown_window()),
    }
}

fn ask_session(env: &SessionEnv) -> (step: WindowStep)
    ensures
        step@ == step_without_compositor(*env),
{
    match detect_session_type(env) {
        SessionType::Wayland => WindowStep::Found(WindowInfo::default()),
        SessionType::X11 => WindowStep::AskX11,
    }
}

fn ask_sway(env: &SessionEnv) -> (step: WindowStep)
    ensures
        step@ == step_without_hyprland(*env),
{
    if env.swaysock.is_some() {
        WindowStep::AskSway
    } else {
        ask_session(env)
    }
}

/// Detect the active window across Hyprland, Sway, X11 and generic Wayland, one answer at a
/// time.
pub fn foreground_window(env: &SessionEnv, answer: WindowAnswer) -> (step: WindowStep)
    ensures
        step@ == window_step(*env, answer),
{
    match answer {
        WindowAnswer::Start => if env.hyprland_instance_signature.is_some() {
            WindowStep::AskHyprland
        } else {
            ask_sway(env)
        },
        WindowAnswer::Hyprland(output) => match read_hyprland_window(&output) {
            Some(window) => WindowStep::Found(window),
            None => ask_sway(env),
        },
        WindowAnswer::Sway(output) => match read_sway_window(&output) {
            Some(window) => WindowStep::Found(window),
            None => ask_session(env),
        },
        WindowAnswer::X11(window) => match window {
            Some(window) => WindowStep::Found(window),
            None => WindowStep::Found(WindowInfo::default()),
        },
    }
}

/// The answers that the system gives while one foreground window is looked up.
pub struct WindowSources {
    pub hyprland: Option<CommandOutput>,
    pub sway: Option<CommandOutput>,
    pub x11: Option<WindowInfo>,
}

/// How many more questions may follow an answer.
pub open spec fn questions_left(answer: WindowAnswer) -> nat {
    match answer {
        WindowAnswer::Start => 3,
        WindowAnswer::Hyprland(_) => 2,
        WindowAnswer::Sway(_) => 1,
        WindowAnswer::X11(_) => 0,
    }
}

/// The window that the lookup ends with when it goes on from `answer`, and each question is
/// answered from `sources`.
pub open spec fn looked_up_window(
    env: SessionEnv,
    sources: WindowSources,
    answer: WindowAnswer,
) -> WindowView
    decreases questions_left(answer),
{
    match window_step(env, answer) {
        WindowStepView::AskHyprland => if questions_left(answer) > 2 {
            looked_up_window(env, sources, WindowAnswer::Hyprland(sources.hyprland))
        } else {
            arbitrary()
        },
        WindowStepView::AskSway => if questions_left(answer) > 1 {
            looked_up_window(env, sources, WindowAnswer::Sway(sources.sway))
        } else {
            arbitrary()
        },
        WindowStepView::AskX11 => if questions_left(answer) > 0 {
            looked_up_window(env, sources, WindowAnswer::X11(sources.x11))
        } else {
            arbitrary()
        },
        WindowStepView::Found(window) => window,
    }
}

/// No question is asked twice: each step asks for less than was left.
pub proof fn law_lookup_ends(env: SessionEnv, answer: WindowAnswer)
    ensures
        match window_step(env, answer) {
            WindowStepView::AskHyprland => questions_left(answer) == 3,
            WindowStepView::AskSway => questions_left(answer) >= 2,
            WindowStepView::AskX11 => questions_left(answer) >= 1,
            WindowStepView::Found(_) => true,
        },
{
}

/// The lookup prefers Hyprland where it runs and has a window, then Sway likewise. A plain
/// Wayland session has no way to tell; an X11 session asks the X server.
pub proof fn law_lookup_order(env: SessionEnv, sources: WindowSources)
    ensures
        looked_up_window(env, sources, WindowAnswer::Start) == if env.hyprland_instance_signature
            is Some && hyprland_output(sources.hyprland) is Some {
            hyprland_output(sources.hyprland)->0
        } else if env.swaysock is Some && sway_output(sources.sway) is Some {
            sway_output(sources.sway)->0
        } else if session_type(env) == SessionType::X11 && sources.x11 is Some {
            sources.x11->0@
        } else {
            unknown_window()
        },
{
    reveal_with_fuel(looked_up_window, 4);
}

/// A window is found in a Sway tree exactly where some node of it is focused and names one,
/// and the window found is that of such a node.
pub proof fn law_sway_search_is_complete(tree: JsonTree)
    ensures
        first_sway_window(sway_nodes(tree)) is Some <==> (exists|i: int|
            0 <= i < sway_nodes(tree).len() && sway_node_window(#[trigger] sway_nodes(tree)[i])
                is Some),
        first_sway_window(sway_nodes(tree)) matches Some(window) ==> (exists|i: int|
            0 <= i < sway_nodes(tree).len() && sway_node_window(#[trigger] sway_nodes(tree)[i])
                == Some(window)),
{
    lemma_first_sway_window(sway_nodes(tree));
}

proof fn lemma_first_sway_window(nodes: Seq<JsonTree>)
    ensures
        first_sway_window(nodes) is Some <==> (exists|i: int|
            0 <= i < nodes.len() && sway_node_window(#[trigger] nodes[i]) is Some),
        first_sway_window(nodes) matches Some(window) ==> (exists|i: int|
            0 <= i < nodes.len() && sway_node_window(#[trigger] nodes[i]) == Some(window)),
    decreases nodes.len(),
{
    if nodes.len() > 0 && sway_node_window(nodes[0]) is None {
        let rest = nodes.drop_first();
        lemma_first_sway_window(rest);
        assert(forall|i: int| 0 <= i < rest.len() ==> #[trigger] rest[i] == nodes[i + 1]);
        assert forall|i: int|
            0 <= i < nodes.len() && sway_node_window(#[trigger] nodes[i]) is Some implies exists|
            j: int,
        | 0 <= j < rest.len() && sway_node_window(#[trigger] rest[j]) is Some by {
            assert(rest[i - 1] == nodes[i]);
        }
        if first_sway_window(rest) is Some {
            let j = choose|j: int|
                0 <= j < rest.len() && sway_node_window(#[trigger] rest[j]) == first_sway_window(rest);
            assert(nodes[j + 1] == rest[j]);
        }
    }
}

/// Only the X server gives windows an id: what a compositor reports, and what is not known,
/// carries none.
pub proof fn law_only_x11_windows_have_an_id(output: Option<CommandOutput>)
    ensures
        hyprland_output(output) matches Some(window) ==> window.hwnd == 0,
        sway_output(output) matches Some(window) ==> window.hwnd == 0,
        unknown_window().hwnd == 0,
{
    if let Some(tree) = printed_json(output) {
        law_sway_search_is_complete(tree);
    }
}

/// Of the instance and the class that `WM_CLASS` holds, each ended by a zero byte, the class
/// is reported.
pub proof fn law_class_follows_instance(instance: Seq<u8>, class: Seq<u8>)
    requires
        class.len() > 0,
        !class.contains(0),
    ensures
        x11_class(instance + seq![0u8] + class + seq![0u8]) == utf8_text(class),
{
    let before = instance + seq![0u8];
    let value = before + class + seq![0u8];
    assert(class.contains(class.last()));
    assert(value.drop_last() =~= before + class);
    assert((before + class).last() == class.last());
    assert(without_end_zeros(before + class) == before + class);
    assert(value.last() == 0);
    assert(without_end_zeros(value) == without_end_zeros(value.drop_last()));
    lemma_after_last_zero(before, class);
}

proof fn lemma_after_last_zero(before: Seq<u8>, segment: Seq<u8>)
    requires
        before.len() > 0,
        before.last() == 0,
        !segment.contains(0),
    ensures
        after_last_zero(before + segment) == segment,
    decreases segment.len(),
{
    if segment.len() == 0 {
        assert(before + segment =~= before);
        assert(after_last_zero(before) =~= segment);
    } else {
        let shorter = segment.drop_last();
        assert(segment.contains(segment.last()));
        assert(!shorter.contains(0)) by {
            if shorter.contains(0) {
                let i = choose|i: int| 0 <= i < shorter.len() && shorter[i] == 0;
                assert(segment[i] == 0);
            }
        }
        lemma_after_last_zero(before, shorter);
        assert((before + segment).drop_last() =~= before + shorter);
        assert((before + segment).last() == segment.last());
        assert(shorter.push(segment.last()) =~= segment);
    }
}

/// Two windows that are described alike have the same class, the same title and the same id.
pub proof fn law_window_view(a: WindowInfo, b: WindowInfo)
    ensures
        a@ == b@ <==> same_text(a.app, b.app) && same_text(a.title, b.title) && a.hwnd == b.hwnd,
        a.app matches Some(app) ==> a@.app == Some(app@),
        a.title matches Some(title) ==> a@.title == Some(title@),
        a@.hwnd == a.hwnd,
{
}

/// What a command printed counts exactly where it was run and succeeded.
pub proof fn law_failed_commands_print_nothing(output: Option<CommandOutput>)
    ensures
        output is None ==> printed_json(output) is None,
        output matches Some(out) ==> printed_json(output) == if out.success {
            parsed_json(out.stdout@)
        } else {
            None
        },
{
}

/// A compositor's output gives the window that the document in it describes, and none where
/// there is no document.
pub proof fn law_compositor_output(output: Option<CommandOutput>)
    ensures
        printed_json(output) is None ==> hyprland_output(output) is None && sway_output(output)
            is None,
        printed_json(output) matches Some(reply) ==> hyprland_output(output) == hyprland_reply(
            reply,
        ) && sway_output(output) == sway_search(reply),
{
}

/// The text in a field, read off the field itself.
pub open spec fn text_field(node: JsonTree, name: Seq<char>) -> Option<Seq<char>> {
    match node.field(name) {
        Some(JsonTree::Text(text)) => Some(text),
        _ => None,
    }
}

/// Hyprland's reply gives a window exactly where it has a class or a title, and each of the
/// two is reported as it stands, or left out, whatever the other is.
pub proof fn law_hyprland_reply(reply: JsonTree)
    ensures
        hyprland_reply(reply) is Some <==> text_field(reply, "class"@) is Some || text_field(
            reply,
            "title"@,
        ) is Some,
        hyprland_reply(reply) matches Some(window) ==> window.app == text_field(reply, "class"@)
            && window.title == text_field(reply, "title"@) && window.hwnd == 0,
{
}

/// A Sway node gives a window only where it is focused. One with an application id is
/// reported with it and with its name; one without is reported with the class and the title
/// among its window properties, as long as it has one of the two.
pub proof fn law_sway_node(node: JsonTree)
    ensures
        node.field("focused"@) != Some(JsonTree::Bool(true)) ==> sway_node_window(node) is None,
        node.field("focused"@) == Some(JsonTree::Bool(true)) && text_field(node, "app_id"@) is Some
            ==> (sway_node_window(node) matches Some(window) && window.app == text_field(
            node,
            "app_id"@,
        ) && window.title == text_field(node, "name"@) && window.hwnd == 0),
        node.field("focused"@) == Some(JsonTree::Bool(true)) && text_field(node, "app_id"@) is None
            ==> {
            &&& sway_node_window(node) is Some <==> (node.field("window_properties"@) matches Some(
                props,
            ) && (text_field(props, "class"@) is Some || text_field(props, "title"@) is Some))
            &&& sway_node_window(node) matches Some(window) ==> window.app == text_field(
                node.field("window_properties"@)->0,
                "class"@,
            ) && window.title == text_field(node.field("window_properties"@)->0, "title"@)
                && window.hwnd == 0
        },
{
}

/// What the search of a Sway tree finds.
pub open spec fn sway_search(tree: JsonTree) -> Option<WindowView> {
    first_sway_window(sway_nodes(tree))
}

/// Whether `child` stands in the list in the field `name` of `node`, at `at`.
pub open spec fn sway_child_at(node: JsonTree, name: Seq<char>, child: JsonTree, at: int) -> bool {
    &&& node.field(name) matches Some(JsonTree::List(children))
    &&& 0 <= at < children.len()
    &&& children[at] == child
}

/// Whether `child` is directly below `node`: a member of its list of tiled or of floating
/// nodes.
pub open spec fn sway_child(node: JsonTree, child: JsonTree) -> bool {
    exists|at: int|
        #![trigger sway_child_at(node, "nodes"@, child, at)]
        #![trigger sway_child_at(node, "floating_nodes"@, child, at)]
        sway_child_at(node, "nodes"@, child, at) || sway_child_at(
            node,
            "floating_nodes"@,
            child,
            at,
        )
}

/// Whether `target` is reached from `node` by going down `steps` times.
pub open spec fn sway_reached(node: JsonTree, target: JsonTree, steps: nat) -> bool
    decreases steps,
{
    if steps == 0 {
        node == target
    } else {
        exists|child: JsonTree|
            #[trigger] sway_child(node, child) && sway_reached(child, target, (steps - 1) as nat)
    }
}

proof fn lemma_search_list(nodes: Seq<JsonTree>, at: int)
    requires
        0 <= at < nodes.len(),
        forall|i: int| 0 <= i < at ==> sway_search(#[trigger] nodes[i]) is None,
    ensures
        sway_search(nodes[at]) is Some ==> first_sway_window(sway_nodes_in(nodes)) == sway_search(
            nodes[at],
        ),
    decreases nodes.len(),
{
    let shorter = nodes.drop_last();
    lemma_first_sway_window_concat(sway_nodes_in(shorter), sway_nodes(nodes.last()));
    if at < shorter.len() {
        assert(forall|i: int| 0 <= i < shorter.len() ==> #[trigger] shorter[i] == nodes[i]);
        lemma_search_list(shorter, at);
    } else {
        lemma_search_list_none(shorter);
    }
}

proof fn lemma_search_list_none(nodes: Seq<JsonTree>)
    ensures
        first_sway_window(sway_nodes_in(nodes)) is None <==> (forall|i: int|
            0 <= i < nodes.len() ==> sway_search(#[trigger] nodes[i]) is None),
    decreases nodes.len(),
{
    if nodes.len() > 0 {
        let shorter = nodes.drop_last();
        lemma_search_list_none(shorter);
        lemma_first_sway_window_concat(sway_nodes_in(shorter), sway_nodes(nodes.last()));
        assert(forall|i: int| 0 <= i < shorter.len() ==> #[trigger] shorter[i] == nodes[i]);
        if forall|i: int| 0 <= i < shorter.len() ==> sway_search(#[trigger] shorter[i]) is None {
            assert forall|i: int|
                0 <= i < nodes.len() && sway_search(nodes.last()) is None implies sway_search(
                #[trigger] nodes[i],
            ) is None by {
                if i < shorter.len() {
                    assert(shorter[i] == nodes[i]);
                }
            }
            assert(nodes.last() == nodes[nodes.len() - 1]);
        } else {
            let i = choose|i: int|
                0 <= i < shorter.len() && sway_search(#[trigger] shorter[i]) is Some;
            assert(nodes[i] == shorter[i]);
        }
    }
}

proof fn lemma_search_node(node: JsonTree)
    ensures
        sway_search(node) == if first_sway_window(sway_nodes_at(node, "nodes"@)) is Some {
            first_sway_window(sway_nodes_at(node, "nodes"@))
        } else if first_sway_window(sway_nodes_at(node, "floating_nodes"@)) is Some {
            first_sway_window(sway_nodes_at(node, "floating_nodes"@))
        } else {
            sway_node_window(node)
        },
{
    let tiled = sway_nodes_at(node, "nodes"@);
    let floating = sway_nodes_at(node, "floating_nodes"@);
    lemma_first_sway_window_concat(tiled + floating, seq![node]);
    lemma_first_sway_window_concat(tiled, floating);
    assert(first_sway_window(seq![node].drop_first()) is None);
    assert(first_sway_window(seq![node]) == sway_node_window(node));
}

/// Whether the list in the field `name` of `node` has nothing to find.
pub open spec fn sway_list_is_bare(node: JsonTree, name: Seq<char>) -> bool {
    node.field(name) matches Some(JsonTree::List(children)) ==> forall|i: int|
        0 <= i < children.len() ==> sway_search(#[trigger] children[i]) is None
}

/// Whether `child` is the first in the list in the field `name` of `node` that has something
/// to find.
pub open spec fn sway_first_find(node: JsonTree, name: Seq<char>, child: JsonTree) -> bool {
    node.field(name) matches Some(JsonTree::List(children)) && exists|at: int|
        0 <= at < children.len() && #[trigger] children[at] == child && sway_search(child) is Some
            && forall|i: int| 0 <= i < at ==> sway_search(#[trigger] children[i]) is None
}

/// The search goes through the tiled nodes, then through the floating ones whatever the
/// tiled ones were, then looks at the node itself, and ends with the first find.
pub proof fn law_sway_search_order(node: JsonTree, child: JsonTree)
    ensures
        sway_first_find(node, "nodes"@, child) ==> sway_search(node) == sway_search(child),
        sway_list_is_bare(node, "nodes"@) && sway_first_find(node, "floating_nodes"@, child)
            ==> sway_search(node) == sway_search(child),
        sway_list_is_bare(node, "nodes"@) && sway_list_is_bare(node, "floating_nodes"@)
            ==> sway_search(node) == sway_node_window(node),
{
    lemma_search_node(node);
    lemma_search_at(node, "nodes"@, child);
    lemma_search_at(node, "floating_nodes"@, child);
}

proof fn lemma_search_at(node: JsonTree, name: Seq<char>, child: JsonTree)
    ensures
        sway_first_find(node, name, child) ==> first_sway_window(sway_nodes_at(node, name))
            == sway_search(child),
        sway_list_is_bare(node, name) <==> first_sway_window(sway_nodes_at(node, name)) is None,
{
    if let Some(JsonTree::List(children)) = node.field(name) {
        lemma_search_list_none(children);
        if sway_first_find(node, name, child) {
            let at = choose|at: int|
                0 <= at < children.len() && #[trigger] children[at] == child && sway_search(child)
                    is Some && forall|i: int|
                    0 <= i < at ==> sway_search(#[trigger] children[i]) is None;
            lemma_search_list(children, at);
        }
    }
}

/// A node has a window to find whenever one directly below it has, in either list and
/// whatever the other list holds.
pub proof fn law_sway_child_is_searched(node: JsonTree, child: JsonTree)
    requires
        sway_child(node, child),
        sway_search(child) is Some,
    ensures
        sway_search(node) is Some,
{
    lemma_search_node(node);
    lemma_search_at(node, "nodes"@, child);
    lemma_search_at(node, "floating_nodes"@, child);
    let at = choose|at: int|
        #![trigger sway_child_at(node, "nodes"@, child, at)]
        #![trigger sway_child_at(node, "floating_nodes"@, child, at)]
        sway_child_at(node, "nodes"@, child, at) || sway_child_at(
            node,
            "floating_nodes"@,
            child,
            at,
        );
    if sway_child_at(node, "nodes"@, child, at) {
        let children = node.field("nodes"@)->0->List_0;
        assert(sway_search(children[at]) is Some);
        assert(!sway_list_is_bare(node, "nodes"@));
    } else {
        let children = node.field("floating_nodes"@)->0->List_0;
        assert(sway_search(children[at]) is Some);
        assert(!sway_list_is_bare(node, "floating_nodes"@));
    }
}

/// However deep a focused, named node stands, and through whichever of the two kinds of list
/// it is reached, the search finds a window.
pub proof fn law_sway_search_reaches_all(node: JsonTree, target: JsonTree, steps: nat)
    requires
        sway_reached(node, target, steps),
        sway_node_window(target) is Some,
    ensures
        sway_search(node) is Some,
    decreases steps,
{
    if steps == 0 {
        lemma_search_node(node);
    } else {
        let child = choose|child: JsonTree|
            #[trigger] sway_child(node, child) && sway_reached(child, target, (steps - 1) as nat);
        law_sway_search_reaches_all(child, target, (steps - 1) as nat);
        law_sway_child_is_searched(node, child);
    }
}

/// What the search finds is the window of a node that is reached from the top.
pub proof fn law_sway_find_is_reached(node: JsonTree) -> (found: (JsonTree, nat))
    requires
        sway_search(node) is Some,
    ensures
        sway_reached(node, found.0, found.1),
        sway_node_window(found.0) == sway_search(node),
    decreases node,
{
    lemma_search_node(node);
    lemma_search_at(node, "nodes"@, node);
    lemma_search_at(node, "floating_nodes"@, node);
    node.lemma_list_is_below("nodes"@);
    node.lemma_list_is_below("floating_nodes"@);
    if !sway_list_is_bare(node, "nodes"@) {
        let children = node.field("nodes"@)->0->List_0;
        let at = lemma_first_find(children);
        lemma_search_at(node, "nodes"@, children[at]);
        assert(decreases_to!(children => children[at]));
        let found = law_sway_find_is_reached(children[at]);
        assert(sway_child_at(node, "nodes"@, children[at], at));
        assert(sway_child(node, children[at]));
        (found.0, found.1 + 1)
    } else if !sway_list_is_bare(node, "floating_nodes"@) {
        let children = node.field("floating_nodes"@)->0->List_0;
        let at = lemma_first_find(children);
        lemma_search_at(node, "floating_nodes"@, children[at]);
        assert(decreases_to!(children => children[at]));
        let found = law_sway_find_is_reached(children[at]);
        assert(sway_child_at(node, "floating_nodes"@, children[at], at));
        assert(sway_child(node, children[at]));
        (found.0, found.1 + 1)
    } else {
        (node, 0)
    }
}

proof fn lemma_first_find(nodes: Seq<JsonTree>) -> (at: int)
    requires
        exists|i: int| 0 <= i < nodes.len() && sway_search(#[trigger] nodes[i]) is Some,
    ensures
        0 <= at < nodes.len(),
        sway_search(nodes[at]) is Some,
        forall|i: int| 0 <= i < at ==> sway_search(#[trigger] nodes[i]) is None,
    decreases nodes.len(),
{
    let shorter = nodes.drop_last();
    assert(forall|i: int| 0 <= i < shorter.len() ==> #[trigger] shorter[i] == nodes[i]);
    if exists|i: int| 0 <= i < shorter.len() && sway_search(#[trigger] shorter[i]) is Some {
        let at = lemma_first_find(shorter);
        assert forall|i: int| 0 <= i < at implies sway_search(#[trigger] nodes[i]) is None by {
            assert(shorter[i] == nodes[i]);
        }
        at
    } else {
        assert forall|i: int| 0 <= i < nodes.len() - 1 implies sway_search(#[trigger] nodes[i])
            is None by {
            assert(shorter[i] == nodes[i]);
        }
        nodes.len() - 1
    }
}

/// A title is reported exactly where the property holds its encoding and it is not empty.
pub proof fn law_x11_title(value: Seq<u8>, title: Seq<char>)
    ensures
        x11_title(value) == Some(title) <==> title.len() > 0 && value == encode_utf8(title),
{
    law_utf8_text(value, title);
    if let Some(text) = utf8_text(value) {
        law_utf8_text(value, text);
    }
}

/// The last string in `WM_CLASS` that is not empty is reported, whatever stands before it and
/// however many zero bytes follow it; a property without one gives no class.
pub proof fn law_last_class_is_reported(before: Seq<u8>, class: Seq<u8>, zeros: Seq<u8>)
    requires
        before.len() > 0 ==> before[before.len() - 1] == 0,
        !class.contains(0),
        forall|i: int| 0 <= i < zeros.len() ==> #[trigger] zeros[i] == 0,
    ensures
        class.len() > 0 ==> x11_class(before + class + zeros) == utf8_text(class),
        x11_class(zeros) is None,
{
    let none = Seq::<u8>::empty();
    lemma_without_end_zeros(none, zeros);
    assert(none + zeros =~= zeros);
    if class.len() > 0 {
        assert(class.contains(class[class.len() - 1]));
        assert((before + class).last() == class.last());
        lemma_without_end_zeros(before + class, zeros);
        if before.len() > 0 {
            lemma_after_last_zero(before, class);
        } else {
            assert(before + class =~= class);
            lemma_after_no_zero(class);
        }
    }
}

proof fn lemma_without_end_zeros(s: Seq<u8>, zeros: Seq<u8>)
    requires
        s.len() > 0 ==> s.last() != 0,
        forall|i: int| 0 <= i < zeros.len() ==> #[trigger] zeros[i] == 0,
    ensures
        without_end_zeros(s + zeros) == s,
    decreases zeros.len(),
{
    if zeros.len() == 0 {
        assert(s + zeros =~= s);
    } else {
        assert(zeros[zeros.len() - 1] == 0);
        assert((s + zeros).last() == 0);
        assert((s + zeros).drop_last() =~= s + zeros.drop_last());
        lemma_without_end_zeros(s, zeros.drop_last());
    }
}

proof fn lemma_after_no_zero(segment: Seq<u8>)
    requires
        !segment.contains(0),
    ensures
        after_last_zero(segment) == segment,
    decreases segment.len(),
{
    if segment.len() > 0 {
        let shorter = segment.drop_last();
        assert(segment.contains(segment.last()));
        assert(!shorter.contains(0)) by {
            if shorter.contains(0) {
                let i = choose|i: int| 0 <= i < shorter.len() && shorter[i] == 0;
                assert(segment[i] == 0);
            }
        }
        lemma_after_no_zero(shorter);
        assert(shorter.push(segment.last()) =~= segment);
    }
}

/// A compositor is asked only where it runs, and the X server only in an X11 session; nothing
/// is asked once a window was found.
pub proof fn law_only_what_runs_is_asked(env: SessionEnv, answer: WindowAnswer)
    ensures
        window_step(env, answer) is AskHyprland ==> env.hyprland_instance_signature is Some,
        window_step(env, answer) is AskSway ==> env.swaysock is Some,
        window_step(env, answer) is AskX11 ==> env.wayland_display is None,
        answer matches WindowAnswer::Hyprland(output) ==> hyprland_output(output) matches Some(
            window,
        ) ==> window_step(env, answer) == WindowStepView::Found(window),
        answer matches WindowAnswer::Sway(output) ==> sway_output(output) matches Some(window)
            ==> window_step(env, answer) == WindowStepView::Found(window),
        answer matches WindowAnswer::X11(reply) ==> window_step(env, answer)
            == WindowStepView::Found(
            match reply {
                Some(window) => window@,
                None => unknown_window(),
            },
        ),
        unknown_window().app is None && unknown_window().title is None && unknown_window().hwnd
            == 0,
{
}

/// The name is asked of every active window but the null window; then the class is asked,
/// unless the first question could not be sent. A window is reported unless the second
/// could not be sent, with the title that was kept and its own id.
pub proof fn law_x11_asks_in_turn(
    active: Option<u32>,
    window: u32,
    title: Option<String>,
    reply: PropertyReply,
)
    ensures
        match active {
            Some(id) => if id == 0 {
                x11_step(X11Answer::Active(active)) == X11StepView::Done(None)
            } else {
                x11_step(X11Answer::Active(active)) == X11StepView::AskName(id)
            },
            None => x11_step(X11Answer::Active(active)) == X11StepView::Done(None),
        },
        match reply {
            PropertyReply::Value(value) => {
                &&& x11_step(X11Answer::Name(window, reply)) == X11StepView::AskClass(
                    window,
                    x11_title(value@),
                )
                &&& x11_step(X11Answer::Class(window, title, reply)) matches X11StepView::Done(
                    Some(found),
                ) && found.app == x11_class(value@)
            },
            PropertyReply::Failed => {
                &&& x11_step(X11Answer::Name(window, reply)) == X11StepView::AskClass(window, None)
                &&& x11_step(X11Answer::Class(window, title, reply)) matches X11StepView::Done(
                    Some(found),
                ) && found.app is None
            },
            PropertyReply::Unsent => {
                &&& x11_step(X11Answer::Name(window, reply)) == X11StepView::Done(None)
                &&& x11_step(X11Answer::Class(window, title, reply)) == X11StepView::Done(None)
            },
        },
        x11_step(X11Answer::Class(window, title, reply)) matches X11StepView::Done(Some(found))
            ==> found.title == text_view(title) && found.hwnd == window as isize,
{
}

/// A step is seen as it is, with the window that it speaks of.
pub proof fn law_lookup_step_views(step: WindowStep, x11: X11Step)
    ensures
        match step {
            WindowStep::AskHyprland => step@ is AskHyprland,
            WindowStep::AskSway => step@ is AskSway,
            WindowStep::AskX11 => step@ is AskX11,
            WindowStep::Found(window) => step@ == WindowStepView::Found(window@),
        },
        match x11 {
            X11Step::AskName(window) => x11@ == X11StepView::AskName(window),
            X11Step::AskClass(window, Some(title)) => x11@ == X11StepView::AskClass(
                window,
                Some(title@),
            ),
            X11Step::AskClass(window, None) => x11@ == X11StepView::AskClass(window, None),
            X11Step::Done(Some(window)) => x11@ == X11StepView::Done(Some(window@)),
            X11Step::Done(None) => x11@ == X11StepView::Done(None),
        },
{
}

/// A window that was found is seen as it is, and one that was not is not seen.
pub proof fn law_found_window_view(window: Option<WindowInfo>)
    ensures
        match window {
            Some(found) => window_view(window) == Some(found@),
            None => window_view(window) is None,
        },
{
}

} // verus!
