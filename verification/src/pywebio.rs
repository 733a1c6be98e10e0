//! Driving the scheduler button of the web interface through its web socket.
//!
//! The server sends commands as JSON texts; some of them carry the widgets of the page. The client
//! sends an event for a widget that is to be clicked, and answers the scripts that the server wants
//! evaluated, without which no page is rendered. To reach the scheduler button the client clicks
//! the instance, the overview item of the menu and then the button itself. The button is never
//! clicked twice, since a second click would start the scheduler twice. Points in time are
//! milliseconds on a clock that never runs backwards.
use vstd::prelude::*;

use crate::json::{
    array_model, json_document, json_literal, members_view, object_model, parse_json, quote, str_view,
    text_view, Json, JsonView,
};
use crate::menu_model::ControlLabels;
use crate::text;

verus! {

/// How long the page must have been open before the first click.
pub const HOME_QUIESCE_MS: u64 = 6_000;

/// How long the button is watched after it was clicked.
pub const CONFIRM_WINDOW_MS: u64 = 1_500;

/// How long a single read from the socket takes at most.
pub const READ_POLL_MS: u64 = 250;

/// How long a single write to the socket takes at most.
pub const WRITE_TIMEOUT_MS: u64 = 5_000;

/// A character of a version number.
pub open spec fn is_version_char(c: char) -> bool {
    text::is_digit(c) || c == '.'
}

/// Where the version number ends that begins at `i` or before.
pub open spec fn version_end(s: Seq<char>, i: int) -> int
    decreases s.len() - i,
{
    if 0 <= i < s.len() && is_version_char(s[i]) {
        version_end(s, i + 1)
    } else {
        i
    }
}

/// The version that a line of the requirements pins.
pub open spec fn pinned_version(line: Seq<char>) -> Option<Seq<char>> {
    let t = text::trimmed(line);
    let name = "pywebio=="@;
    if text::begins(t, name) {
        let rest = t.skip(name.len() as int);
        let version = rest.take(version_end(rest, 0));
        if version.len() > 0 {
            Some(version)
        } else {
            None
        }
    } else {
        None
    }
}

/// The version that the first of the lines pins that pins one.
pub open spec fn first_pinned(lines: Seq<Seq<char>>) -> Option<Seq<char>>
    decreases lines.len(),
{
    if lines.len() == 0 {
        None
    } else {
        match pinned_version(lines[0]) {
            Some(v) => Some(v),
            None => first_pinned(lines.skip(1)),
        }
    }
}

/// The version that a line of the requirements pins.
fn read_pin(line: &str) -> (r: Option<String>)
    ensures
        text_view(r) == pinned_version(line@),
{
    let t = text::trim(line);
    let name = "pywebio==";
    if !text::starts_with(t.as_str(), name) {
        return None;
    }
    let v = text::chars_of(t.as_str());
    let from: usize = name.unicode_len();
    let ghost rest = t@.skip(from as int);
    let mut i: usize = from;
    while i < v.len() && ((v[i] >= '0' && v[i] <= '9') || v[i] == '.')
        invariant
            from <= i <= v@.len(),
            v@ == t@,
            rest == t@.skip(from as int),
            version_end(rest, 0) == version_end(rest, i - from),
        decreases v@.len() - i,
    {
        assert(rest[i - from] == v@[i as int]);
        i = i + 1;
    }
    proof {
        if i < v@.len() {
            assert(rest[i - from] == v@[i as int]);
        }
        assert(version_end(rest, 0) == i - from);
        assert(rest.take(i - from) =~= v@.subrange(from as int, i as int));
    }
    if i == from {
        return None;
    }
    Some(text::string_of(&v, from, i))
}

/// The version of the web framework that a requirements text pins.
pub fn pywebio_version(requirements_txt: &str) -> (r: Option<String>)
    ensures
        text_view(r) == first_pinned(text::lines_of(requirements_txt@)),
{
    let lines = text::lines(requirements_txt);
    let ghost all = text::texts(lines@);
    let mut i: usize = 0;
    assert(all.skip(0) =~= all);
    while i < lines.len()
        invariant
            i <= lines@.len(),
            all == text::texts(lines@),
            all == text::lines_of(requirements_txt@),
            first_pinned(all) == first_pinned(all.skip(i as int)),
        decreases lines@.len() - i,
    {
        proof {
            assert(all[i as int] == lines@[i as int]@);
            assert(all.skip(i as int)[0] == all[i as int]);
            assert(all.skip(i as int).skip(1) =~= all.skip(i + 1));
        }
        if let Some(v) = read_pin(lines[i].as_str()) {
            return Some(v);
        }
        i = i + 1;
    }
    None
}

/// Whether the version is the one whose protocol is spoken here.
pub fn check_pywebio_version(v: Option<&str>) -> (r: bool)
    ensures
        r == (str_view(v) == Some("1.6.2"@)),
{
    match v {
        Some(s) => text::same(s, "1.6.2"),
        None => false,
    }
}

/// What a click on the scheduler button is to bring about.
#[derive(Clone, Copy, Debug, PartialEq, Eq, Structural)]
pub enum SchedulerAction {
    Start,
    Stop,
}

impl SchedulerAction {
    /// The text of the button before the click.
    pub fn label_before<'a>(&self, labels: &'a ControlLabels) -> (r: &'a str)
        ensures
            r@ == (if *self == SchedulerAction::Start {
                labels.start@
            } else {
                labels.stop@
            }),
    {
        match self {
            SchedulerAction::Start => labels.start.as_str(),
            SchedulerAction::Stop => labels.stop.as_str(),
        }
    }

    /// The text of the button after the click.
    pub fn label_after<'a>(&self, labels: &'a ControlLabels) -> (r: &'a str)
        ensures
            r@ == (if *self == SchedulerAction::Start {
                labels.stop@
            } else {
                labels.start@
            }),
    {
        match self {
            SchedulerAction::Start => labels.stop.as_str(),
            SchedulerAction::Stop => labels.start.as_str(),
        }
    }
}

/// A command of the server.
#[derive(Debug)]
pub struct ServerMessage {
    pub command: String,
    pub spec: Json,
    pub task_id: String,
}

/// What a command of the server says.
pub struct ServerMessageView {
    pub command: Seq<char>,
    pub spec: JsonView,
    pub task_id: Seq<char>,
}

impl View for ServerMessage {
    type V = ServerMessageView;

    open spec fn view(&self) -> ServerMessageView {
        ServerMessageView { command: self.command@, spec: self.spec@, task_id: self.task_id@ }
    }
}

/// What the commands of a list say.
pub open spec fn message_views(v: Seq<ServerMessage>) -> Seq<ServerMessageView> {
    v.map_values(|m: ServerMessage| m@)
}

/// Why a frame is no command.
#[derive(Clone, Copy, Debug, PartialEq, Eq, Structural)]
pub enum MessageError {
    NotJson,
    MissingCommand,
    MissingSpec,
    MissingTaskId,
}

/// The command that a document stands for.
pub open spec fn message_of(v: JsonView) -> Result<ServerMessageView, MessageError> {
    match (v.member_text("command"@), v.member("spec"@), v.member_text("task_id"@)) {
        (None, _, _) => Err(MessageError::MissingCommand),
        (Some(_), None, _) => Err(MessageError::MissingSpec),
        (Some(_), Some(_), None) => Err(MessageError::MissingTaskId),
        (Some(command), Some(spec), Some(task_id)) => Ok(
            ServerMessageView { command, spec, task_id },
        ),
    }
}

/// The command that a document stands for.
pub fn server_message(v: &Json) -> (r: Result<ServerMessage, MessageError>)
    ensures
        match r {
            Ok(m) => message_of(v@) == Ok::<ServerMessageView, MessageError>(m@),
            Err(e) => message_of(v@) == Err::<ServerMessageView, MessageError>(e),
        },
{
    let command = match v.get_str("command") {
        Some(c) => String::from_str(c),
        None => {
            return Err(MessageError::MissingCommand);
        },
    };
    let spec = match v.get("spec") {
        Some(s) => s.clone(),
        None => {
            return Err(MessageError::MissingSpec);
        },
    };
    let task_id = match v.get_str("task_id") {
        Some(t) => String::from_str(t),
        None => {
            return Err(MessageError::MissingTaskId);
        },
    };
    Ok(ServerMessage { command, spec, task_id })
}

/// The command that a frame carries.
pub open spec fn frame_message(frame: Seq<char>) -> Result<ServerMessageView, MessageError> {
    match json_document(frame) {
        Some(v) => message_of(v),
        None => Err(MessageError::NotJson),
    }
}

/// Reads the command that a frame carries.
pub fn parse_server_message(frame: &str) -> (r: Result<ServerMessage, MessageError>)
    ensures
        match r {
            Ok(m) => frame_message(frame@) == Ok::<ServerMessageView, MessageError>(m@),
            Err(e) => frame_message(frame@) == Err::<ServerMessageView, MessageError>(e),
        },
{
    match parse_json(frame) {
        Some(v) => server_message(&v),
        None => Err(MessageError::NotJson),
    }
}

/// The widgets that are clicked, as far as they were seen.
#[derive(Debug, PartialEq, Eq)]
pub struct LocatedButtons {
    /// The button of the instance.
    pub aside_callback_id: Option<String>,
    /// The overview item of the menu.
    pub menu_callback_id: Option<String>,
    /// The scheduler button, and its text.
    pub scheduler_callback_id: Option<String>,
    pub scheduler_label: Option<String>,
}

/// The widgets that are clicked, as far as they were seen.
pub struct LocatedButtonsView {
    pub aside: Option<Seq<char>>,
    pub menu: Option<Seq<char>>,
    pub scheduler: Option<Seq<char>>,
    pub label: Option<Seq<char>>,
}

impl View for LocatedButtons {
    type V = LocatedButtonsView;

    open spec fn view(&self) -> LocatedButtonsView {
        LocatedButtonsView {
            aside: text_view(self.aside_callback_id),
            menu: text_view(self.menu_callback_id),
            scheduler: text_view(self.scheduler_callback_id),
            label: text_view(self.scheduler_label),
        }
    }
}

/// No widget was seen yet.
pub open spec fn nothing_located() -> LocatedButtonsView {
    LocatedButtonsView { aside: None, menu: None, scheduler: None, label: None }
}

impl Default for LocatedButtons {
    fn default() -> (r: LocatedButtons)
        ensures
            r@ == nothing_located(),
    {
        LocatedButtons {
            aside_callback_id: None,
            menu_callback_id: None,
            scheduler_callback_id: None,
            scheduler_label: None,
        }
    }
}

impl LocatedButtons {
    /// The scheduler button, and its text.
    pub fn scheduler_button(&self) -> (r: Option<(String, String)>)
        ensures
            match r {
                Some((id, label)) => self@.scheduler == Some(id@) && label@ == (match self@.label {
                    Some(l) => l,
                    None => Seq::empty(),
                }),
                None => self@.scheduler is None,
            },
    {
        match &self.scheduler_callback_id {
            Some(id) => {
                let label = match &self.scheduler_label {
                    Some(l) => l.clone(),
                    None => {
                        let none = String::new();
                        assert(none@ =~= Seq::<char>::empty());
                        none
                    },
                };
                Some((id.clone(), label))
            },
            None => None,
        }
    }
}

/// The text of the first button of a widget.
pub open spec fn button_label(v: JsonView) -> Seq<char> {
    match v.member("buttons"@) {
        Some(list) => match list.first() {
            Some(b) => match b.member_text("label"@) {
                Some(l) => l,
                None => Seq::empty(),
            },
            None => Seq::empty(),
        },
        None => Seq::empty(),
    }
}

/// The style of a widget.
pub open spec fn widget_style(v: JsonView) -> Seq<char> {
    match v.member_text("style"@) {
        Some(s) => s,
        None => Seq::empty(),
    }
}

/// The widgets that were seen, after the value `v`, which may be one of them. The instance is known
/// by its place and its name, the menu item by its place and its style, the scheduler button by its
/// place alone.
pub open spec fn noted(out: LocatedButtonsView, v: JsonView) -> LocatedButtonsView {
    if v.member_text("type"@) == Some("buttons"@) && v.member_text("callback_id"@) is Some
        && v.member_text("scope"@) is Some {
        let id = v.member_text("callback_id"@);
        let scope = v.member_text("scope"@)->0;
        let is_aside = text::begins(scope, "#pywebio-scope-alas-instance-"@) && button_label(v)
            == "alas"@;
        let is_menu = scope == "#pywebio-scope-menu"@ && text::has_text(
            widget_style(v),
            "--menu-Overview--"@,
        );
        let is_scheduler = scope == "#pywebio-scope-scheduler_btn"@;
        LocatedButtonsView {
            aside: if is_aside {
                id
            } else {
                out.aside
            },
            menu: if is_menu {
                id
            } else {
                out.menu
            },
            scheduler: if is_scheduler {
                id
            } else {
                out.scheduler
            },
            label: if is_scheduler {
                Some(button_label(v))
            } else {
                out.label
            },
        }
    } else {
        out
    }
}

/// The widgets that were seen, after the value `v` and everything in it.
pub open spec fn scanned(v: JsonView, out: LocatedButtonsView) -> LocatedButtonsView
    decreases v,
{
    match v {
        JsonView::Object(members) => scanned_members(members, noted(out, v)),
        JsonView::Array(items) => scanned_items(items, out),
        _ => out,
    }
}

/// The widgets that were seen, after the members of an object.
pub open spec fn scanned_members(
    members: Seq<(Seq<char>, JsonView)>,
    out: LocatedButtonsView,
) -> LocatedButtonsView
    decreases members,
{
    if members.len() == 0 {
        out
    } else {
        scanned(members[members.len() - 1].1, scanned_members(members.drop_last(), out))
    }
}

/// The widgets that were seen, after the items of an array.
pub open spec fn scanned_items(items: Seq<JsonView>, out: LocatedButtonsView) -> LocatedButtonsView
    decreases items,
{
    if items.len() == 0 {
        out
    } else {
        scanned(items[items.len() - 1], scanned_items(items.drop_last(), out))
    }
}

/// Notes the widget that `v` may be.
fn note_button(v: &Json, out: &mut LocatedButtons)
    ensures
        final(out)@ == noted(old(out)@, v@),
{
    let is_buttons = match v.get_str("type") {
        Some(t) => text::same(t, "buttons"),
        None => false,
    };
    if !is_buttons {
        return;
    }
    if let (Some(id), Some(scope)) = (v.get_str("callback_id"), v.get_str("scope")) {
        let mut label = "";
        proof {
            reveal_strlit("");
            assert(""@ =~= Seq::<char>::empty());
        }
        if let Some(list) = v.get("buttons") {
            if let Some(b) = list.first() {
                if let Some(l) = b.get_str("label") {
                    label = l;
                }
            }
        }
        assert(label@ == button_label(v@));
        let style = match v.get_str("style") {
            Some(s) => s,
            None => "",
        };
        assert(style@ == widget_style(v@));
        if text::starts_with(scope, "#pywebio-scope-alas-instance-") && text::same(label, "alas") {
            out.aside_callback_id = Some(String::from_str(id));
        }
        if text::same(scope, "#pywebio-scope-menu") && text::contains(style, "--menu-Overview--") {
            out.menu_callback_id = Some(String::from_str(id));
        }
        if text::same(scope, "#pywebio-scope-scheduler_btn") {
            out.scheduler_callback_id = Some(String::from_str(id));
            out.scheduler_label = Some(String::from_str(label));
        }
    }
}

/// Notes the widgets among `v` and everything in it.
pub fn collect_buttons(v: &Json, out: &mut LocatedButtons)
    ensures
        final(out)@ == scanned(v@, old(out)@),
    decreases v,
{
    match v {
        Json::Object(members) => {
            note_button(v, out);
            let ghost start = out@;
            proof {
                object_model(*members);
            }
            let ghost all = members_view(members@);
            assert(start == noted(old(out)@, v@));
            let mut i: usize = 0;
            assert(all.take(0) =~= Seq::<(Seq<char>, JsonView)>::empty());
            while i < members.len()
                invariant
                    i <= members@.len(),
                    *v == Json::Object(*members),
                    all == members_view(members@),
                    out@ == scanned_members(all.take(i as int), start),
                decreases members@.len() - i,
            {
                proof {
                    assert(all.take(i + 1).drop_last() =~= all.take(i as int));
                    assert(all[i as int] == (members@[i as int].0@, members@[i as int].1@));
                    assert(all.take(i + 1)[i as int] == all[i as int]);
                    assert(decreases_to!(*v => v->Object_0));
                    assert(decreases_to!(*members => members@));
                    assert(decreases_to!(members@ => members@[i as int]));
                    assert(decreases_to!(members@[i as int] => members@[i as int].1));
                }
                collect_buttons(&members[i].1, out);
                i = i + 1;
            }
            assert(all.take(all.len() as int) =~= all);
        },
        Json::Array(items) => {
            let ghost start = out@;
            proof {
                array_model(*items);
            }
            let ghost all = items@.map_values(|j: Json| j@);
            let mut i: usize = 0;
            assert(all.take(0) =~= Seq::<JsonView>::empty());
            while i < items.len()
                invariant
                    i <= items@.len(),
                    *v == Json::Array(*items),
                    all == items@.map_values(|j: Json| j@),
                    out@ == scanned_items(all.take(i as int), start),
                decreases items@.len() - i,
            {
                proof {
                    assert(all.take(i + 1).drop_last() =~= all.take(i as int));
                    assert(all[i as int] == items@[i as int]@);
                    assert(all.take(i + 1)[i as int] == all[i as int]);
                    assert(decreases_to!(*v => v->Array_0));
                    assert(decreases_to!(*items => items@));
                    assert(decreases_to!(items@ => items@[i as int]));
                }
                collect_buttons(&items[i], out);
                i = i + 1;
            }
            assert(all.take(all.len() as int) =~= all);
        },
        _ => {},
    }
}

/// The widgets that the commands show: later ones replace earlier ones.
pub open spec fn located(messages: Seq<ServerMessageView>) -> LocatedButtonsView
    decreases messages.len(),
{
    if messages.len() == 0 {
        nothing_located()
    } else {
        let before = located(messages.drop_last());
        if messages.last().command == "output"@ {
            scanned(messages.last().spec, before)
        } else {
            before
        }
    }
}

/// Finds the widgets that the commands show. The texts of the language play no part in it.
pub fn locate_buttons(messages: &[ServerMessage], _labels: &ControlLabels) -> (r: LocatedButtons)
    ensures
        r@ == located(message_views(messages@)),
{
    let mut out = LocatedButtons::default();
    let ghost all = message_views(messages@);
    let mut i: usize = 0;
    assert(all.take(0) =~= Seq::<ServerMessageView>::empty());
    while i < messages.len()
        invariant
            i <= messages@.len(),
            all == message_views(messages@),
            out@ == located(all.take(i as int)),
        decreases messages@.len() - i,
    {
        proof {
            assert(all.take(i + 1).drop_last() =~= all.take(i as int));
            assert(all[i as int] == messages@[i as int]@);
            assert(all.take(i + 1).last() == all[i as int]);
        }
        if text::same(messages[i].command.as_str(), "output") {
            collect_buttons(&messages[i].spec, &mut out);
        }
        i = i + 1;
    }
    assert(all.take(all.len() as int) =~= all);
    out
}

/// The answer to a script that the server wants evaluated.
#[derive(Debug, PartialEq, Eq)]
pub enum JsReply {
    Null,
    Text(String),
}

/// The answer to a script.
pub enum JsReplyView {
    Null,
    Text(Seq<char>),
}

impl View for JsReply {
    type V = JsReplyView;

    open spec fn view(&self) -> JsReplyView {
        match self {
            JsReply::Null => JsReplyView::Null,
            JsReply::Text(t) => JsReplyView::Text(t@),
        }
    }
}

/// The answer that a command wants: a script that is to be evaluated is told that the page is
/// visible if it asks for that, and nothing else.
pub open spec fn reply_to(msg: ServerMessageView) -> Option<JsReplyView> {
    if msg.command == "run_script"@ && msg.spec.member_truth("eval"@) == Some(true) {
        if msg.spec.member_text("code"@) is Some && text::has_text(
            msg.spec.member_text("code"@)->0,
            "visibilityState"@,
        ) {
            Some(JsReplyView::Text("visible"@))
        } else {
            Some(JsReplyView::Null)
        }
    } else {
        None
    }
}

/// Decides which answer a command wants, if it wants one.
pub fn js_yield_reply(msg: &ServerMessage) -> (r: Option<JsReply>)
    ensures
        match r {
            Some(a) => reply_to(msg@) == Some(a@),
            None => reply_to(msg@) is None,
        },
{
    if !text::same(msg.command.as_str(), "run_script") {
        return None;
    }
    let evaluate = match msg.spec.get_bool("eval") {
        Some(b) => b,
        None => false,
    };
    if !evaluate {
        return None;
    }
    if let Some(code) = msg.spec.get_str("code") {
        if text::contains(code, "visibilityState") {
            return Some(JsReply::Text(String::from_str("visible")));
        }
    }
    Some(JsReply::Null)
}

/// An integer in decimal digits, with a minus sign before them if it is negative.
pub open spec fn signed_decimal(n: int) -> Seq<char> {
    if n < 0 {
        "-"@ + text::decimal_of((-n) as nat)
    } else {
        text::decimal_of(n as nat)
    }
}

/// An integer in decimal digits.
fn signed(n: i64) -> (r: String)
    ensures
        r@ == signed_decimal(n as int),
{
    if n < 0 {
        let magnitude: u64 = (-(n + 1)) as u64 + 1;
        let digits = text::decimal(magnitude);
        let mut r = String::from_str("-");
        r.append(digits.as_str());
        r
    } else {
        text::decimal(n as u64)
    }
}

/// An event of the client, as it is sent.
pub open spec fn event_text(event: Seq<char>, task_id: Seq<char>, data: Seq<char>) -> Seq<char> {
    "{\"data\":"@ + data + ",\"event\":\""@ + event + "\",\"task_id\":"@ + json_literal(task_id)
        + "}"@
}

/// An event of the client, as it is sent.
fn event_json(event: &str, task_id: &str, data: &str) -> (r: String)
    ensures
        r@ == event_text(event@, task_id@, data@),
{
    let id = quote(task_id);
    let mut r = String::from_str("{\"data\":");
    r.append(data);
    r.append(",\"event\":\"");
    r.append(event);
    r.append("\",\"task_id\":");
    r.append(id.as_str());
    r.append("}");
    r
}

/// The event of a click on a widget. `data` is the number of the button in it.
pub open spec fn click_text(callback_id: Seq<char>, data: int) -> Seq<char> {
    event_text("callback"@, callback_id, signed_decimal(data))
}

/// The event of a click on a widget.
pub fn callback_event(callback_id: &str, data: i64) -> (r: String)
    ensures
        r@ == click_text(callback_id@, data as int),
{
    let d = signed(data);
    event_json("callback", callback_id, d.as_str())
}

/// The event that answers a script.
pub open spec fn reply_text(task_id: Seq<char>, data: JsReplyView) -> Seq<char> {
    event_text(
        "js_yield"@,
        task_id,
        match data {
            JsReplyView::Null => "null"@,
            JsReplyView::Text(t) => json_literal(t),
        },
    )
}

/// The event that answers a script.
pub fn js_yield_event(task_id: &str, data: &JsReply) -> (r: String)
    ensures
        r@ == reply_text(task_id@, data@),
{
    match data {
        JsReply::Null => event_json("js_yield", task_id, "null"),
        JsReply::Text(t) => {
            let d = quote(t.as_str());
            event_json("js_yield", task_id, d.as_str())
        },
    }
}

/// The address of the socket.
pub fn socket_url(port: u16) -> (r: String)
    ensures
        r@ == "ws://127.0.0.1:"@ + text::decimal_of(port as nat) + "/?app=index"@,
{
    let p = text::decimal(port as u64);
    let mut r = String::from_str("ws://127.0.0.1:");
    r.append(p.as_str());
    r.append("/?app=index");
    r
}

/// The page that the client says it comes from.
pub fn socket_origin(port: u16) -> (r: String)
    ensures
        r@ == "http://127.0.0.1:"@ + text::decimal_of(port as nat),
{
    let p = text::decimal(port as u64);
    let mut r = String::from_str("http://127.0.0.1:");
    r.append(p.as_str());
    r
}

/// How far a session has come: what it waits for.
#[derive(Clone, Copy, Debug, PartialEq, Eq, Structural)]
pub enum Phase {
    /// The button of the instance.
    Home,
    /// The overview item of the menu.
    Menu,
    /// The scheduler button.
    Scheduler,
    /// The scheduler button was clicked.
    Confirm,
}

/// Why the scheduler button was not clicked.
#[derive(Clone, Copy, Debug, PartialEq, Eq, Structural)]
pub enum ClickError {
    Timeout(Phase),
    BinaryFrame,
    Closed,
    ReadFailed,
    WriteFailed,
}

/// What is to be done next in a session.
#[derive(Debug, PartialEq, Eq)]
pub enum ClickAction {
    /// Send this text, then read from the socket.
    Click(String),
    /// Send this text, then go on.
    Reply(String),
    /// Read from the socket.
    Read,
    /// Go on.
    Next,
    /// The button was clicked.
    Done,
    Fail(ClickError),
}

/// What is to be done next in a session.
pub enum ClickActionView {
    Click(Seq<char>),
    Reply(Seq<char>),
    Read,
    Next,
    Done,
    Fail(ClickError),
}

impl View for ClickAction {
    type V = ClickActionView;

    open spec fn view(&self) -> ClickActionView {
        match self {
            ClickAction::Click(t) => ClickActionView::Click(t@),
            ClickAction::Reply(t) => ClickActionView::Reply(t@),
            ClickAction::Read => ClickActionView::Read,
            ClickAction::Next => ClickActionView::Next,
            ClickAction::Done => ClickActionView::Done,
            ClickAction::Fail(e) => ClickActionView::Fail(*e),
        }
    }
}

/// What came from the socket other than a text.
#[derive(Clone, Copy, Debug, PartialEq, Eq, Structural)]
pub enum SocketEvent {
    Binary,
    Closed,
    /// Nothing that matters, or nothing at all in time.
    Idle,
    Broken,
}

/// A session on the socket.
#[derive(Debug)]
pub struct ClickSession {
    pub phase: Phase,
    pub seen: Vec<ServerMessage>,
    pub started: u64,
    pub deadline: u64,
    pub confirm_started: u64,
    /// A click was handed out and is not known to be written.
    pub unsent: bool,
    pub labels: ControlLabels,
    pub action: SchedulerAction,
}

/// A session on the socket.
pub struct ClickSessionView {
    pub phase: Phase,
    pub seen: Seq<ServerMessageView>,
    pub started: u64,
    pub deadline: u64,
    pub confirm_started: u64,
    pub unsent: bool,
    pub label_after: Seq<char>,
}

impl View for ClickSession {
    type V = ClickSessionView;

    open spec fn view(&self) -> ClickSessionView {
        ClickSessionView {
            phase: self.phase,
            seen: message_views(self.seen@),
            started: self.started,
            deadline: self.deadline,
            confirm_started: self.confirm_started,
            unsent: self.unsent,
            label_after: if self.action == SchedulerAction::Start {
                self.labels.stop@
            } else {
                self.labels.start@
            },
        }
    }
}

/// How long ago `then` was.
pub open spec fn since(then: u64, now: u64) -> int {
    if then <= now {
        now - then
    } else {
        0
    }
}

/// The click on the scheduler button was written.
pub open spec fn delivered(s: ClickSessionView) -> bool {
    s.phase == Phase::Confirm && !s.unsent
}

/// A session whose time comes to act, and what it does: a widget that is waited for is clicked as
/// soon as it is there, the first one not before `HOME_QUIESCE_MS`; once the scheduler button was
/// clicked it is only watched.
pub open spec fn advanced(s: ClickSessionView, now: u64) -> (ClickSessionView, ClickActionView) {
    let seen = located(s.seen);
    if now >= s.deadline {
        (
            s,
            if delivered(s) {
                ClickActionView::Done
            } else {
                ClickActionView::Fail(ClickError::Timeout(s.phase))
            },
        )
    } else {
        match s.phase {
            Phase::Home => if seen.aside is Some && since(s.started, now) >= HOME_QUIESCE_MS {
                (
                    ClickSessionView { phase: Phase::Menu, unsent: true, ..s },
                    ClickActionView::Click(click_text(seen.aside->0, 0)),
                )
            } else {
                (s, ClickActionView::Read)
            },
            Phase::Menu => if seen.menu is Some {
                (
                    ClickSessionView { phase: Phase::Scheduler, unsent: true, ..s },
                    ClickActionView::Click(click_text(seen.menu->0, 0)),
                )
            } else {
                (s, ClickActionView::Read)
            },
            Phase::Scheduler => if seen.scheduler is Some {
                (
                    ClickSessionView {
                        phase: Phase::Confirm,
                        confirm_started: now,
                        unsent: true,
                        ..s
                    },
                    ClickActionView::Click(click_text(seen.scheduler->0, 0)),
                )
            } else {
                (s, ClickActionView::Read)
            },
            Phase::Confirm => if delivered(s) && (since(s.confirm_started, now)
                >= CONFIRM_WINDOW_MS || (seen.scheduler is Some && (match seen.label {
                Some(l) => l,
                None => Seq::empty(),
            }) == s.label_after)) {
                (s, ClickActionView::Done)
            } else {
                (s, ClickActionView::Read)
            },
        }
    }
}

/// A session after a click was written: the button is watched from then on.
pub open spec fn click_sent(s: ClickSessionView, now: u64) -> ClickSessionView {
    ClickSessionView { confirm_started: now, unsent: false, ..s }
}

/// A session after a command, and what it does.
pub open spec fn told(s: ClickSessionView, msg: ServerMessageView) -> (
    ClickSessionView,
    ClickActionView,
) {
    (
        ClickSessionView { seen: s.seen.push(msg), ..s },
        match reply_to(msg) {
            Some(data) => ClickActionView::Reply(reply_text(msg.task_id, data)),
            None => ClickActionView::Next,
        },
    )
}

/// What a session does after something else than a text came.
pub open spec fn reaction(s: ClickSessionView, event: SocketEvent) -> ClickActionView {
    match event {
        SocketEvent::Idle => ClickActionView::Next,
        _ => if delivered(s) {
            ClickActionView::Done
        } else {
            ClickActionView::Fail(
                match event {
                    SocketEvent::Binary => ClickError::BinaryFrame,
                    SocketEvent::Closed => ClickError::Closed,
                    _ => ClickError::ReadFailed,
                },
            )
        },
    }
}

/// What a session does after a text that it handed out could not be written: a click that was
/// delivered before counts all the same.
pub open spec fn unwritten(s: ClickSessionView) -> ClickActionView {
    if delivered(s) {
        ClickActionView::Done
    } else {
        ClickActionView::Fail(ClickError::WriteFailed)
    }
}

impl ClickSession {
    /// Begins a session of at most `timeout_ms` to click the scheduler button.
    pub fn click_scheduler(
        action: SchedulerAction,
        labels: ControlLabels,
        now: u64,
        timeout_ms: u64,
    ) -> (r: ClickSession)
        ensures
            r@ == (ClickSessionView {
                phase: Phase::Home,
                seen: Seq::empty(),
                started: now,
                deadline: if now + timeout_ms <= u64::MAX {
                    (now + timeout_ms) as u64
                } else {
                    u64::MAX
                },
                confirm_started: now,
                unsent: false,
                label_after: if action == SchedulerAction::Start {
                    labels.stop@
                } else {
                    labels.start@
                },
            }),
    {
        let deadline: u64 = if now <= u64::MAX - timeout_ms {
            now + timeout_ms
        } else {
            u64::MAX
        };
        let r = ClickSession {
            phase: Phase::Home,
            seen: Vec::new(),
            started: now,
            deadline,
            confirm_started: now,
            unsent: false,
            labels,
            action,
        };
        assert(message_views(r.seen@) =~= Seq::<ServerMessageView>::empty());
        r
    }

    /// Lets the session act.
    pub fn advance(&mut self, now: u64) -> (r: ClickAction)
        ensures
            (final(self)@, r@) == advanced(old(self)@, now),
    {
        if now >= self.deadline {
            if self.phase == Phase::Confirm && !self.unsent {
                return ClickAction::Done;
            }
            return ClickAction::Fail(ClickError::Timeout(self.phase));
        }
        if self.phase == Phase::Confirm && self.unsent {
            return ClickAction::Read;
        }
        if self.phase == Phase::Confirm && self.confirm_started <= now && now - self.confirm_started
            >= CONFIRM_WINDOW_MS {
            return ClickAction::Done;
        }
        let seen = locate_buttons(&self.seen, &self.labels);
        match self.phase {
            Phase::Home => {
                if let Some(id) = &seen.aside_callback_id {
                    if self.started <= now && now - self.started >= HOME_QUIESCE_MS {
                        self.phase = Phase::Menu;
                        self.unsent = true;
                        return ClickAction::Click(callback_event(id.as_str(), 0));
                    }
                }
                ClickAction::Read
            },
            Phase::Menu => {
                if let Some(id) = &seen.menu_callback_id {
                    self.phase = Phase::Scheduler;
                    self.unsent = true;
                    return ClickAction::Click(callback_event(id.as_str(), 0));
                }
                ClickAction::Read
            },
            Phase::Scheduler => {
                if let Some(id) = &seen.scheduler_callback_id {
                    self.phase = Phase::Confirm;
                    self.confirm_started = now;
                    self.unsent = true;
                    return ClickAction::Click(callback_event(id.as_str(), 0));
                }
                ClickAction::Read
            },
            Phase::Confirm => {
                if let Some((_, label)) = seen.scheduler_button() {
                    if text::same(label.as_str(), self.action.label_after(&self.labels)) {
                        return ClickAction::Done;
                    }
                }
                ClickAction::Read
            },
        }
    }

    /// Takes notice that the click was written that `advance` has handed out, and when.
    pub fn sent(&mut self, now: u64)
        ensures
            final(self)@ == click_sent(old(self)@, now),
    {
        self.confirm_started = now;
        self.unsent = false;
    }

    /// Takes notice that a text could not be written that was handed out: a click, or a reply. That
    /// fails the session unless the scheduler button was clicked before.
    pub fn write_failed(&self) -> (r: ClickAction)
        ensures
            r@ == unwritten(self@),
    {
        if self.phase == Phase::Confirm && !self.unsent {
            ClickAction::Done
        } else {
            ClickAction::Fail(ClickError::WriteFailed)
        }
    }

    /// Takes a command of the server.
    pub fn take_message(&mut self, msg: ServerMessage) -> (r: ClickAction)
        ensures
            (final(self)@, r@) == told(old(self)@, msg@),
    {
        let action = match js_yield_reply(&msg) {
            Some(data) => ClickAction::Reply(js_yield_event(msg.task_id.as_str(), &data)),
            None => ClickAction::Next,
        };
        let ghost before = self.seen@;
        self.seen.push(msg);
        assert(message_views(self.seen@) =~= message_views(before).push(msg@));
        action
    }

    /// Takes a text from the socket. One that is no command is passed over.
    pub fn take_text(&mut self, frame: &str) -> (r: ClickAction)
        ensures
            match frame_message(frame@) {
                Ok(msg) => (final(self)@, r@) == told(old(self)@, msg),
                Err(_) => final(self)@ == old(self)@ && r@ == ClickActionView::Next,
            },
    {
        match parse_server_message(frame) {
            Ok(msg) => self.take_message(msg),
            Err(_) => ClickAction::Next,
        }
    }

    /// Takes something else than a text from the socket.
    pub fn take_event(&self, event: SocketEvent) -> (r: ClickAction)
        ensures
            r@ == reaction(self@, event),
    {
        match event {
            SocketEvent::Idle => ClickAction::Next,
            _ => {
                if self.phase == Phase::Confirm && !self.unsent {
                    return ClickAction::Done;
                }
                let e = match event {
                    SocketEvent::Binary => ClickError::BinaryFrame,
                    SocketEvent::Closed => ClickError::Closed,
                    _ => ClickError::ReadFailed,
                };
                ClickAction::Fail(e)
            },
        }
    }
}

/// One step of a session.
pub enum SessionStep {
    Advance { now: u64 },
    Sent { now: u64 },
    WriteFailed,
    Command(ServerMessageView),
    Event(SocketEvent),
}

/// A session after one step, and what it does.
pub open spec fn session_step(s: ClickSessionView, step: SessionStep) -> (
    ClickSessionView,
    ClickActionView,
) {
    match step {
        SessionStep::Advance { now } => advanced(s, now),
        SessionStep::Sent { now } => (click_sent(s, now), ClickActionView::Next),
        SessionStep::WriteFailed => (s, unwritten(s)),
        SessionStep::Command(msg) => told(s, msg),
        SessionStep::Event(e) => (s, reaction(s, e)),
    }
}

/// A session after a number of steps.
pub open spec fn session_run(s: ClickSessionView, steps: Seq<SessionStep>) -> ClickSessionView
    decreases steps.len(),
{
    if steps.len() == 0 {
        s
    } else {
        session_step(session_run(s, steps.drop_last()), steps.last()).0
    }
}

/// How often the scheduler button is clicked in a number of steps.
pub open spec fn scheduler_clicks(s: ClickSessionView, steps: Seq<SessionStep>) -> nat
    decreases steps.len(),
{
    if steps.len() == 0 {
        0
    } else {
        let before = session_run(s, steps.drop_last());
        let clicks = scheduler_clicks(s, steps.drop_last());
        if before.phase == Phase::Scheduler && session_step(before, steps.last()).1 is Click {
            clicks + 1
        } else {
            clicks
        }
    }
}

/// The scheduler button is clicked at most once in a session, whatever comes from the server and
/// however long it takes; and it was clicked once exactly if the session has come to watch it.
pub proof fn the_scheduler_is_clicked_at_most_once(s: ClickSessionView, steps: Seq<SessionStep>)
    requires
        s.phase != Phase::Confirm,
    ensures
        scheduler_clicks(s, steps) == (if session_run(s, steps).phase == Phase::Confirm {
            1nat
        } else {
            0nat
        }),
    decreases steps.len(),
{
    if steps.len() > 0 {
        the_scheduler_is_clicked_at_most_once(s, steps.drop_last());
    }
}

/// Once the click on the scheduler button was written nothing is clicked any more, and no step of
/// the session fails, whatever comes from the server and whatever cannot be written to it.
pub proof fn a_delivered_click_counts(
    s: ClickSessionView,
    steps: Seq<SessionStep>,
    step: SessionStep,
)
    requires
        delivered(s),
    ensures
        delivered(session_run(s, steps)),
        session_step(session_run(s, steps), step).1 !is Click,
        session_step(session_run(s, steps), step).1 !is Fail,
    decreases steps.len(),
{
    if steps.len() > 0 {
        a_delivered_click_counts(s, steps.drop_last(), steps.last());
    }
}

/// A session whose click was written ends well as soon as it acts again after the button was watched
/// for long enough, or its time is up.
pub proof fn a_delivered_session_ends(s: ClickSessionView, now: u64)
    requires
        delivered(s),
        now >= s.deadline || now >= s.confirm_started + CONFIRM_WINDOW_MS,
    ensures
        session_step(s, SessionStep::Advance { now }).1 is Done,
{
}

/// A session ends well only where the click on the scheduler button was written, and it was clicked
/// exactly once by then.
pub proof fn success_means_one_click(
    s: ClickSessionView,
    steps: Seq<SessionStep>,
    step: SessionStep,
)
    requires
        s.phase != Phase::Confirm,
        session_step(session_run(s, steps), step).1 is Done,
    ensures
        delivered(session_run(s, steps)),
        scheduler_clicks(s, steps) == 1,
{
    the_scheduler_is_clicked_at_most_once(s, steps);
}

/// A text that could not be written before the click on the scheduler button was, that click among
/// them, fails the session.
pub proof fn an_undelivered_click_fails(s: ClickSessionView)
    requires
        !delivered(s),
    ensures
        session_step(s, SessionStep::WriteFailed).1 == ClickActionView::Fail(
            ClickError::WriteFailed,
        ),
{
}

/// The page is left alone until it had time to come up.
pub proof fn the_first_click_waits(s: ClickSessionView, now: u64)
    requires
        s.phase == Phase::Home,
        advanced(s, now).1 is Click,
    ensures
        now >= s.started + HOME_QUIESCE_MS,
{
}

/// Whether the scheduler button is clicked does not depend on its text, nor on the language.
pub proof fn the_click_ignores_labels(a: ClickSessionView, b: ClickSessionView, now: u64)
    requires
        a.phase != Phase::Confirm,
        b == (ClickSessionView { label_after: b.label_after, ..a }),
    ensures
        advanced(a, now).1 == advanced(b, now).1,
        advanced(a, now).0.phase == advanced(b, now).0.phase,
{
}

/// A widget that was seen stays known, whatever comes later.
pub proof fn located_widgets_stay(v: JsonView, out: LocatedButtonsView)
    ensures
        out.aside is Some ==> scanned(v, out).aside is Some,
        out.menu is Some ==> scanned(v, out).menu is Some,
        out.scheduler is Some ==> scanned(v, out).scheduler is Some,
    decreases v,
{
    match v {
        JsonView::Object(members) => {
            located_in_members_stay(members, noted(out, v));
        },
        JsonView::Array(items) => {
            located_in_items_stay(items, out);
        },
        _ => {},
    }
}

proof fn located_in_members_stay(members: Seq<(Seq<char>, JsonView)>, out: LocatedButtonsView)
    ensures
        out.aside is Some ==> scanned_members(members, out).aside is Some,
        out.menu is Some ==> scanned_members(members, out).menu is Some,
        out.scheduler is Some ==> scanned_members(members, out).scheduler is Some,
    decreases members,
{
    if members.len() > 0 {
        located_in_members_stay(members.drop_last(), out);
        located_widgets_stay(
            members[members.len() - 1].1,
            scanned_members(members.drop_last(), out),
        );
    }
}

proof fn located_in_items_stay(items: Seq<JsonView>, out: LocatedButtonsView)
    ensures
        out.aside is Some ==> scanned_items(items, out).aside is Some,
        out.menu is Some ==> scanned_items(items, out).menu is Some,
        out.scheduler is Some ==> scanned_items(items, out).scheduler is Some,
    decreases items,
{
    if items.len() > 0 {
        located_in_items_stay(items.drop_last(), out);
        located_widgets_stay(items[items.len() - 1], scanned_items(items.drop_last(), out));
    }
}

/// The value `w` is `v`, or stands somewhere in it.
pub open spec fn holds(v: JsonView, w: JsonView) -> bool
    decreases v,
{
    v == w || match v {
        JsonView::Object(members) => exists|i: int|
            0 <= i < members.len() && holds((#[trigger] members[i]).1, w),
        JsonView::Array(items) => exists|i: int|
            0 <= i < items.len() && holds(#[trigger] items[i], w),
        _ => false,
    }
}

/// The value is a widget with buttons that is known as `id`, in the place `scope`.
pub open spec fn is_widget(w: JsonView, id: Seq<char>, scope: Seq<char>) -> bool {
    &&& w.member("type"@) == Some(JsonView::Str("buttons"@))
    &&& w.member("callback_id"@) == Some(JsonView::Str(id))
    &&& w.member("scope"@) == Some(JsonView::Str(scope))
}

/// The first button of the widget has the text `label`.
pub open spec fn has_first_label(w: JsonView, label: Seq<char>) -> bool {
    &&& w.member("buttons"@) is Some
    &&& w.member("buttons"@)->0 is Array
    &&& w.member("buttons"@)->0->Array_0.len() > 0
    &&& w.member("buttons"@)->0->Array_0[0].member("label"@) == Some(JsonView::Str(label))
}

/// The widget `w` is the button of the instance that the launcher controls: it stands in the place of
/// an instance, and its first button is called `alas`.
pub open spec fn is_instance_button(w: JsonView, id: Seq<char>) -> bool {
    exists|scope: Seq<char>|
        #[trigger] is_widget(w, id, scope) && text::begins(
            scope,
            "#pywebio-scope-alas-instance-"@,
        ) && has_first_label(w, "alas"@)
}

/// The widget `w` is the overview item of the menu: it stands in the menu, and its style says so.
pub open spec fn is_overview_item(w: JsonView, id: Seq<char>) -> bool {
    &&& is_widget(w, id, "#pywebio-scope-menu"@)
    &&& w.member("style"@) is Some
    &&& w.member("style"@)->0 is Str
    &&& text::has_text(w.member("style"@)->0->Str_0, "--menu-Overview--"@)
}

/// The widget `w` is the scheduler button with the text `label`: it stands in its own place. One
/// without a text counts as one with an empty text.
pub open spec fn is_scheduler_button(w: JsonView, id: Seq<char>, label: Seq<char>) -> bool {
    &&& is_widget(w, id, "#pywebio-scope-scheduler_btn"@)
    &&& has_first_label(w, label) || (label == Seq::<char>::empty() && forall|l: Seq<char>|
        !#[trigger] has_first_label(w, l))
}

/// A value that may be a widget changes what is noted exactly by what it is: the button of the
/// instance, the overview item or the scheduler button takes the place of the one that was noted
/// before, and everything else is left as it was.
pub proof fn what_is_noted_of_a_widget(out: LocatedButtonsView, w: JsonView)
    ensures
        ({
            let after = noted(out, w);
            &&& forall|id: Seq<char>| #[trigger]
                is_instance_button(w, id) ==> after.aside == Some(id)
            &&& (forall|id: Seq<char>| !#[trigger] is_instance_button(w, id)) ==> after.aside
                == out.aside
            &&& forall|id: Seq<char>| #[trigger] is_overview_item(w, id) ==> after.menu == Some(id)
            &&& (forall|id: Seq<char>| !#[trigger] is_overview_item(w, id)) ==> after.menu
                == out.menu
            &&& forall|id: Seq<char>, label: Seq<char>| #[trigger]
                is_scheduler_button(w, id, label) ==> after.scheduler == Some(id) && after.label
                    == Some(label)
            &&& (forall|id: Seq<char>, label: Seq<char>| !#[trigger]
                is_scheduler_button(w, id, label)) ==> after.scheduler == out.scheduler
                && after.label == out.label
        }),
{
    let after = noted(out, w);
    reveal_strlit("alas");
    reveal_strlit("--menu-Overview--");
    assert("alas"@.len() > 0);
    assert(text::has_text(Seq::<char>::empty(), "--menu-Overview--"@) ==> false) by {
        if text::has_text(Seq::<char>::empty(), "--menu-Overview--"@) {
            let i = choose|i: int|
                text::occurs_at(Seq::<char>::empty(), "--menu-Overview--"@, i);
            assert(text::occurs_at(Seq::<char>::empty(), "--menu-Overview--"@, i));
        }
    }
    if w.member_text("callback_id"@) is Some && w.member_text("scope"@) is Some {
        let id = w.member_text("callback_id"@)->0;
        let scope = w.member_text("scope"@)->0;
        if w.member_text("type"@) == Some("buttons"@) {
            assert(is_widget(w, id, scope));
            if button_label(w) == "alas"@ {
                assert(has_first_label(w, "alas"@));
            }
            if scope == "#pywebio-scope-scheduler_btn"@ {
                assert(has_first_label(w, button_label(w)) || button_label(w) =~= Seq::<
                    char,
                >::empty());
                assert(is_scheduler_button(w, id, button_label(w)));
            }
            if text::begins(scope, "#pywebio-scope-alas-instance-"@) && button_label(w)
                == "alas"@ {
                assert(is_instance_button(w, id));
            }
            if scope == "#pywebio-scope-menu"@ && text::has_text(
                widget_style(w),
                "--menu-Overview--"@,
            ) {
                assert(is_overview_item(w, id));
            }
        }
    }
}

/// What is noted is a widget that was seen in a command that shows something: the instance is one
/// called `alas`, in the place of an instance; the overview item is the one of the menu; and the
/// scheduler button is the one in its place.
pub proof fn what_is_located_was_shown(messages: Seq<ServerMessageView>)
    ensures
        ({
            let out = located(messages);
            &&& out.aside is Some ==> exists|m: int, w: JsonView|
                {
                    &&& 0 <= m < messages.len()
                    &&& messages[m].command == "output"@
                    &&& #[trigger] holds(messages[m].spec, w)
                    &&& is_instance_button(w, out.aside->0)
                }
            &&& out.menu is Some ==> exists|m: int, w: JsonView|
                {
                    &&& 0 <= m < messages.len()
                    &&& messages[m].command == "output"@
                    &&& #[trigger] holds(messages[m].spec, w)
                    &&& is_overview_item(w, out.menu->0)
                }
            &&& out.scheduler is Some ==> exists|m: int, w: JsonView|
                {
                    &&& 0 <= m < messages.len()
                    &&& messages[m].command == "output"@
                    &&& #[trigger] holds(messages[m].spec, w)
                    &&& is_scheduler_button(w, out.scheduler->0, out.label->0)
                }
            &&& out.scheduler is Some <==> out.label is Some
        }),
    decreases messages.len(),
{
    if messages.len() > 0 {
        let front = messages.drop_last();
        what_is_located_was_shown(front);
        let before = located(front);
        let out = located(messages);
        let n = messages.len() - 1;
        assert(forall|m: int| 0 <= m < front.len() ==> front[m] == #[trigger] messages[m]);
        if messages.last().command == "output"@ {
            assert(messages[n] == messages.last());
            scanned_was_held(messages.last().spec, before);
        }
        if out.aside is Some && out.aside == before.aside {
            let (m, w) = choose|m: int, w: JsonView|
                {
                    &&& 0 <= m < front.len()
                    &&& front[m].command == "output"@
                    &&& #[trigger] holds(front[m].spec, w)
                    &&& is_instance_button(w, before.aside->0)
                };
            assert(holds(messages[m].spec, w));
        } else if out.aside is Some {
            let w = choose|w: JsonView|
                #[trigger] holds(messages.last().spec, w) && is_instance_button(w, out.aside->0);
            assert(holds(messages[n].spec, w));
        }
        if out.menu is Some && out.menu == before.menu {
            let (m, w) = choose|m: int, w: JsonView|
                {
                    &&& 0 <= m < front.len()
                    &&& front[m].command == "output"@
                    &&& #[trigger] holds(front[m].spec, w)
                    &&& is_overview_item(w, before.menu->0)
                };
            assert(holds(messages[m].spec, w));
        } else if out.menu is Some {
            let w = choose|w: JsonView|
                #[trigger] holds(messages.last().spec, w) && is_overview_item(w, out.menu->0);
            assert(holds(messages[n].spec, w));
        }
        if out.scheduler is Some && out.scheduler == before.scheduler && out.label
            == before.label {
            let (m, w) = choose|m: int, w: JsonView|
                {
                    &&& 0 <= m < front.len()
                    &&& front[m].command == "output"@
                    &&& #[trigger] holds(front[m].spec, w)
                    &&& is_scheduler_button(w, before.scheduler->0, before.label->0)
                };
            assert(holds(messages[m].spec, w));
        } else if out.scheduler is Some {
            let w = choose|w: JsonView|
                #[trigger] holds(messages.last().spec, w) && is_scheduler_button(
                    w,
                    out.scheduler->0,
                    out.label->0,
                );
            assert(holds(messages[n].spec, w));
        }
    }
}

/// What `after` has other than `before` is of a widget that stands in `v`.
pub open spec fn changed_within(
    v: JsonView,
    before: LocatedButtonsView,
    after: LocatedButtonsView,
) -> bool {
    &&& after.aside == before.aside || (after.aside is Some && exists|w: JsonView|
        #[trigger] holds(v, w) && is_instance_button(w, after.aside->0))
    &&& after.menu == before.menu || (after.menu is Some && exists|w: JsonView|
        #[trigger] holds(v, w) && is_overview_item(w, after.menu->0))
    &&& (after.scheduler == before.scheduler && after.label == before.label) || (
    after.scheduler is Some && after.label is Some && exists|w: JsonView|
        #[trigger] holds(v, w) && is_scheduler_button(w, after.scheduler->0, after.label->0))
}

proof fn changed_within_part(
    v: JsonView,
    part: JsonView,
    a: LocatedButtonsView,
    b: LocatedButtonsView,
    c: LocatedButtonsView,
)
    requires
        changed_within(v, a, b),
        changed_within(part, b, c),
        forall|w: JsonView| #[trigger] holds(part, w) ==> holds(v, w),
    ensures
        changed_within(v, a, c),
{
    if c.aside != b.aside {
        let w = choose|w: JsonView|
            #[trigger] holds(part, w) && is_instance_button(w, c.aside->0);
        assert(holds(v, w));
    }
    if c.menu != b.menu {
        let w = choose|w: JsonView| #[trigger] holds(part, w) && is_overview_item(w, c.menu->0);
        assert(holds(v, w));
    }
    if c.scheduler != b.scheduler || c.label != b.label {
        let w = choose|w: JsonView|
            #[trigger] holds(part, w) && is_scheduler_button(w, c.scheduler->0, c.label->0);
        assert(holds(v, w));
    }
}

proof fn scanned_was_held(v: JsonView, out: LocatedButtonsView)
    ensures
        changed_within(v, out, scanned(v, out)),
    decreases v, 1int, 0int,
{
    match v {
        JsonView::Object(members) => {
            what_is_noted_of_a_widget(out, v);
            assert(holds(v, v));
            let first = noted(out, v);
            assert(changed_within(v, out, first)) by {
                if first.aside != out.aside {
                    let id = choose|id: Seq<char>| #[trigger] is_instance_button(v, id);
                    assert(is_instance_button(v, id));
                }
                if first.menu != out.menu {
                    let id = choose|id: Seq<char>| #[trigger] is_overview_item(v, id);
                    assert(is_overview_item(v, id));
                }
                if first.scheduler != out.scheduler || first.label != out.label {
                    let (id, label) = choose|id: Seq<char>, label: Seq<char>|
                        #[trigger] is_scheduler_button(v, id, label);
                    assert(is_scheduler_button(v, id, label));
                }
            }
            members_were_held(v, members, members.len() as int, out, first);
            assert(members.take(members.len() as int) =~= members);
        },
        JsonView::Array(items) => {
            items_were_held(v, items, items.len() as int, out);
            assert(items.take(items.len() as int) =~= items);
        },
        _ => {},
    }
}

proof fn members_were_held(
    v: JsonView,
    members: Seq<(Seq<char>, JsonView)>,
    k: int,
    out: LocatedButtonsView,
    first: LocatedButtonsView,
)
    requires
        v == JsonView::Object(members),
        0 <= k <= members.len(),
        changed_within(v, out, first),
    ensures
        changed_within(v, out, scanned_members(members.take(k), first)),
    decreases v, 0int, k,
{
    if k > 0 {
        members_were_held(v, members, k - 1, out, first);
        let front = members.take(k);
        assert(front.drop_last() =~= members.take(k - 1));
        let part = members[k - 1].1;
        assert(front[front.len() - 1].1 == part);
        assert(decreases_to!(v => v->Object_0));
        assert(decreases_to!(members => members[k - 1]));
        assert(decreases_to!(members[k - 1] => part));
        let before = scanned_members(members.take(k - 1), first);
        scanned_was_held(part, before);
        assert forall|w: JsonView| #[trigger] holds(part, w) implies holds(v, w) by {
            reveal_with_fuel(holds, 2);
            assert(holds(v->Object_0[k - 1].1, w));
        }
        changed_within_part(v, part, out, before, scanned(part, before));
    }
}

proof fn items_were_held(v: JsonView, items: Seq<JsonView>, k: int, out: LocatedButtonsView)
    requires
        v == JsonView::Array(items),
        0 <= k <= items.len(),
    ensures
        changed_within(v, out, scanned_items(items.take(k), out)),
    decreases v, 0int, k,
{
    if k > 0 {
        items_were_held(v, items, k - 1, out);
        let front = items.take(k);
        assert(front.drop_last() =~= items.take(k - 1));
        let part = items[k - 1];
        assert(front[front.len() - 1] == part);
        assert(decreases_to!(v => v->Array_0));
        assert(decreases_to!(items => part));
        let before = scanned_items(items.take(k - 1), out);
        scanned_was_held(part, before);
        assert forall|w: JsonView| #[trigger] holds(part, w) implies holds(v, w) by {
            reveal_with_fuel(holds, 2);
            assert(holds(v->Array_0[k - 1], w));
        }
        changed_within_part(v, part, out, before, scanned(part, before));
    }
}

/// No widget that a command shows is missed, however deep it stands: one that is there is located, or
/// another of its kind.
pub proof fn what_is_shown_is_located(messages: Seq<ServerMessageView>, m: int, w: JsonView)
    requires
        0 <= m < messages.len(),
        messages[m].command == "output"@,
        holds(messages[m].spec, w),
    ensures
        (exists|id: Seq<char>| #[trigger] is_instance_button(w, id)) ==> located(messages).aside
            is Some,
        (exists|id: Seq<char>| #[trigger] is_overview_item(w, id)) ==> located(messages).menu
            is Some,
        (exists|id: Seq<char>, label: Seq<char>| #[trigger] is_scheduler_button(w, id, label))
            ==> located(messages).scheduler is Some,
    decreases messages.len(),
{
    let front = messages.drop_last();
    if m == messages.len() - 1 {
        held_is_scanned(messages[m].spec, w, located(front));
    } else {
        what_is_shown_is_located(front, m, w);
        located_widgets_stay(messages.last().spec, located(front));
    }
}

proof fn held_is_scanned(v: JsonView, w: JsonView, out: LocatedButtonsView)
    requires
        holds(v, w),
    ensures
        (exists|id: Seq<char>| #[trigger] is_instance_button(w, id)) ==> scanned(v, out).aside
            is Some,
        (exists|id: Seq<char>| #[trigger] is_overview_item(w, id)) ==> scanned(v, out).menu
            is Some,
        (exists|id: Seq<char>, label: Seq<char>| #[trigger] is_scheduler_button(w, id, label))
            ==> scanned(v, out).scheduler is Some,
    decreases v, 1int, 0int,
{
    match v {
        JsonView::Object(members) => {
            what_is_noted_of_a_widget(out, v);
            let first = noted(out, v);
            if v == w {
                located_in_members_stay(members, first);
            } else {
                let i = choose|i: int|
                    0 <= i < members.len() && holds((#[trigger] members[i]).1, w);
                held_in_members_is_scanned(v, members, members.len() as int, i, w, first);
                assert(members.take(members.len() as int) =~= members);
            }
        },
        JsonView::Array(items) => {
            if v != w {
                let i = choose|i: int| 0 <= i < items.len() && holds(#[trigger] items[i], w);
                held_in_items_is_scanned(v, items, items.len() as int, i, w, out);
                assert(items.take(items.len() as int) =~= items);
            }
        },
        _ => {},
    }
}

proof fn held_in_members_is_scanned(
    v: JsonView,
    members: Seq<(Seq<char>, JsonView)>,
    k: int,
    i: int,
    w: JsonView,
    out: LocatedButtonsView,
)
    requires
        v == JsonView::Object(members),
        0 <= i < k <= members.len(),
        holds(members[i].1, w),
    ensures
        (exists|id: Seq<char>| #[trigger] is_instance_button(w, id)) ==> scanned_members(
            members.take(k),
            out,
        ).aside is Some,
        (exists|id: Seq<char>| #[trigger] is_overview_item(w, id)) ==> scanned_members(
            members.take(k),
            out,
        ).menu is Some,
        (exists|id: Seq<char>, label: Seq<char>| #[trigger] is_scheduler_button(w, id, label))
            ==> scanned_members(members.take(k), out).scheduler is Some,
    decreases v, 0int, k,
{
    let front = members.take(k);
    let part = members[k - 1].1;
    assert(front.drop_last() =~= members.take(k - 1));
    assert(front[front.len() - 1].1 == part);
    let before = scanned_members(members.take(k - 1), out);
    if i == k - 1 {
        assert(decreases_to!(v => v->Object_0));
        assert(decreases_to!(members => members[k - 1]));
        assert(decreases_to!(members[k - 1] => part));
        held_is_scanned(part, w, before);
    } else {
        held_in_members_is_scanned(v, members, k - 1, i, w, out);
        located_widgets_stay(part, before);
    }
}

proof fn held_in_items_is_scanned(
    v: JsonView,
    items: Seq<JsonView>,
    k: int,
    i: int,
    w: JsonView,
    out: LocatedButtonsView,
)
    requires
        v == JsonView::Array(items),
        0 <= i < k <= items.len(),
        holds(items[i], w),
    ensures
        (exists|id: Seq<char>| #[trigger] is_instance_button(w, id)) ==> scanned_items(
            items.take(k),
            out,
        ).aside is Some,
        (exists|id: Seq<char>| #[trigger] is_overview_item(w, id)) ==> scanned_items(
            items.take(k),
            out,
        ).menu is Some,
        (exists|id: Seq<char>, label: Seq<char>| #[trigger] is_scheduler_button(w, id, label))
            ==> scanned_items(items.take(k), out).scheduler is Some,
    decreases v, 0int, k,
{
    let front = items.take(k);
    let part = items[k - 1];
    assert(front.drop_last() =~= items.take(k - 1));
    assert(front[front.len() - 1] == part);
    let before = scanned_items(items.take(k - 1), out);
    if i == k - 1 {
        assert(decreases_to!(v => v->Array_0));
        assert(decreases_to!(items => part));
        held_is_scanned(part, w, before);
    } else {
        held_in_items_is_scanned(v, items, k - 1, i, w, out);
        located_widgets_stay(part, before);
    }
}

/// What a document shows is noted in the order in which it stands there: one part of an array after
/// the other, and the members of an object behind the object itself.
pub proof fn widgets_are_noted_in_order(
    a: Seq<JsonView>,
    b: Seq<JsonView>,
    members: Seq<(Seq<char>, JsonView)>,
    v: JsonView,
    out: LocatedButtonsView,
)
    ensures
        scanned(JsonView::Array(a + b), out) == scanned(
            JsonView::Array(b),
            scanned(JsonView::Array(a), out),
        ),
        scanned(JsonView::Array(seq![v]), out) == scanned(v, out),
        scanned(JsonView::Array(Seq::empty()), out) == out,
        scanned(JsonView::Object(members), out) == scanned(
            JsonView::Array(members.map_values(|m: (Seq<char>, JsonView)| m.1)),
            noted(out, JsonView::Object(members)),
        ),
        v !is Object && v !is Array ==> scanned(v, out) == out,
{
    items_are_noted_in_order(a, b, out);
    assert(seq![v].drop_last() =~= Seq::<JsonView>::empty());
    assert(seq![v][0] == v);
    reveal_with_fuel(scanned_items, 3);
    assert(scanned_items(seq![v], out) == scanned(v, out));
    members_are_noted_in_order(members, noted(out, JsonView::Object(members)));
}

proof fn items_are_noted_in_order(a: Seq<JsonView>, b: Seq<JsonView>, out: LocatedButtonsView)
    ensures
        scanned_items(a + b, out) == scanned_items(b, scanned_items(a, out)),
    decreases b.len(),
{
    if b.len() == 0 {
        assert(a + b =~= a);
    } else {
        items_are_noted_in_order(a, b.drop_last(), out);
        assert((a + b).drop_last() =~= a + b.drop_last());
        assert((a + b)[(a + b).len() - 1] == b[b.len() - 1]);
    }
}

proof fn members_are_noted_in_order(members: Seq<(Seq<char>, JsonView)>, out: LocatedButtonsView)
    ensures
        scanned_members(members, out) == scanned_items(
            members.map_values(|m: (Seq<char>, JsonView)| m.1),
            out,
        ),
    decreases members.len(),
{
    let values = members.map_values(|m: (Seq<char>, JsonView)| m.1);
    if members.len() > 0 {
        members_are_noted_in_order(members.drop_last(), out);
        assert(values.drop_last() =~= members.drop_last().map_values(
            |m: (Seq<char>, JsonView)| m.1,
        ));
        assert(values[values.len() - 1] == members[members.len() - 1].1);
    }
}

/// What came later counts: where the last command shows a widget, the one that is located is one that
/// it shows. A command that shows nothing changes nothing.
pub proof fn the_last_widget_counts(messages: Seq<ServerMessageView>, m: ServerMessageView)
    ensures
        ({
            let before = located(messages);
            let after = located(messages.push(m));
            &&& m.command != "output"@ ==> after == before
            &&& m.command == "output"@ ==> after == scanned(m.spec, before)
            &&& m.command == "output"@ ==> changed_within(m.spec, before, after)
        }),
{
    assert(messages.push(m).drop_last() =~= messages);
    scanned_was_held(m.spec, located(messages));
}

/// What a session does as soon as it has its turn: it gives up when its time is up; before that it
/// clicks the widget that it waits for if it was seen, the first one not before the page had its time,
/// and waits for the next one; and after the last one it only watches the button.
pub proof fn what_a_session_does(s: ClickSessionView, now: u64)
    ensures
        ({
            let seen = located(s.seen);
            let (after, action) = advanced(s, now);
            let click = |id: Seq<char>|
                ClickActionView::Click(
                    "{\"data\":0,\"event\":\"callback\",\"task_id\":"@ + json_literal(id) + "}"@,
                );
            let waits = after == s && action == ClickActionView::Read;
            &&& now >= s.deadline ==> after == s && action == (if s.phase == Phase::Confirm
                && !s.unsent {
                ClickActionView::Done
            } else {
                ClickActionView::Fail(ClickError::Timeout(s.phase))
            })
            &&& now < s.deadline && s.phase == Phase::Home ==> {
                &&& waits <==> (seen.aside is None || now < s.started + 6_000)
                &&& !waits ==> after.phase == Phase::Menu && action == click(seen.aside->0)
                    && after.confirm_started == s.confirm_started
            }
            &&& now < s.deadline && s.phase == Phase::Menu ==> {
                &&& waits <==> seen.menu is None
                &&& !waits ==> after.phase == Phase::Scheduler && action == click(seen.menu->0)
                    && after.confirm_started == s.confirm_started
            }
            &&& now < s.deadline && s.phase == Phase::Scheduler ==> {
                &&& waits <==> seen.scheduler is None
                &&& !waits ==> after.phase == Phase::Confirm && action == click(seen.scheduler->0)
                    && after.confirm_started == now
            }
            &&& now < s.deadline && s.phase == Phase::Confirm && s.unsent ==> waits
            &&& now < s.deadline && s.phase == Phase::Confirm && !s.unsent ==> {
                &&& after == s
                &&& action == ClickActionView::Done || action == ClickActionView::Read
                &&& now >= s.confirm_started + 1_500 ==> action == ClickActionView::Done
                &&& now < s.confirm_started + 1_500 ==> (action == ClickActionView::Done <==> (
                seen.scheduler is Some && seen.label == Some(s.label_after)))
            }
            &&& action is Click ==> after.unsent
            &&& after.seen == s.seen && after.started == s.started && after.deadline == s.deadline
                && after.label_after == s.label_after
        }),
{
    let seen = located(s.seen);
    what_is_located_was_shown(s.seen);
    reveal_strlit("{\"data\":");
    reveal_strlit(",\"event\":\"");
    reveal_strlit("callback");
    reveal_strlit("\",\"task_id\":");
    reveal_strlit("{\"data\":0,\"event\":\"callback\",\"task_id\":");
    reveal_with_fuel(text::decimal_of, 2);
    assert forall|id: Seq<char>| #[trigger]
        click_text(id, 0) == "{\"data\":0,\"event\":\"callback\",\"task_id\":"@ + json_literal(id)
            + "}"@ by {
        assert(signed_decimal(0) =~= seq!['0']);
        assert("{\"data\":"@ + seq!['0'] + ",\"event\":\""@ + "callback"@ + "\",\"task_id\":"@
            =~= "{\"data\":0,\"event\":\"callback\",\"task_id\":"@);
    }
}

/// A script is answered exactly if the server wants it evaluated: that the page is visible where it
/// asks for that, and with nothing otherwise. Every command is kept.
pub proof fn what_is_answered(s: ClickSessionView, msg: ServerMessageView)
    ensures
        ({
            let (after, action) = told(s, msg);
            let wanted = msg.command == "run_script"@ && msg.spec.member("eval"@) == Some(
                JsonView::Bool(true),
            );
            let asks = msg.spec.member("code"@) is Some && msg.spec.member("code"@)->0 is Str
                && text::has_text(msg.spec.member("code"@)->0->Str_0, "visibilityState"@);
            &&& after == (ClickSessionView { seen: s.seen.push(msg), ..s })
            &&& !wanted ==> action == ClickActionView::Next
            &&& wanted && asks ==> action == ClickActionView::Reply(
                "{\"data\":"@ + json_literal("visible"@)
                    + ",\"event\":\"js_yield\",\"task_id\":"@ + json_literal(msg.task_id) + "}"@,
            )
            &&& wanted && !asks ==> action == ClickActionView::Reply(
                "{\"data\":null,\"event\":\"js_yield\",\"task_id\":"@ + json_literal(msg.task_id)
                    + "}"@,
            )
        }),
{
    reveal_strlit("{\"data\":");
    reveal_strlit(",\"event\":\"");
    reveal_strlit("js_yield");
    reveal_strlit("null");
    reveal_strlit("\",\"task_id\":");
    reveal_strlit(",\"event\":\"js_yield\",\"task_id\":");
    reveal_strlit("{\"data\":null,\"event\":\"js_yield\",\"task_id\":");
    let id = json_literal(msg.task_id);
    let yes = json_literal("visible"@);
    assert(reply_text(msg.task_id, JsReplyView::Text("visible"@)) =~= "{\"data\":"@ + yes
        + ",\"event\":\"js_yield\",\"task_id\":"@ + id + "}"@);
    assert(reply_text(msg.task_id, JsReplyView::Null)
        =~= "{\"data\":null,\"event\":\"js_yield\",\"task_id\":"@ + id + "}"@);
}

/// A document is a command exactly if it has the three parts of one, and the first part that is
/// missing is named.
pub proof fn what_a_command_is(v: JsonView)
    ensures
        ({
            let text_of = |name: Seq<char>| v.member(name) is Some && v.member(name)->0 is Str;
            let m = message_of(v);
            &&& m is Ok <==> text_of("command"@) && v.member("spec"@) is Some && text_of(
                "task_id"@,
            )
            &&& m is Ok ==> {
                &&& v.member("command"@) == Some(JsonView::Str(m->Ok_0.command))
                &&& v.member("spec"@) == Some(m->Ok_0.spec)
                &&& v.member("task_id"@) == Some(JsonView::Str(m->Ok_0.task_id))
            }
            &&& m == Err::<ServerMessageView, MessageError>(MessageError::MissingCommand)
                <==> !text_of("command"@)
            &&& m == Err::<ServerMessageView, MessageError>(MessageError::MissingSpec)
                <==> text_of("command"@) && v.member("spec"@) is None
            &&& m == Err::<ServerMessageView, MessageError>(MessageError::MissingTaskId)
                <==> text_of("command"@) && v.member("spec"@) is Some && !text_of("task_id"@)
        }),
{
}

/// A line pins a version if the name of the package and `==` stand at its beginning, behind white
/// space at most: the longest run of digits and points behind them, which must not be empty.
pub proof fn what_pins_a_version(line: Seq<char>, version: Seq<char>, rest: Seq<char>)
    requires
        forall|i: int|
            0 <= i < version.len() ==> #[trigger] version[i] == '.' || '0' <= version[i] <= '9',
        rest.len() > 0 ==> rest[0] != '.' && !('0' <= rest[0] <= '9'),
    ensures
        text::trimmed(line) == "pywebio=="@ + version + rest && version.len() > 0 ==> pinned_version(
            line,
        ) == Some(version),
        text::trimmed(line) == "pywebio=="@ + rest ==> pinned_version(line) is None,
        !"pywebio=="@.is_prefix_of(text::trimmed(line)) ==> pinned_version(line) is None,
{
    let t = text::trimmed(line);
    let name = "pywebio=="@;
    if t == name + version + rest {
        assert(t.take(name.len() as int) =~= name);
        assert(t.skip(name.len() as int) =~= version + rest);
        version_ends_behind(version, rest, 0);
        assert((version + rest).take(version.len() as int) =~= version);
    }
    if t == name + rest {
        assert(t.skip(name.len() as int) =~= rest);
    }
}

proof fn version_ends_behind(version: Seq<char>, rest: Seq<char>, i: int)
    requires
        0 <= i <= version.len(),
        forall|j: int|
            0 <= j < version.len() ==> #[trigger] version[j] == '.' || '0' <= version[j] <= '9',
        rest.len() > 0 ==> rest[0] != '.' && !('0' <= rest[0] <= '9'),
    ensures
        version_end(version + rest, i) == version.len(),
    decreases version.len() - i,
{
    let whole = version + rest;
    if i < version.len() {
        assert(whole[i] == version[i]);
        version_ends_behind(version, rest, i + 1);
    } else if rest.len() > 0 {
        assert(whole[i] == rest[0]);
    }
}

/// The first line that pins a version decides.
pub proof fn the_first_pin_decides(before: Seq<Seq<char>>, line: Seq<char>, after: Seq<Seq<char>>)
    requires
        forall|i: int| 0 <= i < before.len() ==> pinned_version(#[trigger] before[i]) is None,
    ensures
        first_pinned(before) is None,
        pinned_version(line) is Some ==> first_pinned(before + seq![line] + after)
            == pinned_version(line),
    decreases before.len(),
{
    let whole = before + seq![line] + after;
    if before.len() == 0 {
        assert(whole[0] == line);
    } else {
        assert(whole[0] == before[0]);
        assert(whole.skip(1) =~= before.skip(1) + seq![line] + after);
        assert forall|i: int| 0 <= i < before.skip(1).len() implies pinned_version(
            #[trigger] before.skip(1)[i],
        ) is None by {
            assert(before.skip(1)[i] == before[i + 1]);
        }
        the_first_pin_decides(before.skip(1), line, after);
    }
}

/// A click names the widget and the number of the button in it; a negative number is its opposite
/// behind a minus sign.
pub proof fn how_a_click_is_written(id: Seq<char>, n: nat)
    ensures
        click_text(id, n as int) == "{\"data\":"@ + text::decimal_of(n)
            + ",\"event\":\"callback\",\"task_id\":"@ + json_literal(id) + "}"@,
        n > 0 ==> click_text(id, -n) == "{\"data\":-"@ + text::decimal_of(n)
            + ",\"event\":\"callback\",\"task_id\":"@ + json_literal(id) + "}"@,
{
    reveal_strlit("{\"data\":");
    reveal_strlit("{\"data\":-");
    reveal_strlit("-");
    reveal_strlit(",\"event\":\"");
    reveal_strlit("callback");
    reveal_strlit("\",\"task_id\":");
    reveal_strlit(",\"event\":\"callback\",\"task_id\":");
    assert(click_text(id, n as int) =~= "{\"data\":"@ + text::decimal_of(n)
        + ",\"event\":\"callback\",\"task_id\":"@ + json_literal(id) + "}"@);
    if n > 0 {
        assert(click_text(id, -n) =~= "{\"data\":-"@ + text::decimal_of(n)
            + ",\"event\":\"callback\",\"task_id\":"@ + json_literal(id) + "}"@);
    }
}

/// The button is watched from the moment its click was written: for a second and a half, unless it
/// shows the text of the other state before. Until it was written nothing is over.
pub proof fn the_button_is_watched_after_its_click(s: ClickSessionView, written: u64, now: u64)
    requires
        s.phase == Phase::Confirm,
        now < s.deadline,
    ensures
        ({
            let seen = located(s.seen);
            let watched = click_sent(s, written);
            &&& delivered(watched)
            &&& watched.seen == s.seen && watched.deadline == s.deadline && watched.started
                == s.started && watched.label_after == s.label_after
            &&& advanced(watched, now).1 == ClickActionView::Done <==> now >= written + 1_500 || (
            seen.scheduler is Some && seen.label == Some(s.label_after))
            &&& advanced(watched, now).1 == ClickActionView::Read || advanced(watched, now).1
                == ClickActionView::Done
            &&& s.unsent ==> advanced(s, now).1 == ClickActionView::Read
        }),
{
    what_is_located_was_shown(s.seen);
}

/// What comes from the socket other than a text ends the session, unless it is nothing at all: well if
/// the click was written, and else with the reason.
pub proof fn what_ends_a_session(s: ClickSessionView)
    ensures
        reaction(s, SocketEvent::Idle) == ClickActionView::Next,
        s.phase == Phase::Confirm && !s.unsent ==> {
            &&& reaction(s, SocketEvent::Binary) == ClickActionView::Done
            &&& reaction(s, SocketEvent::Closed) == ClickActionView::Done
            &&& reaction(s, SocketEvent::Broken) == ClickActionView::Done
            &&& unwritten(s) == ClickActionView::Done
        },
        s.phase != Phase::Confirm || s.unsent ==> {
            &&& reaction(s, SocketEvent::Binary) == ClickActionView::Fail(ClickError::BinaryFrame)
            &&& reaction(s, SocketEvent::Closed) == ClickActionView::Fail(ClickError::Closed)
            &&& reaction(s, SocketEvent::Broken) == ClickActionView::Fail(ClickError::ReadFailed)
            &&& unwritten(s) == ClickActionView::Fail(ClickError::WriteFailed)
        },
{
}

/// A frame is a command exactly if it is a document with the parts of one; what is no document is said
/// to be none.
pub proof fn what_a_frame_carries(frame: Seq<char>)
    ensures
        json_document(frame) is None <==> frame_message(frame) == Err::<
            ServerMessageView,
            MessageError,
        >(MessageError::NotJson),
        json_document(frame) is Some ==> frame_message(frame) == message_of(
            json_document(frame)->0,
        ),
{
    if json_document(frame) is Some {
        what_a_command_is(json_document(frame)->0);
    }
}

} // verus!
