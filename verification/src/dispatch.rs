//! Answering the requests of the application.
use crate::backend;
use crate::backend::{
    active_app_payload, ActiveApp, ActiveAppView, Backend, BackendAnswer, BackendCall, RunningApp,
    RunningAppView, Selection, SelectionView,
};
use crate::json;
use crate::json::{Json, JsonView, Member};
use crate::paste::PasteFocus;
use crate::text;
use std::collections::HashSet;
use vstd::prelude::*;

verus! {

broadcast use vstd::std_specs::hash::group_hash_axioms;

/// Whether a message asks or answers.
#[derive(Debug, Clone, Copy, PartialEq, Eq, Structural)]
pub enum Kind {
    Request,
    Response,
}

/// A message from the application.
#[derive(Debug)]
pub struct Incoming {
    pub kind: Kind,
    pub command: String,
    pub uuid: String,
    pub payload: Json,
}

/// A way to learn which keys are held down.
pub trait HeldKeys {
    /// The held keys may be `vks`, by VK code.
    open spec fn holds(&self, vks: Set<u32>) -> bool {
        true
    }

    /// The keys that are held down, by VK code.
    fn held_vks(&self) -> (r: HashSet<u32>)
        ensures
            self.holds(r@),
    ;
}

/// What a request asks for.
#[derive(Debug)]
pub enum Request {
    IsReady,
    PasteText { text: String, html: Option<String> },
    SimulateKeyPress { keycode: u32, flags: Vec<String> },
    GetActiveAppInfo,
    GetAppInfo,
    GetRunningApps,
    GetSelectedTextViaCopy,
    GetAccessibilityStatus,
    SetFocusChangeDetectorState { active: bool },
    CheckStaleKeys { keycodes: Vec<u64> },
    HelperAppShutdown,
    /// Anything that is answered without being acted on.
    Acknowledge,
}

/// What a `Request` says.
pub enum RequestView {
    IsReady,
    PasteText { text: Seq<char>, html: Option<Seq<char>> },
    SimulateKeyPress { keycode: u32, flags: Seq<Seq<char>> },
    GetActiveAppInfo,
    GetAppInfo,
    GetRunningApps,
    GetSelectedTextViaCopy,
    GetAccessibilityStatus,
    SetFocusChangeDetectorState { active: bool },
    CheckStaleKeys { keycodes: Seq<u64> },
    HelperAppShutdown,
    Acknowledge,
}

impl View for Request {
    type V = RequestView;

    open spec fn view(&self) -> RequestView {
        match *self {
            Request::IsReady => RequestView::IsReady,
            Request::PasteText { text, html: Some(h) } => RequestView::PasteText {
                text: text@,
                html: Some(h@),
            },
            Request::PasteText { text, html: None } => RequestView::PasteText {
                text: text@,
                html: None,
            },
            Request::SimulateKeyPress { keycode, flags } => RequestView::SimulateKeyPress {
                keycode,
                flags: json::text_views(flags@),
            },
            Request::GetActiveAppInfo => RequestView::GetActiveAppInfo,
            Request::GetAppInfo => RequestView::GetAppInfo,
            Request::GetRunningApps => RequestView::GetRunningApps,
            Request::GetSelectedTextViaCopy => RequestView::GetSelectedTextViaCopy,
            Request::GetAccessibilityStatus => RequestView::GetAccessibilityStatus,
            Request::SetFocusChangeDetectorState { active } => {
                RequestView::SetFocusChangeDetectorState { active }
            },
            Request::CheckStaleKeys { keycodes } => RequestView::CheckStaleKeys {
                keycodes: keycodes@,
            },
            Request::HelperAppShutdown => RequestView::HelperAppShutdown,
            Request::Acknowledge => RequestView::Acknowledge,
        }
    }
}

/// The text that a member of a body holds.
pub open spec fn body_text(body: JsonView, key: Seq<char>) -> Option<Seq<char>> {
    match body.get(key) {
        Some(v) => v.as_text(),
        None => None,
    }
}

/// The text to paste: the empty one where there is none.
pub open spec fn paste_body(body: JsonView) -> RequestView {
    RequestView::PasteText {
        text: match body_text(body, "text"@) {
            Some(t) => t,
            None => Seq::empty(),
        },
        html: match body_text(body, "htmlText"@) {
            Some(h) => if h.len() > 0 {
                Some(h)
            } else {
                None
            },
            None => None,
        },
    }
}

/// The key to press: zero where there is none, and the low half of a number that
/// is too large.
pub open spec fn press_body(body: JsonView) -> RequestView {
    RequestView::SimulateKeyPress {
        keycode: match body.get("keycode"@) {
            Some(v) => match v.as_uint() {
                Some(n) => n as u32,
                None => 0,
            },
            None => 0,
        },
        flags: match body.get("flags"@) {
            Some(v) => v.texts(),
            None => Seq::empty(),
        },
    }
}

/// The switch for focus changes: off where there is none.
pub open spec fn focus_body(body: JsonView) -> RequestView {
    RequestView::SetFocusChangeDetectorState {
        active: match body.get("active"@) {
            Some(v) => v.as_bool() == Some(true),
            None => false,
        },
    }
}

/// The keys to look at.
pub open spec fn stale_body(body: JsonView) -> RequestView {
    RequestView::CheckStaleKeys {
        keycodes: match body.get("keycodes"@) {
            Some(v) => v.uints(),
            None => Seq::empty(),
        },
    }
}

/// What a command with a payload asks for. The arguments stand in the payload's
/// own member `payload`.
pub open spec fn request_of(command: Seq<char>, payload: JsonView) -> RequestView {
    let body = match payload.get("payload"@) {
        Some(v) => v,
        None => JsonView::Null,
    };
    if command == "IsReady"@ {
        RequestView::IsReady
    } else if command == "PasteText"@ {
        paste_body(body)
    } else if command == "SimulateKeyPress"@ {
        press_body(body)
    } else if command == "GetActiveAppInfo"@ {
        RequestView::GetActiveAppInfo
    } else if command == "GetAppInfo"@ {
        RequestView::GetAppInfo
    } else if command == "GetRunningApps"@ {
        RequestView::GetRunningApps
    } else if command == "GetSelectedTextViaCopy"@ {
        RequestView::GetSelectedTextViaCopy
    } else if command == "GetAccessibilityStatus"@ {
        RequestView::GetAccessibilityStatus
    } else if command == "SetFocusChangeDetectorState"@ {
        focus_body(body)
    } else if command == "CheckStaleKeys"@ {
        stale_body(body)
    } else if command == "HelperAppShutdown"@ {
        RequestView::HelperAppShutdown
    } else {
        RequestView::Acknowledge
    }
}

/// Reads the text to paste.
fn decode_paste(body: &Json) -> (r: Request)
    ensures
        r@ == paste_body(body@),
{
    let text = match body.get("text") {
        Some(v) => match v.as_str() {
            Some(t) => t.to_owned(),
            None => String::new(),
        },
        None => String::new(),
    };
    let html = match body.get("htmlText") {
        Some(v) => match v.as_str() {
            Some(h) => if h.is_empty() {
                None
            } else {
                Some(h.to_owned())
            },
            None => None,
        },
        None => None,
    };
    Request::PasteText { text, html }
}

/// Reads the key to press.
fn decode_press(body: &Json) -> (r: Request)
    ensures
        r@ == press_body(body@),
{
    let keycode: u32 = match body.get("keycode") {
        Some(v) => match v.as_u64() {
            Some(n) => #[verifier::truncate]
            (n as u32),
            None => 0,
        },
        None => 0,
    };
    let flags = match body.get("flags") {
        Some(v) => v.to_texts(),
        None => Vec::new(),
    };
    proof {
        if body@.get("flags"@) is None {
            assert(json::text_views(flags@) =~= Seq::empty());
        }
    }
    Request::SimulateKeyPress { keycode, flags }
}

/// Reads the switch for focus changes.
fn decode_focus(body: &Json) -> (r: Request)
    ensures
        r@ == focus_body(body@),
{
    let active = match body.get("active") {
        Some(v) => match v.as_bool() {
            Some(b) => b,
            None => false,
        },
        None => false,
    };
    Request::SetFocusChangeDetectorState { active }
}

/// Reads the keys to look at.
fn decode_stale(body: &Json) -> (r: Request)
    ensures
        r@ == stale_body(body@),
{
    let keycodes = match body.get("keycodes") {
        Some(v) => v.to_u64s(),
        None => Vec::new(),
    };
    Request::CheckStaleKeys { keycodes }
}

/// What a command with a payload asks for.
pub fn decode_request(command: &str, payload: &Json) -> (r: Request)
    ensures
        r@ == request_of(command@, payload@),
{
    let nothing = Json::Null;
    let body = match payload.get("payload") {
        Some(v) => v,
        None => &nothing,
    };
    if text::same(command, "IsReady") {
        Request::IsReady
    } else if text::same(command, "PasteText") {
        decode_paste(body)
    } else if text::same(command, "SimulateKeyPress") {
        decode_press(body)
    } else if text::same(command, "GetActiveAppInfo") {
        Request::GetActiveAppInfo
    } else if text::same(command, "GetAppInfo") {
        Request::GetAppInfo
    } else if text::same(command, "GetRunningApps") {
        Request::GetRunningApps
    } else if text::same(command, "GetSelectedTextViaCopy") {
        Request::GetSelectedTextViaCopy
    } else if text::same(command, "GetAccessibilityStatus") {
        Request::GetAccessibilityStatus
    } else if text::same(command, "SetFocusChangeDetectorState") {
        decode_focus(body)
    } else if text::same(command, "CheckStaleKeys") {
        decode_stale(body)
    } else if text::same(command, "HelperAppShutdown") {
        Request::HelperAppShutdown
    } else {
        Request::Acknowledge
    }
}

/// What a request is answered with.
#[derive(Debug)]
pub enum Answer {
    /// It was done, or is of no concern.
    Ack,
    /// It failed.
    Error(String),
    /// A response under a name.
    Response { name: &'static str, body: Json },
    /// An envelope under a name, whose members are those of an object.
    Envelope { name: &'static str, members: Json },
}

/// What an `Answer` says.
pub enum AnswerView {
    Ack,
    Error(Seq<char>),
    Response { name: Seq<char>, body: JsonView },
    Envelope { name: Seq<char>, members: JsonView },
}

impl View for Answer {
    type V = AnswerView;

    open spec fn view(&self) -> AnswerView {
        match *self {
            Answer::Ack => AnswerView::Ack,
            Answer::Error(e) => AnswerView::Error(e@),
            Answer::Response { name, body } => AnswerView::Response { name: name@, body: body@ },
            Answer::Envelope { name, members } => AnswerView::Envelope {
                name: name@,
                members: members@,
            },
        }
    }
}

/// The answer to a command that failed for a cause.
pub open spec fn failure(command: Seq<char>, cause: Seq<char>) -> AnswerView {
    AnswerView::Error(command + " failed: "@ + cause)
}

/// The answer to a command that failed for a cause.
pub fn failed(command: &str, cause: &str) -> (r: Answer)
    ensures
        r@ == failure(command@, cause@),
{
    let mut e = text::join(command, " failed: ");
    e.append(cause);
    Answer::Error(e)
}

/// The answer that shows that the helper is ready, with the time since it began.
pub open spec fn ready(elapsed_ms: u64) -> AnswerView {
    AnswerView::Envelope {
        name: "HelperAPIResponse"@,
        members: JsonView::Object(
            seq![
                ("ACK"@, JsonView::Bool(true)),
                (
                    "HelperLaunchTiming"@,
                    JsonView::Object(seq![("helperMainEntryMs"@, JsonView::Uint(elapsed_ms))]),
                ),
            ],
        ),
    }
}

/// The answer that shows that the helper is ready, with the time since it began.
pub fn ready_answer(elapsed_ms: u64) -> (r: Answer)
    ensures
        r@ == ready(elapsed_ms),
{
    let timing: Vec<Member> = vec![json::member("helperMainEntryMs", Json::Uint(elapsed_ms))];
    proof {
        assert(json::member_views(timing@) =~= seq![
            ("helperMainEntryMs"@, JsonView::Uint(elapsed_ms)),
        ]);
    }
    let members: Vec<Member> = vec![
        json::member("ACK", Json::Bool(true)),
        json::member("HelperLaunchTiming", json::object(timing)),
    ];
    proof {
        assert(json::member_views(members@) =~= seq![
            ("ACK"@, JsonView::Bool(true)),
            (
                "HelperLaunchTiming"@,
                JsonView::Object(seq![("helperMainEntryMs"@, JsonView::Uint(elapsed_ms))]),
            ),
        ]);
    }
    Answer::Envelope { name: "HelperAPIResponse", members: json::object(members) }
}

/// The answer to a command that is done or fails.
pub open spec fn done(command: Seq<char>, result: Result<(), Seq<char>>) -> AnswerView {
    match result {
        Ok(_) => AnswerView::Ack,
        Err(e) => failure(command, e),
    }
}

/// The answer to a command that is done or fails.
pub fn done_answer(command: &str, result: Result<(), String>) -> (r: Answer)
    ensures
        r@ == done(command@, backend::unit_view(result)),
{
    match result {
        Ok(_) => Answer::Ack,
        Err(e) => failed(command, e.as_str()),
    }
}

/// The answer to a command that asks for the focused application.
pub open spec fn app_told(
    command: Seq<char>,
    name: Seq<char>,
    result: Result<ActiveAppView, Seq<char>>,
) -> AnswerView {
    match result {
        Ok(app) => AnswerView::Response { name, body: backend::app_payload(app) },
        Err(e) => failure(command, e),
    }
}

/// The answer to a command that asks for the focused application.
pub fn app_answer(command: &str, name: &'static str, result: Result<ActiveApp, String>) -> (r:
    Answer)
    ensures
        r@ == app_told(command@, name@, backend::app_result(result)),
{
    match result {
        Ok(app) => Answer::Response { name, body: active_app_payload(&app) },
        Err(e) => failed(command, e.as_str()),
    }
}

/// The entry of a running application.
pub open spec fn app_entry(app: RunningAppView) -> JsonView {
    JsonView::Object(
        seq![("bundleId"@, JsonView::Text(app.bundle_id)), ("name"@, JsonView::Text(app.name))],
    )
}

/// The answer with the running applications.
pub open spec fn apps_told(result: Result<Seq<RunningAppView>, Seq<char>>) -> AnswerView {
    match result {
        Ok(apps) => AnswerView::Response {
            name: "RunningApps"@,
            body: json::payload_view(
                JsonView::Object(
                    seq![
                        (
                            "apps"@,
                            JsonView::List(Seq::new(apps.len(), |i: int| app_entry(apps[i]))),
                        ),
                    ],
                ),
            ),
        },
        Err(e) => failure("GetRunningApps"@, e),
    }
}

/// The entry of a running application.
fn app_entry_value(app: &RunningApp) -> (r: Json)
    ensures
        r@ == app_entry(app@),
{
    let members: Vec<Member> = vec![
        json::member("bundleId", json::text_value(app.bundle_id.as_str())),
        json::member("name", json::text_value(app.name.as_str())),
    ];
    proof {
        assert(json::member_views(members@) =~= seq![
            ("bundleId"@, JsonView::Text(app.bundle_id@)),
            ("name"@, JsonView::Text(app.name@)),
        ]);
    }
    json::object(members)
}

/// The answer with the running applications.
pub fn apps_answer(result: Result<Vec<RunningApp>, String>) -> (r: Answer)
    ensures
        r@ == apps_told(backend::apps_result(result)),
{
    match result {
        Ok(apps) => {
            let ghost views = backend::app_views(apps@);
            let mut entries: Vec<Json> = Vec::new();
            let mut i: usize = 0;
            while i < apps.len()
                invariant
                    i <= apps@.len(),
                    views == backend::app_views(apps@),
                    entries@.len() == i,
                    forall|j: int| 0 <= j < i ==> (#[trigger] entries@[j])@ == app_entry(views[j]),
                decreases apps@.len() - i,
            {
                entries.push(app_entry_value(&apps[i]));
                i = i + 1;
            }
            proof {
                assert(json::views(entries@) =~= Seq::new(
                    views.len(),
                    |i: int| app_entry(views[i]),
                ));
            }
            Answer::Response { name: "RunningApps", body: one_member("apps", json::list(entries)) }
        },
        Err(e) => failed("GetRunningApps", e.as_str()),
    }
}

/// A payload with one member.
fn one_member(key: &str, value: Json) -> (r: Json)
    ensures
        r@ == json::payload_view(JsonView::Object(seq![(key@, value@)])),
{
    let members: Vec<Member> = vec![json::member(key, value)];
    proof {
        assert(json::member_views(members@) =~= seq![(key@, value@)]);
    }
    json::payload(json::object(members))
}

/// The answer with the selected text.
pub open spec fn selection_told(result: Result<SelectionView, Seq<char>>) -> AnswerView {
    match result {
        Ok(s) => AnswerView::Response {
            name: "SelectedTextViaCopy"@,
            body: json::payload_view(
                JsonView::Object(
                    seq![
                        ("selectedText"@, JsonView::Text(s.selected_text)),
                        ("beforeText"@, JsonView::Text(s.before_text)),
                        ("afterText"@, JsonView::Text(s.after_text)),
                        ("contents"@, JsonView::Text(s.contents)),
                    ],
                ),
            ),
        },
        Err(e) => failure("GetSelectedTextViaCopy"@, e),
    }
}

/// The answer with the selected text.
pub fn selection_answer(result: Result<Selection, String>) -> (r: Answer)
    ensures
        r@ == selection_told(backend::selection_result(result)),
{
    match result {
        Ok(s) => {
            let members: Vec<Member> = vec![
                json::member("selectedText", json::text_value(s.selected_text.as_str())),
                json::member("beforeText", json::text_value(s.before_text.as_str())),
                json::member("afterText", json::text_value(s.after_text.as_str())),
                json::member("contents", json::text_value(s.contents.as_str())),
            ];
            proof {
                assert(json::member_views(members@) =~= seq![
                    ("selectedText"@, JsonView::Text(s.selected_text@)),
                    ("beforeText"@, JsonView::Text(s.before_text@)),
                    ("afterText"@, JsonView::Text(s.after_text@)),
                    ("contents"@, JsonView::Text(s.contents@)),
                ]);
            }
            Answer::Response {
                name: "SelectedTextViaCopy",
                body: json::payload(json::object(members)),
            }
        },
        Err(e) => failed("GetSelectedTextViaCopy", e.as_str()),
    }
}

/// The answer with the state of accessibility.
pub open spec fn status_told(status: bool) -> AnswerView {
    AnswerView::Response {
        name: "AccessibilityStatus"@,
        body: json::payload_view(JsonView::Object(seq![("status"@, JsonView::Bool(status))])),
    }
}

/// The answer with the state of accessibility.
pub fn status_answer(status: bool) -> (r: Answer)
    ensures
        r@ == status_told(status),
{
    Answer::Response {
        name: "AccessibilityStatus",
        body: one_member("status", Json::Bool(status)),
    }
}

/// The keys of a query that are not held, in order. A key counts by the low half
/// of its number, which is all of it for a VK code.
pub open spec fn not_held(queried: Seq<u64>, held: Set<u32>) -> Seq<u64>
    decreases queried.len(),
{
    if queried.len() == 0 {
        Seq::empty()
    } else {
        let before = not_held(queried.drop_last(), held);
        if held.contains(queried.last() as u32) {
            before
        } else {
            before.push(queried.last())
        }
    }
}

/// The answer with the keys that are not held.
pub open spec fn stale_told(queried: Seq<u64>, held: Set<u32>) -> AnswerView {
    let stale = not_held(queried, held);
    AnswerView::Response {
        name: "StaleKeysResponse"@,
        body: json::payload_view(
            JsonView::Object(
                seq![
                    (
                        "staleKeys"@,
                        JsonView::List(Seq::new(stale.len(), |i: int| JsonView::Uint(stale[i]))),
                    ),
                ],
            ),
        ),
    }
}

/// The keys of a query that are not held, in order.
pub fn stale_keys(queried: &Vec<u64>, held: &HashSet<u32>) -> (r: Vec<u64>)
    ensures
        r@ == not_held(queried@, held@),
{
    let mut stale: Vec<u64> = Vec::new();
    let mut i: usize = 0;
    while i < queried.len()
        invariant
            i <= queried@.len(),
            stale@ == not_held(queried@.take(i as int), held@),
        decreases queried@.len() - i,
    {
        proof {
            assert(queried@.take(i + 1).drop_last() =~= queried@.take(i as int));
            assert(queried@.take(i + 1).last() == queried@[i as int]);
        }
        let vk: u32 = #[verifier::truncate]
        (queried[i] as u32);
        if !held.contains(&vk) {
            stale.push(queried[i]);
        }
        i = i + 1;
    }
    proof {
        assert(queried@.take(i as int) =~= queried@);
    }
    stale
}

/// The answer with the keys that are not held.
pub fn stale_answer(queried: &Vec<u64>, held: &HashSet<u32>) -> (r: Answer)
    ensures
        r@ == stale_told(queried@, held@),
{
    let stale = stale_keys(queried, held);
    let mut values: Vec<Json> = Vec::new();
    let mut i: usize = 0;
    while i < stale.len()
        invariant
            i <= stale@.len(),
            values@.len() == i,
            forall|j: int| 0 <= j < i ==> (#[trigger] values@[j])@ == JsonView::Uint(stale@[j]),
        decreases stale@.len() - i,
    {
        values.push(Json::Uint(stale[i]));
        i = i + 1;
    }
    proof {
        assert(json::views(values@) =~= Seq::new(
            stale@.len(),
            |i: int| JsonView::Uint(stale@[i]),
        ));
    }
    Answer::Response {
        name: "StaleKeysResponse",
        body: one_member("staleKeys", json::list(values)),
    }
}

/// An answer to a request, and whether the helper ends after giving it.
#[derive(Debug)]
pub struct Reply {
    pub uuid: String,
    pub answer: Answer,
    pub exit: bool,
}

/// What a request asks of the backend, if anything.
pub open spec fn call_of(request: RequestView, focused_is_terminal: bool) -> Option<BackendCall> {
    match request {
        RequestView::PasteText { text, html } => Some(
            BackendCall::PasteText { text, html, focused_is_terminal },
        ),
        RequestView::SimulateKeyPress { keycode, flags } => Some(
            BackendCall::SimulateKeyPress { keycode_vk: keycode, flags },
        ),
        RequestView::GetActiveAppInfo => Some(BackendCall::GetActiveApp),
        RequestView::GetAppInfo => Some(BackendCall::GetActiveApp),
        RequestView::GetRunningApps => Some(BackendCall::GetRunningApps),
        RequestView::GetSelectedTextViaCopy => Some(BackendCall::GetSelectedText),
        RequestView::GetAccessibilityStatus => Some(BackendCall::AccessibilityStatus),
        RequestView::SetFocusChangeDetectorState { active } => Some(
            BackendCall::SetFocusDetection { active },
        ),
        _ => None,
    }
}

/// The answer to a request, by what the backend answered, the held keys and the
/// time since the helper began.
pub open spec fn answer_of(
    request: RequestView,
    told: BackendAnswer,
    held: Set<u32>,
    elapsed_ms: u64,
) -> AnswerView {
    match (request, told) {
        (RequestView::IsReady, _) => ready(elapsed_ms),
        (RequestView::PasteText { .. }, BackendAnswer::Pasted { result, .. }) => done(
            "PasteText"@,
            result,
        ),
        (RequestView::SimulateKeyPress { .. }, BackendAnswer::Pressed(result)) => done(
            "SimulateKeyPress"@,
            result,
        ),
        (RequestView::GetActiveAppInfo, BackendAnswer::App(result)) => app_told(
            "GetActiveAppInfo"@,
            "ActiveAppInfo"@,
            result,
        ),
        (RequestView::GetAppInfo, BackendAnswer::App(result)) => app_told(
            "GetAppInfo"@,
            "AppInfo"@,
            result,
        ),
        (RequestView::GetRunningApps, BackendAnswer::Apps(result)) => apps_told(result),
        (RequestView::GetSelectedTextViaCopy, BackendAnswer::Selected(result)) => selection_told(
            result,
        ),
        (RequestView::GetAccessibilityStatus, BackendAnswer::Status(status)) => status_told(
            status,
        ),
        (RequestView::CheckStaleKeys { keycodes }, _) => stale_told(keycodes, held),
        _ => AnswerView::Ack,
    }
}

/// What the backend answered is an answer to what the request asks of it.
pub open spec fn fits(request: RequestView, told: BackendAnswer) -> bool {
    match request {
        RequestView::PasteText { .. } => told is Pasted,
        RequestView::SimulateKeyPress { .. } => told is Pressed,
        RequestView::GetActiveAppInfo => told is App,
        RequestView::GetAppInfo => told is App,
        RequestView::GetRunningApps => told is Apps,
        RequestView::GetSelectedTextViaCopy => told is Selected,
        RequestView::GetAccessibilityStatus => told is Status,
        _ => told is Switched,
    }
}

/// A request is answered: the backend is asked what the request asks of it and
/// nothing else, and its answer and the held keys make up the reply.
pub open spec fn is_answered<B: Backend, H: HeldKeys>(
    request: RequestView,
    be_before: B,
    be_after: B,
    focus_before: PasteFocus,
    focus_after: PasteFocus,
    held_keys: H,
    elapsed_ms: u64,
    told: BackendAnswer,
    held: Set<u32>,
    answer: AnswerView,
) -> bool {
    &&& fits(request, told)
    &&& answer == answer_of(request, told, held, elapsed_ms)
    &&& request is CheckStaleKeys ==> held_keys.holds(held)
    &&& match call_of(request, focus_before.focused_is_terminal) {
        Some(call) => B::answers(&be_before, call, &be_after, told),
        None => be_after == be_before,
    }
    &&& match told {
        BackendAnswer::Pasted { focused_is_terminal, .. } => focus_after.focused_is_terminal
            == focused_is_terminal,
        _ => focus_after == focus_before,
    }
}

/// Answers a request. The reply carries the request's own identifier, and only a
/// shutdown ends the helper.
pub fn handle_request<B: Backend, H: HeldKeys>(
    be: &mut B,
    held_keys: &H,
    focus: &mut PasteFocus,
    msg: &Incoming,
    elapsed_ms: u64,
) -> (r: Reply)
    ensures
        r.uuid@ == msg.uuid@,
        r.exit <==> request_of(msg.command@, msg.payload@) is HelperAppShutdown,
        exists|told: BackendAnswer, held: Set<u32>| #[trigger]
            is_answered(
                request_of(msg.command@, msg.payload@),
                *old(be),
                *final(be),
                *old(focus),
                *final(focus),
                *held_keys,
                elapsed_ms,
                told,
                held,
                r.answer@,
            ),
{
    let request = decode_request(msg.command.as_str(), &msg.payload);
    let ghost asked = request@;
    let ghost be_before = *be;
    let ghost focus_before = *focus;
    let ghost mut told = BackendAnswer::Switched;
    let ghost mut held = Set::<u32>::empty();
    let mut exit = false;
    let answer = match request {
        Request::IsReady => ready_answer(elapsed_ms),
        Request::PasteText { text, html } => {
            let html = match &html {
                Some(h) => Some(h.as_str()),
                None => None,
            };
            let result = be.paste_text(text.as_str(), html, focus);
            proof {
                told =
                BackendAnswer::Pasted {
                    result: backend::unit_view(result),
                    focused_is_terminal: focus.focused_is_terminal,
                };
            }
            done_answer("PasteText", result)
        },
        Request::SimulateKeyPress { keycode, flags } => {
            let result = be.simulate_key_press(keycode, flags.as_slice());
            proof {
                told = BackendAnswer::Pressed(backend::unit_view(result));
            }
            done_answer("SimulateKeyPress", result)
        },
        Request::GetActiveAppInfo => {
            let result = be.get_active_app();
            proof {
                told = BackendAnswer::App(backend::app_result(result));
            }
            app_answer("GetActiveAppInfo", "ActiveAppInfo", result)
        },
        Request::GetAppInfo => {
            let result = be.get_active_app();
            proof {
                told = BackendAnswer::App(backend::app_result(result));
            }
            app_answer("GetAppInfo", "AppInfo", result)
        },
        Request::GetRunningApps => {
            let result = be.get_running_apps();
            proof {
                told = BackendAnswer::Apps(backend::apps_result(result));
            }
            apps_answer(result)
        },
        Request::GetSelectedTextViaCopy => {
            let result = be.get_selected_text();
            proof {
                told = BackendAnswer::Selected(backend::selection_result(result));
            }
            selection_answer(result)
        },
        Request::GetAccessibilityStatus => {
            let status = be.accessibility_status();
            proof {
                told = BackendAnswer::Status(status);
            }
            status_answer(status)
        },
        Request::SetFocusChangeDetectorState { active } => {
            be.set_focus_detection(active);
            Answer::Ack
        },
        Request::CheckStaleKeys { keycodes } => {
            let vks = held_keys.held_vks();
            proof {
                held = vks@;
            }
            stale_answer(&keycodes, &vks)
        },
        Request::HelperAppShutdown => {
            exit = true;
            Answer::Ack
        },
        Request::Acknowledge => Answer::Ack,
    };
    proof {
        assert(is_answered(
            asked,
            be_before,
            *be,
            focus_before,
            *focus,
            *held_keys,
            elapsed_ms,
            told,
            held,
            answer@,
        ));
    }
    Reply { uuid: msg.uuid.clone(), answer, exit }
}

/// Answers a message that asks, and takes note of one that answers.
pub fn handle_message<B: Backend, H: HeldKeys>(
    be: &mut B,
    held_keys: &H,
    focus: &mut PasteFocus,
    msg: &Incoming,
    elapsed_ms: u64,
) -> (r: Option<Reply>)
    ensures
        r is Some <==> msg.kind == Kind::Request,
        r is None ==> *final(be) == *old(be) && *final(focus) == *old(focus),
        r matches Some(reply) ==> {
            &&& reply.uuid@ == msg.uuid@
            &&& reply.exit <==> request_of(msg.command@, msg.payload@) is HelperAppShutdown
            &&& exists|told: BackendAnswer, held: Set<u32>| #[trigger]
                is_answered(
                    request_of(msg.command@, msg.payload@),
                    *old(be),
                    *final(be),
                    *old(focus),
                    *final(focus),
                    *held_keys,
                    elapsed_ms,
                    told,
                    held,
                    reply.answer@,
                )
        },
{
    match msg.kind {
        Kind::Response => None,
        Kind::Request => Some(handle_request(be, held_keys, focus, msg, elapsed_ms)),
    }
}

/// The commands that are acted on.
pub open spec fn known_commands() -> Seq<Seq<char>> {
    seq![
        "IsReady"@,
        "PasteText"@,
        "SimulateKeyPress"@,
        "GetActiveAppInfo"@,
        "GetAppInfo"@,
        "GetRunningApps"@,
        "GetSelectedTextViaCopy"@,
        "GetAccessibilityStatus"@,
        "SetFocusChangeDetectorState"@,
        "CheckStaleKeys"@,
        "HelperAppShutdown"@,
    ]
}

/// A command that is not known is acknowledged, and nothing is asked of the
/// backend.
pub proof fn law_unknown_commands_are_acknowledged(
    command: Seq<char>,
    payload: JsonView,
    told: BackendAnswer,
    held: Set<u32>,
    elapsed_ms: u64,
    focused_is_terminal: bool,
)
    requires
        !known_commands().contains(command),
    ensures
        answer_of(request_of(command, payload), told, held, elapsed_ms) == AnswerView::Ack,
        call_of(request_of(command, payload), focused_is_terminal) is None,
        request_of(command, payload) !is HelperAppShutdown,
{
    let known = known_commands();
    assert forall|i: int| 0 <= i < 11 implies #[trigger] known[i] != command by {
        assert(known.contains(known[i]));
    }
    assert(known[0] != command && known[1] != command && known[2] != command && known[3] != command
        && known[4] != command && known[5] != command && known[6] != command && known[7] != command
        && known[8] != command && known[9] != command && known[10] != command);
}

/// An error is answered only where the backend reports one, and then it carries
/// the backend's words.
pub proof fn law_errors_come_from_the_backend(
    request: RequestView,
    told: BackendAnswer,
    held: Set<u32>,
    elapsed_ms: u64,
)
    ensures
        answer_of(request, told, held, elapsed_ms) matches AnswerView::Error(e) ==> exists|
            command: Seq<char>,
            cause: Seq<char>,
        |
            {
                &&& #[trigger] (command + " failed: "@ + cause) == e
                &&& match told {
                    BackendAnswer::Pasted { result, .. } => result == Err::<(), Seq<char>>(cause),
                    BackendAnswer::Pressed(result) => result == Err::<(), Seq<char>>(cause),
                    BackendAnswer::App(result) => result == Err::<ActiveAppView, Seq<char>>(cause),
                    BackendAnswer::Apps(result) => result == Err::<Seq<RunningAppView>, Seq<char>>(
                        cause,
                    ),
                    BackendAnswer::Selected(result) => result == Err::<SelectionView, Seq<char>>(
                        cause,
                    ),
                    _ => false,
                }
            },
{
}

/// The stale keys are those of the query that are not held, and no others.
pub proof fn law_stale_keys(queried: Seq<u64>, held: Set<u32>, vk: u64)
    ensures
        not_held(queried, held).contains(vk) <==> queried.contains(vk) && !held.contains(vk as u32),
    decreases queried.len(),
{
    if queried.len() > 0 {
        let fewer = queried.drop_last();
        let before = not_held(fewer, held);
        let last = queried.last();
        law_stale_keys(fewer, held, vk);
        assert(queried =~= fewer.push(last));
        if fewer.contains(vk) {
            let i = choose|i: int| 0 <= i < fewer.len() && fewer[i] == vk;
            assert(queried[i] == vk);
        }
        if queried.contains(vk) && vk != last {
            let i = choose|i: int| 0 <= i < queried.len() && queried[i] == vk;
            assert(fewer[i] == vk);
        }
        if !held.contains(last as u32) {
            let after = before.push(last);
            assert(after[before.len() as int] == last);
            if before.contains(vk) {
                let i = choose|i: int| 0 <= i < before.len() && before[i] == vk;
                assert(after[i] == vk);
            }
            if after.contains(vk) && vk != last {
                let i = choose|i: int| 0 <= i < after.len() && after[i] == vk;
                assert(before[i] == vk);
            }
        } else {
            assert(queried[queried.len() - 1] == last);
        }
    }
}

/// The commands are different texts.
proof fn lemma_commands_differ()
    ensures
        forall|i: int, j: int|
            0 <= i < j < 11 ==> #[trigger] known_commands()[i] != #[trigger] known_commands()[j],
{
    reveal_strlit("IsReady");
    reveal_strlit("PasteText");
    reveal_strlit("SimulateKeyPress");
    reveal_strlit("GetActiveAppInfo");
    reveal_strlit("GetAppInfo");
    reveal_strlit("GetRunningApps");
    reveal_strlit("GetSelectedTextViaCopy");
    reveal_strlit("GetAccessibilityStatus");
    reveal_strlit("SetFocusChangeDetectorState");
    reveal_strlit("CheckStaleKeys");
    reveal_strlit("HelperAppShutdown");
    let c = known_commands();
    assert(c[0].len() == 7 && c[1].len() == 9 && c[2].len() == 16 && c[3].len() == 16 && c[4].len() == 10 && c[5].len() == 14 && c[6].len() == 22 && c[7].len() == 22 && c[8].len() == 27 && c[9].len() == 14 && c[10].len() == 17);
    assert(c[2][0] == 'S' && c[3][0] == 'G');
    assert(c[5][0] == 'G' && c[9][0] == 'C');
    assert(c[6][3] == 'S' && c[7][3] == 'A');
    assert forall|i: int, j: int| 0 <= i < j < 11 implies #[trigger] c[i] != #[trigger] c[j] by {
    }
}

/// The commands are different texts, one by one.
proof fn lemma_command_texts()
    ensures
        known_commands() == seq![
            "IsReady"@,
            "PasteText"@,
            "SimulateKeyPress"@,
            "GetActiveAppInfo"@,
            "GetAppInfo"@,
            "GetRunningApps"@,
            "GetSelectedTextViaCopy"@,
            "GetAccessibilityStatus"@,
            "SetFocusChangeDetectorState"@,
            "CheckStaleKeys"@,
            "HelperAppShutdown"@,
        ],
        "IsReady"@ != "PasteText"@,
        "IsReady"@ != "SimulateKeyPress"@,
        "IsReady"@ != "GetActiveAppInfo"@,
        "IsReady"@ != "GetAppInfo"@,
        "IsReady"@ != "GetRunningApps"@,
        "IsReady"@ != "GetSelectedTextViaCopy"@,
        "IsReady"@ != "GetAccessibilityStatus"@,
        "IsReady"@ != "SetFocusChangeDetectorState"@,
        "IsReady"@ != "CheckStaleKeys"@,
        "IsReady"@ != "HelperAppShutdown"@,
        "PasteText"@ != "SimulateKeyPress"@,
        "PasteText"@ != "GetActiveAppInfo"@,
        "PasteText"@ != "GetAppInfo"@,
        "PasteText"@ != "GetRunningApps"@,
        "PasteText"@ != "GetSelectedTextViaCopy"@,
        "PasteText"@ != "GetAccessibilityStatus"@,
        "PasteText"@ != "SetFocusChangeDetectorState"@,
        "PasteText"@ != "CheckStaleKeys"@,
        "PasteText"@ != "HelperAppShutdown"@,
        "SimulateKeyPress"@ != "GetActiveAppInfo"@,
        "SimulateKeyPress"@ != "GetAppInfo"@,
        "SimulateKeyPress"@ != "GetRunningApps"@,
        "SimulateKeyPress"@ != "GetSelectedTextViaCopy"@,
        "SimulateKeyPress"@ != "GetAccessibilityStatus"@,
        "SimulateKeyPress"@ != "SetFocusChangeDetectorState"@,
        "SimulateKeyPress"@ != "CheckStaleKeys"@,
        "SimulateKeyPress"@ != "HelperAppShutdown"@,
        "GetActiveAppInfo"@ != "GetAppInfo"@,
        "GetActiveAppInfo"@ != "GetRunningApps"@,
        "GetActiveAppInfo"@ != "GetSelectedTextViaCopy"@,
        "GetActiveAppInfo"@ != "GetAccessibilityStatus"@,
        "GetActiveAppInfo"@ != "SetFocusChangeDetectorState"@,
        "GetActiveAppInfo"@ != "CheckStaleKeys"@,
        "GetActiveAppInfo"@ != "HelperAppShutdown"@,
        "GetAppInfo"@ != "GetRunningApps"@,
        "GetAppInfo"@ != "GetSelectedTextViaCopy"@,
        "GetAppInfo"@ != "GetAccessibilityStatus"@,
        "GetAppInfo"@ != "SetFocusChangeDetectorState"@,
        "GetAppInfo"@ != "CheckStaleKeys"@,
        "GetAppInfo"@ != "HelperAppShutdown"@,
        "GetRunningApps"@ != "GetSelectedTextViaCopy"@,
        "GetRunningApps"@ != "GetAccessibilityStatus"@,
        "GetRunningApps"@ != "SetFocusChangeDetectorState"@,
        "GetRunningApps"@ != "CheckStaleKeys"@,
        "GetRunningApps"@ != "HelperAppShutdown"@,
        "GetSelectedTextViaCopy"@ != "GetAccessibilityStatus"@,
        "GetSelectedTextViaCopy"@ != "SetFocusChangeDetectorState"@,
        "GetSelectedTextViaCopy"@ != "CheckStaleKeys"@,
        "GetSelectedTextViaCopy"@ != "HelperAppShutdown"@,
        "GetAccessibilityStatus"@ != "SetFocusChangeDetectorState"@,
        "GetAccessibilityStatus"@ != "CheckStaleKeys"@,
        "GetAccessibilityStatus"@ != "HelperAppShutdown"@,
        "SetFocusChangeDetectorState"@ != "CheckStaleKeys"@,
        "SetFocusChangeDetectorState"@ != "HelperAppShutdown"@,
        "CheckStaleKeys"@ != "HelperAppShutdown"@,
{
    lemma_commands_differ();
    let c = known_commands();
    assert(c[0] == "IsReady"@);
    assert(c[1] == "PasteText"@);
    assert(c[2] == "SimulateKeyPress"@);
    assert(c[3] == "GetActiveAppInfo"@);
    assert(c[4] == "GetAppInfo"@);
    assert(c[5] == "GetRunningApps"@);
    assert(c[6] == "GetSelectedTextViaCopy"@);
    assert(c[7] == "GetAccessibilityStatus"@);
    assert(c[8] == "SetFocusChangeDetectorState"@);
    assert(c[9] == "CheckStaleKeys"@);
    assert(c[10] == "HelperAppShutdown"@);
}

/// The text that the backend is asked to paste is the text member of the request's
/// inner payload, character for character, and so is the HTML where it is not empty;
/// where a member is missing or no text, there is the empty text and no HTML. The
/// request is acknowledged if the backend pastes, and else refused in its words.
pub proof fn law_pasted_text<B: Backend, H: HeldKeys>(
    payload: JsonView,
    be_before: B,
    be_after: B,
    focus_before: PasteFocus,
    focus_after: PasteFocus,
    held_keys: H,
    elapsed_ms: u64,
    told: BackendAnswer,
    held: Set<u32>,
    answer: AnswerView,
    body: JsonView,
    text: Seq<char>,
    html: Seq<char>,
)
    requires
        payload.get("payload"@) == Some(body),
        is_answered(
            request_of("PasteText"@, payload),
            be_before,
            be_after,
            focus_before,
            focus_after,
            held_keys,
            elapsed_ms,
            told,
            held,
            answer,
        ),
    ensures
        told matches BackendAnswer::Pasted { result, focused_is_terminal } && {
            &&& result is Ok ==> answer == AnswerView::Ack
            &&& result matches Err(e) ==> answer == AnswerView::Error("PasteText failed: "@ + e)
            &&& focus_after.focused_is_terminal == focused_is_terminal
        },
        exists|pasted: Seq<char>, beside: Option<Seq<char>>|
            {
                &&& #[trigger] B::answers(
                    &be_before,
                    BackendCall::PasteText {
                        text: pasted,
                        html: beside,
                        focused_is_terminal: focus_before.focused_is_terminal,
                    },
                    &be_after,
                    told,
                )
                &&& body.get("text"@) == Some(JsonView::Text(text)) ==> pasted == text
                &&& (body.get("text"@) is None || body.get("text"@)->0 !is Text) ==> pasted.len()
                    == 0
                &&& body.get("htmlText"@) == Some(JsonView::Text(html)) && html.len() > 0 ==> beside
                    == Some(html)
                &&& body.get("htmlText"@) == Some(JsonView::Text(html)) && html.len() == 0
                    ==> beside is None
                &&& (body.get("htmlText"@) is None || body.get("htmlText"@)->0 !is Text) ==> beside
                    is None
            },
{
    lemma_command_texts();
    lemma_failure_texts();
    let asked = request_of("PasteText"@, payload);
    assert(B::answers(
        &be_before,
        BackendCall::PasteText {
            text: asked->PasteText_text,
            html: asked->html,
            focused_is_terminal: focus_before.focused_is_terminal,
        },
        &be_after,
        told,
    ));
}

/// What a failure says: the command, that it failed, and the cause.
proof fn lemma_failure_texts()
    ensures
        "PasteText"@ + " failed: "@ == "PasteText failed: "@,
        "SimulateKeyPress"@ + " failed: "@ == "SimulateKeyPress failed: "@,
        "GetActiveAppInfo"@ + " failed: "@ == "GetActiveAppInfo failed: "@,
        "GetAppInfo"@ + " failed: "@ == "GetAppInfo failed: "@,
        "GetRunningApps"@ + " failed: "@ == "GetRunningApps failed: "@,
        "GetSelectedTextViaCopy"@ + " failed: "@ == "GetSelectedTextViaCopy failed: "@,
{
    reveal_strlit(" failed: ");
    reveal_strlit("PasteText");
    reveal_strlit("PasteText failed: ");
    assert("PasteText"@ + " failed: "@ =~= "PasteText failed: "@);
    reveal_strlit("SimulateKeyPress");
    reveal_strlit("SimulateKeyPress failed: ");
    assert("SimulateKeyPress"@ + " failed: "@ =~= "SimulateKeyPress failed: "@);
    reveal_strlit("GetActiveAppInfo");
    reveal_strlit("GetActiveAppInfo failed: ");
    assert("GetActiveAppInfo"@ + " failed: "@ =~= "GetActiveAppInfo failed: "@);
    reveal_strlit("GetAppInfo");
    reveal_strlit("GetAppInfo failed: ");
    assert("GetAppInfo"@ + " failed: "@ =~= "GetAppInfo failed: "@);
    reveal_strlit("GetRunningApps");
    reveal_strlit("GetRunningApps failed: ");
    assert("GetRunningApps"@ + " failed: "@ =~= "GetRunningApps failed: "@);
    reveal_strlit("GetSelectedTextViaCopy");
    reveal_strlit("GetSelectedTextViaCopy failed: ");
    assert("GetSelectedTextViaCopy"@ + " failed: "@ =~= "GetSelectedTextViaCopy failed: "@);
}

/// The key that the backend is asked to press is the number member of the request's
/// inner payload, by its low half, and the flags are the texts of its list, in order;
/// a missing number is zero and a missing list is empty.
pub proof fn law_pressed_key<B: Backend, H: HeldKeys>(
    payload: JsonView,
    be_before: B,
    be_after: B,
    focus_before: PasteFocus,
    focus_after: PasteFocus,
    held_keys: H,
    elapsed_ms: u64,
    told: BackendAnswer,
    held: Set<u32>,
    answer: AnswerView,
    body: JsonView,
    n: u64,
    items: Seq<JsonView>,
)
    requires
        payload.get("payload"@) == Some(body),
        is_answered(
            request_of("SimulateKeyPress"@, payload),
            be_before,
            be_after,
            focus_before,
            focus_after,
            held_keys,
            elapsed_ms,
            told,
            held,
            answer,
        ),
    ensures
        focus_after == focus_before,
        told matches BackendAnswer::Pressed(result) && {
            &&& result is Ok ==> answer == AnswerView::Ack
            &&& result matches Err(e) ==> answer == AnswerView::Error(
                "SimulateKeyPress failed: "@ + e,
            )
        },
        exists|keycode_vk: u32, flags: Seq<Seq<char>>|
            {
                &&& #[trigger] B::answers(
                    &be_before,
                    BackendCall::SimulateKeyPress { keycode_vk, flags },
                    &be_after,
                    told,
                )
                &&& body.get("keycode"@) == Some(JsonView::Uint(n)) ==> keycode_vk as int == n as int
                    % 0x1_0000_0000
                &&& (body.get("keycode"@) is None || body.get("keycode"@)->0 !is Uint)
                    ==> keycode_vk == 0
                &&& body.get("flags"@) == Some(JsonView::List(items)) ==> flags
                    == json::texts_of(items)
                &&& (body.get("flags"@) is None || body.get("flags"@)->0 !is List) ==> flags.len()
                    == 0
            },
{
    lemma_command_texts();
    lemma_failure_texts();
    assert(n as u32 == n % 0x1_0000_0000) by (bit_vector);
    let asked = request_of("SimulateKeyPress"@, payload);
    assert(B::answers(
        &be_before,
        BackendCall::SimulateKeyPress { keycode_vk: asked->keycode, flags: asked->flags },
        &be_after,
        told,
    ));
}

/// The application that is told under `ActiveAppInfo` is the one that the backend answered,
/// each field under its own name; a backend that failed is told in its words.
pub proof fn law_told_active_app<B: Backend, H: HeldKeys>(
    payload: JsonView,
    be_before: B,
    be_after: B,
    focus_before: PasteFocus,
    focus_after: PasteFocus,
    held_keys: H,
    elapsed_ms: u64,
    told: BackendAnswer,
    held: Set<u32>,
    answer: AnswerView,
)
    requires
        is_answered(
            request_of("GetActiveAppInfo"@, payload),
            be_before,
            be_after,
            focus_before,
            focus_after,
            held_keys,
            elapsed_ms,
            told,
            held,
            answer,
        ),
    ensures
        focus_after == focus_before,
        B::answers(&be_before, BackendCall::GetActiveApp, &be_after, told),
        told matches BackendAnswer::App(result) && {
            &&& result matches Ok(app) ==> answer == (AnswerView::Response {
                name: "ActiveAppInfo"@,
                body: JsonView::Object(
                    seq![
                        (
                            "payload"@,
                            JsonView::Object(
                                seq![
                                    ("appName"@, JsonView::Text(app.app_name)),
                                    ("bundleId"@, JsonView::Text(app.bundle_id)),
                                    ("windowTitle"@, JsonView::Text(app.window_title)),
                                    ("url"@, JsonView::Text(app.url)),
                                ],
                            ),
                        ),
                    ],
                ),
            })
            &&& result matches Err(e) ==> answer == AnswerView::Error("GetActiveAppInfo failed: "@ + e)
        },
{
    lemma_command_texts();
    lemma_failure_texts();
}

/// The application that is told under `AppInfo` is the one that the backend answered,
/// each field under its own name; a backend that failed is told in its words.
pub proof fn law_told_app<B: Backend, H: HeldKeys>(
    payload: JsonView,
    be_before: B,
    be_after: B,
    focus_before: PasteFocus,
    focus_after: PasteFocus,
    held_keys: H,
    elapsed_ms: u64,
    told: BackendAnswer,
    held: Set<u32>,
    answer: AnswerView,
)
    requires
        is_answered(
            request_of("GetAppInfo"@, payload),
            be_before,
            be_after,
            focus_before,
            focus_after,
            held_keys,
            elapsed_ms,
            told,
            held,
            answer,
        ),
    ensures
        focus_after == focus_before,
        B::answers(&be_before, BackendCall::GetActiveApp, &be_after, told),
        told matches BackendAnswer::App(result) && {
            &&& result matches Ok(app) ==> answer == (AnswerView::Response {
                name: "AppInfo"@,
                body: JsonView::Object(
                    seq![
                        (
                            "payload"@,
                            JsonView::Object(
                                seq![
                                    ("appName"@, JsonView::Text(app.app_name)),
                                    ("bundleId"@, JsonView::Text(app.bundle_id)),
                                    ("windowTitle"@, JsonView::Text(app.window_title)),
                                    ("url"@, JsonView::Text(app.url)),
                                ],
                            ),
                        ),
                    ],
                ),
            })
            &&& result matches Err(e) ==> answer == AnswerView::Error("GetAppInfo failed: "@ + e)
        },
{
    lemma_command_texts();
    lemma_failure_texts();
}

/// The running applications that are told are those that the backend answered, in
/// order, each with its identifier and its name.
pub proof fn law_told_running_apps<B: Backend, H: HeldKeys>(
    payload: JsonView,
    be_before: B,
    be_after: B,
    focus_before: PasteFocus,
    focus_after: PasteFocus,
    held_keys: H,
    elapsed_ms: u64,
    told: BackendAnswer,
    held: Set<u32>,
    answer: AnswerView,
)
    requires
        is_answered(
            request_of("GetRunningApps"@, payload),
            be_before,
            be_after,
            focus_before,
            focus_after,
            held_keys,
            elapsed_ms,
            told,
            held,
            answer,
        ),
    ensures
        focus_after == focus_before,
        B::answers(&be_before, BackendCall::GetRunningApps, &be_after, told),
        told matches BackendAnswer::Apps(result) && {
            &&& result matches Ok(apps) ==> (answer matches AnswerView::Response { name, body }
                && name == "RunningApps"@ && body == JsonView::Object(
                seq![
                    (
                        "payload"@,
                        JsonView::Object(
                            seq![
                                (
                                    "apps"@,
                                    JsonView::List(
                                        Seq::new(
                                            apps.len(),
                                            |i: int|
                                                JsonView::Object(
                                                    seq![
                                                        (
                                                            "bundleId"@,
                                                            JsonView::Text(apps[i].bundle_id),
                                                        ),
                                                        ("name"@, JsonView::Text(apps[i].name)),
                                                    ],
                                                ),
                                        ),
                                    ),
                                ),
                            ],
                        ),
                    ),
                ],
            ))
            &&& result matches Err(e) ==> answer == AnswerView::Error(
                "GetRunningApps failed: "@ + e,
            )
        },
{
    lemma_command_texts();
    lemma_failure_texts();
    if let BackendAnswer::Apps(Ok(apps)) = told {
        assert(Seq::new(apps.len(), |i: int| app_entry(apps[i])) =~= Seq::new(
            apps.len(),
            |i: int|
                JsonView::Object(
                    seq![
                        ("bundleId"@, JsonView::Text(apps[i].bundle_id)),
                        ("name"@, JsonView::Text(apps[i].name)),
                    ],
                ),
        ));
    }
}

/// The selection that is told is the one that the backend answered, each text under
/// its own name.
pub proof fn law_told_selection<B: Backend, H: HeldKeys>(
    payload: JsonView,
    be_before: B,
    be_after: B,
    focus_before: PasteFocus,
    focus_after: PasteFocus,
    held_keys: H,
    elapsed_ms: u64,
    told: BackendAnswer,
    held: Set<u32>,
    answer: AnswerView,
)
    requires
        is_answered(
            request_of("GetSelectedTextViaCopy"@, payload),
            be_before,
            be_after,
            focus_before,
            focus_after,
            held_keys,
            elapsed_ms,
            told,
            held,
            answer,
        ),
    ensures
        focus_after == focus_before,
        B::answers(&be_before, BackendCall::GetSelectedText, &be_after, told),
        told matches BackendAnswer::Selected(result) && {
            &&& result matches Ok(s) ==> answer == (AnswerView::Response {
                name: "SelectedTextViaCopy"@,
                body: JsonView::Object(
                    seq![
                        (
                            "payload"@,
                            JsonView::Object(
                                seq![
                                    ("selectedText"@, JsonView::Text(s.selected_text)),
                                    ("beforeText"@, JsonView::Text(s.before_text)),
                                    ("afterText"@, JsonView::Text(s.after_text)),
                                    ("contents"@, JsonView::Text(s.contents)),
                                ],
                            ),
                        ),
                    ],
                ),
            })
            &&& result matches Err(e) ==> answer == AnswerView::Error(
                "GetSelectedTextViaCopy failed: "@ + e,
            )
        },
{
    lemma_command_texts();
    lemma_failure_texts();
}

/// The accessibility status that is told is the one that the backend answered.
pub proof fn law_told_status<B: Backend, H: HeldKeys>(
    payload: JsonView,
    be_before: B,
    be_after: B,
    focus_before: PasteFocus,
    focus_after: PasteFocus,
    held_keys: H,
    elapsed_ms: u64,
    told: BackendAnswer,
    held: Set<u32>,
    answer: AnswerView,
)
    requires
        is_answered(
            request_of("GetAccessibilityStatus"@, payload),
            be_before,
            be_after,
            focus_before,
            focus_after,
            held_keys,
            elapsed_ms,
            told,
            held,
            answer,
        ),
    ensures
        focus_after == focus_before,
        B::answers(&be_before, BackendCall::AccessibilityStatus, &be_after, told),
        told matches BackendAnswer::Status(status) && answer == (AnswerView::Response {
            name: "AccessibilityStatus"@,
            body: JsonView::Object(
                seq![("payload"@, JsonView::Object(seq![("status"@, JsonView::Bool(status))]))],
            ),
        }),
{
    lemma_command_texts();
}

/// Focus reports are switched as the request says, off where it does not say, and the
/// request is acknowledged.
pub proof fn law_switched_focus<B: Backend, H: HeldKeys>(
    payload: JsonView,
    be_before: B,
    be_after: B,
    focus_before: PasteFocus,
    focus_after: PasteFocus,
    held_keys: H,
    elapsed_ms: u64,
    told: BackendAnswer,
    held: Set<u32>,
    answer: AnswerView,
    body: JsonView,
    on: bool,
)
    requires
        payload.get("payload"@) == Some(body),
        is_answered(
            request_of("SetFocusChangeDetectorState"@, payload),
            be_before,
            be_after,
            focus_before,
            focus_after,
            held_keys,
            elapsed_ms,
            told,
            held,
            answer,
        ),
    ensures
        focus_after == focus_before,
        answer == AnswerView::Ack,
        exists|active: bool|
            {
                &&& #[trigger] B::answers(
                    &be_before,
                    BackendCall::SetFocusDetection { active },
                    &be_after,
                    told,
                )
                &&& body.get("active"@) == Some(JsonView::Bool(on)) ==> active == on
                &&& (body.get("active"@) is None || body.get("active"@)->0 !is Bool) ==> !active
            },
{
    lemma_command_texts();
    let asked = request_of("SetFocusChangeDetectorState"@, payload);
    assert(B::answers(
        &be_before,
        BackendCall::SetFocusDetection { active: asked->active },
        &be_after,
        told,
    ));
}

/// The stale keys that are told are the numbers of the request's list that are not
/// held, in order; the backend is not asked.
pub proof fn law_told_stale_keys<B: Backend, H: HeldKeys>(
    payload: JsonView,
    be_before: B,
    be_after: B,
    focus_before: PasteFocus,
    focus_after: PasteFocus,
    held_keys: H,
    elapsed_ms: u64,
    told: BackendAnswer,
    held: Set<u32>,
    answer: AnswerView,
    body: JsonView,
    items: Seq<JsonView>,
)
    requires
        payload.get("payload"@) == Some(body),
        is_answered(
            request_of("CheckStaleKeys"@, payload),
            be_before,
            be_after,
            focus_before,
            focus_after,
            held_keys,
            elapsed_ms,
            told,
            held,
            answer,
        ),
    ensures
        be_after == be_before,
        focus_after == focus_before,
        held_keys.holds(held),
        body.get("keycodes"@) == Some(JsonView::List(items)) ==> {
            let stale = not_held(json::uints_of(items), held);
            answer == (AnswerView::Response {
                name: "StaleKeysResponse"@,
                body: JsonView::Object(
                    seq![
                        (
                            "payload"@,
                            JsonView::Object(
                                seq![
                                    (
                                        "staleKeys"@,
                                        JsonView::List(
                                            Seq::new(
                                                stale.len(),
                                                |i: int| JsonView::Uint(stale[i]),
                                            ),
                                        ),
                                    ),
                                ],
                            ),
                        ),
                    ],
                ),
            })
        },
        body.get("keycodes"@) is None || body.get("keycodes"@)->0 !is List ==> answer == (
        AnswerView::Response {
            name: "StaleKeysResponse"@,
            body: JsonView::Object(
                seq![
                    (
                        "payload"@,
                        JsonView::Object(seq![("staleKeys"@, JsonView::List(Seq::empty()))]),
                    ),
                ],
            ),
        }),
{
    lemma_command_texts();
    let asked = request_of("CheckStaleKeys"@, payload);
    let stale = not_held(asked->keycodes, held);
    if stale.len() == 0 {
        assert(Seq::new(stale.len(), |i: int| JsonView::Uint(stale[i])) =~= Seq::empty());
    }
}

/// The keys of a query that are not held come in the order of the query and as often;
/// a key counts as held by the low half of its number.
pub proof fn law_stale_keys_in_order(queried: Seq<u64>, key: u64, held: Set<u32>, vk: u32)
    requires
        vk as int == key as int % 0x1_0000_0000,
    ensures
        not_held(Seq::empty(), held) == Seq::<u64>::empty(),
        held.contains(vk) ==> not_held(queried.push(key), held) == not_held(queried, held),
        !held.contains(vk) ==> not_held(queried.push(key), held) == not_held(queried, held).push(
            key,
        ),
{
    assert(key as u32 == key % 0x1_0000_0000) by (bit_vector);
    assert(queried.push(key).drop_last() =~= queried);
}

/// The helper shows that it is ready with an acknowledgement and the time since it
/// began, and acknowledges a shutdown; the backend is asked for neither.
pub proof fn law_ready_and_shutdown<B: Backend, H: HeldKeys>(
    shutdown: bool,
    payload: JsonView,
    be_before: B,
    be_after: B,
    focus_before: PasteFocus,
    focus_after: PasteFocus,
    held_keys: H,
    elapsed_ms: u64,
    told: BackendAnswer,
    held: Set<u32>,
    answer: AnswerView,
)
    requires
        is_answered(
            request_of(
                if shutdown {
                    "HelperAppShutdown"@
                } else {
                    "IsReady"@
                },
                payload,
            ),
            be_before,
            be_after,
            focus_before,
            focus_after,
            held_keys,
            elapsed_ms,
            told,
            held,
            answer,
        ),
    ensures
        be_after == be_before,
        focus_after == focus_before,
        shutdown ==> answer == AnswerView::Ack,
        !shutdown ==> answer == (AnswerView::Envelope {
            name: "HelperAPIResponse"@,
            members: JsonView::Object(
                seq![
                    ("ACK"@, JsonView::Bool(true)),
                    (
                        "HelperLaunchTiming"@,
                        JsonView::Object(seq![("helperMainEntryMs"@, JsonView::Uint(elapsed_ms))]),
                    ),
                ],
            ),
        }),
        request_of("HelperAppShutdown"@, payload) is HelperAppShutdown,
        request_of("IsReady"@, payload) !is HelperAppShutdown,
{
    lemma_command_texts();
}

/// Only the command for a shutdown ends the helper.
pub proof fn law_only_shutdown_ends(command: Seq<char>, payload: JsonView)
    ensures
        request_of(command, payload) is HelperAppShutdown <==> command == "HelperAppShutdown"@,
{
    lemma_command_texts();
}

/// A command that is not known leaves the backend and the focus as they are and is
/// acknowledged.
pub proof fn law_unknown_command<B: Backend, H: HeldKeys>(
    command: Seq<char>,
    payload: JsonView,
    be_before: B,
    be_after: B,
    focus_before: PasteFocus,
    focus_after: PasteFocus,
    held_keys: H,
    elapsed_ms: u64,
    told: BackendAnswer,
    held: Set<u32>,
    answer: AnswerView,
)
    requires
        command != "IsReady"@,
        command != "PasteText"@,
        command != "SimulateKeyPress"@,
        command != "GetActiveAppInfo"@,
        command != "GetAppInfo"@,
        command != "GetRunningApps"@,
        command != "GetSelectedTextViaCopy"@,
        command != "GetAccessibilityStatus"@,
        command != "SetFocusChangeDetectorState"@,
        command != "CheckStaleKeys"@,
        command != "HelperAppShutdown"@,
        is_answered(
            request_of(command, payload),
            be_before,
            be_after,
            focus_before,
            focus_after,
            held_keys,
            elapsed_ms,
            told,
            held,
            answer,
        ),
    ensures
        be_after == be_before,
        focus_after == focus_before,
        answer == AnswerView::Ack,
{
}

/// What an answer says is what it holds.
pub proof fn law_answer_views(e: String, name: &'static str, body: Json)
    ensures
        Answer::Ack@ == AnswerView::Ack,
        Answer::Error(e)@ == AnswerView::Error(e@),
        (Answer::Response { name, body })@ == (AnswerView::Response { name: name@, body: body@ }),
        (Answer::Envelope { name, members: body })@ == (AnswerView::Envelope {
            name: name@,
            members: body@,
        }),
{
}

/// A request without an inner payload is one whose inner payload is null.
pub proof fn law_missing_payload(command: Seq<char>, payload: JsonView)
    requires
        payload.get("payload"@) is None,
    ensures
        request_of(command, payload) == request_of(
            command,
            JsonView::Object(seq![("payload"@, JsonView::Null)]),
        ),
{
    json::law_members(seq![("payload"@, JsonView::Null)], "payload"@, 0);
}

/// What a request says is what it holds.
pub proof fn law_request_views(
    text: String,
    html: String,
    keycode: u32,
    flags: Vec<String>,
    active: bool,
    keycodes: Vec<u64>,
)
    ensures
        (Request::PasteText { text, html: Some(html) })@ == (RequestView::PasteText {
            text: text@,
            html: Some(html@),
        }),
        (Request::PasteText { text, html: None })@ == (RequestView::PasteText {
            text: text@,
            html: None,
        }),
        (Request::SimulateKeyPress { keycode, flags })@ == (RequestView::SimulateKeyPress {
            keycode,
            flags: json::text_views(flags@),
        }),
        (Request::SetFocusChangeDetectorState { active })@ == (
        RequestView::SetFocusChangeDetectorState { active }),
        (Request::CheckStaleKeys { keycodes })@ == (RequestView::CheckStaleKeys {
            keycodes: keycodes@,
        }),
        Request::IsReady@ == RequestView::IsReady,
        Request::GetActiveAppInfo@ == RequestView::GetActiveAppInfo,
        Request::GetAppInfo@ == RequestView::GetAppInfo,
        Request::GetRunningApps@ == RequestView::GetRunningApps,
        Request::GetSelectedTextViaCopy@ == RequestView::GetSelectedTextViaCopy,
        Request::GetAccessibilityStatus@ == RequestView::GetAccessibilityStatus,
        Request::HelperAppShutdown@ == RequestView::HelperAppShutdown,
        Request::Acknowledge@ == RequestView::Acknowledge,
{
}

/// What a command asks for, read from the members of its inner payload.
pub proof fn law_requests_are_read(
    payload: JsonView,
    body: JsonView,
    text: Seq<char>,
    html: Seq<char>,
    n: u64,
    items: Seq<JsonView>,
    on: bool,
)
    requires
        payload.get("payload"@) == Some(body),
    ensures
        request_of("PasteText"@, payload) matches RequestView::PasteText { text: t, html: h } && {
            &&& body.get("text"@) == Some(JsonView::Text(text)) ==> t == text
            &&& body.get("text"@) is None ==> t.len() == 0
            &&& body.get("htmlText"@) == Some(JsonView::Text(html)) && html.len() > 0 ==> h == Some(
                html,
            )
            &&& body.get("htmlText"@) is None ==> h is None
        },
        request_of("SimulateKeyPress"@, payload) matches RequestView::SimulateKeyPress {
            keycode,
            flags,
        } && {
            &&& body.get("keycode"@) == Some(JsonView::Uint(n)) ==> keycode as int == n as int
                % 0x1_0000_0000
            &&& body.get("flags"@) == Some(JsonView::List(items)) ==> flags == JsonView::List(
                items,
            ).texts()
        },
        request_of("CheckStaleKeys"@, payload) matches RequestView::CheckStaleKeys { keycodes }
            && (body.get("keycodes"@) == Some(JsonView::List(items)) ==> keycodes == JsonView::List(
            items,
        ).uints()),
        request_of("SetFocusChangeDetectorState"@, payload)
            matches RequestView::SetFocusChangeDetectorState { active } && (body.get("active"@)
            == Some(JsonView::Bool(on)) ==> active == on),
        request_of("IsReady"@, payload) == RequestView::IsReady,
        request_of("GetActiveAppInfo"@, payload) == RequestView::GetActiveAppInfo,
        request_of("GetAppInfo"@, payload) == RequestView::GetAppInfo,
        request_of("GetRunningApps"@, payload) == RequestView::GetRunningApps,
        request_of("GetSelectedTextViaCopy"@, payload) == RequestView::GetSelectedTextViaCopy,
        request_of("GetAccessibilityStatus"@, payload) == RequestView::GetAccessibilityStatus,
        request_of("HelperAppShutdown"@, payload) == RequestView::HelperAppShutdown,
{
    lemma_command_texts();
    assert(n as u32 == n % 0x1_0000_0000) by (bit_vector);
}

/// What a failure, a command that is done and an application are answered with.
pub proof fn law_answers(
    command: Seq<char>,
    name: Seq<char>,
    e: Seq<char>,
    app: ActiveAppView,
)
    ensures
        failure(command, e) == AnswerView::Error(command + " failed: "@ + e),
        done(command, Ok(())) == AnswerView::Ack,
        done(command, Err(e)) == AnswerView::Error(command + " failed: "@ + e),
        app_told(command, name, Ok(app)) == (AnswerView::Response {
            name,
            body: backend::app_payload(app),
        }),
        app_told(command, name, Err(e)) == AnswerView::Error(command + " failed: "@ + e),
        apps_told(Err(e)) == AnswerView::Error("GetRunningApps"@ + " failed: "@ + e),
        selection_told(Err(e)) == AnswerView::Error("GetSelectedTextViaCopy"@ + " failed: "@ + e),
        app_entry(RunningAppView { bundle_id: name, name: e }) == JsonView::Object(
            seq![("bundleId"@, JsonView::Text(name)), ("name"@, JsonView::Text(e))],
        ),
{
}

} // verus!
