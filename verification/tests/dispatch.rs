use std::collections::HashSet;

use wispr_flow_linux_helper::backend::{ActiveApp, Backend, RunningApp, Selection};
use wispr_flow_linux_helper::dispatch::{
    decode_request, done_answer, handle_message, handle_request, stale_keys, Answer, HeldKeys,
    Incoming, Kind, Reply, Request,
};
use wispr_flow_linux_helper::json::{list, member, object, payload, text_value, Json};
use wispr_flow_linux_helper::paste::PasteFocus;

#[derive(Default)]
struct Scripted {
    error: Option<String>,
    calls: Vec<String>,
}

impl Scripted {
    fn note(&mut self, call: String) -> Result<(), String> {
        self.calls.push(call);
        match &self.error {
            Some(e) => Err(e.clone()),
            None => Ok(()),
        }
    }
}

impl Backend for Scripted {
    fn paste_text(
        &mut self,
        text: &str,
        html: Option<&str>,
        focus: &mut PasteFocus,
    ) -> Result<(), String> {
        focus.focused_is_terminal = true;
        self.note(format!("paste {text:?} {html:?}"))
    }

    fn simulate_key_press(&mut self, keycode_vk: u32, flags: &[String]) -> Result<(), String> {
        self.note(format!("press {keycode_vk} {flags:?}"))
    }

    fn get_active_app(&mut self) -> Result<ActiveApp, String> {
        self.note("app".to_string())?;
        Ok(ActiveApp {
            app_name: "n".to_string(),
            bundle_id: "b".to_string(),
            window_title: "t".to_string(),
            url: "u".to_string(),
        })
    }

    fn get_running_apps(&mut self) -> Result<Vec<RunningApp>, String> {
        self.note("apps".to_string())?;
        Ok(vec![RunningApp { bundle_id: "b".to_string(), name: "n".to_string() }])
    }

    fn get_selected_text(&mut self) -> Result<Selection, String> {
        self.note("selection".to_string())?;
        Ok(Selection {
            selected_text: "s".to_string(),
            before_text: "b".to_string(),
            after_text: "a".to_string(),
            contents: "c".to_string(),
        })
    }

    fn accessibility_status(&mut self) -> bool {
        self.calls.push("status".to_string());
        self.error.is_none()
    }

    fn set_focus_detection(&mut self, active: bool) {
        self.calls.push(format!("focus {active}"));
    }

    fn name(&self) -> &'static str {
        "scripted"
    }
}

struct Keys(Vec<u32>);

impl HeldKeys for Keys {
    fn held_vks(&self) -> HashSet<u32> {
        self.0.iter().copied().collect()
    }
}

fn message(command: &str, body: Json) -> Incoming {
    Incoming {
        kind: Kind::Request,
        command: command.to_string(),
        uuid: "id-1".to_string(),
        payload: payload(body),
    }
}

fn ask(be: &mut Scripted, command: &str, body: Json) -> Reply {
    let mut focus = PasteFocus::new();
    handle_request(be, &Keys(vec![65, 17]), &mut focus, &message(command, body), 42)
}

fn text_at<'a>(json: &'a Json, path: &[&str]) -> Option<&'a str> {
    let mut at = json;
    for key in path {
        at = at.get(key)?;
    }
    at.as_str()
}

fn response(reply: &Reply) -> (&'static str, &Json) {
    assert_eq!(reply.uuid, "id-1");
    match &reply.answer {
        Answer::Response { name, body } => (*name, body),
        other => panic!("{other:?}"),
    }
}

fn error(reply: &Reply) -> &str {
    assert_eq!(reply.uuid, "id-1");
    match &reply.answer {
        Answer::Error(e) => e,
        other => panic!("{other:?}"),
    }
}

#[test]
fn readiness_is_answered_with_the_time() {
    let mut be = Scripted::default();
    let reply = ask(&mut be, "IsReady", Json::Null);
    match &reply.answer {
        Answer::Envelope { name, members } => {
            assert_eq!(*name, "HelperAPIResponse");
            assert_eq!(members.get("ACK").and_then(|v| v.as_bool()), Some(true));
            let timing = members.get("HelperLaunchTiming").unwrap();
            assert_eq!(timing.get("helperMainEntryMs").and_then(|v| v.as_u64()), Some(42));
        }
        other => panic!("{other:?}"),
    }
    assert!(be.calls.is_empty());
    assert!(!reply.exit);
}

#[test]
fn paste_takes_text_and_html() {
    let mut be = Scripted::default();
    let body = object(vec![
        member("text", text_value("hi")),
        member("htmlText", text_value("<i>hi</i>")),
    ]);
    assert!(matches!(ask(&mut be, "PasteText", body).answer, Answer::Ack));
    let body = object(vec![member("text", text_value("hi")), member("htmlText", text_value(""))]);
    ask(&mut be, "PasteText", body);
    ask(&mut be, "PasteText", Json::Null);
    assert_eq!(
        be.calls,
        vec!["paste \"hi\" Some(\"<i>hi</i>\")", "paste \"hi\" None", "paste \"\" None"]
    );
}

#[test]
fn paste_hands_the_focus_through() {
    let mut be = Scripted::default();
    let mut focus = PasteFocus::new();
    let msg = message("PasteText", Json::Null);
    handle_request(&mut be, &Keys(Vec::new()), &mut focus, &msg, 0);
    assert!(focus.focused_is_terminal);
    let mut focus = PasteFocus::new();
    let msg = message("IsReady", Json::Null);
    handle_request(&mut be, &Keys(Vec::new()), &mut focus, &msg, 0);
    assert!(!focus.focused_is_terminal);
}

#[test]
fn key_press_reads_code_and_flags() {
    let mut be = Scripted::default();
    let flags = list(vec![text_value("Shift"), Json::Uint(3), text_value("Control")]);
    let body = object(vec![member("keycode", Json::Uint(65)), member("flags", flags)]);
    assert!(matches!(ask(&mut be, "SimulateKeyPress", body).answer, Answer::Ack));
    ask(&mut be, "SimulateKeyPress", Json::Null);
    let body = object(vec![member("keycode", Json::Uint(0x1_0000_0041))]);
    ask(&mut be, "SimulateKeyPress", body);
    let body = object(vec![member("keycode", Json::OtherNumber), member("flags", Json::Bool(true))]);
    ask(&mut be, "SimulateKeyPress", body);
    assert_eq!(
        be.calls,
        vec!["press 65 [\"Shift\", \"Control\"]", "press 0 []", "press 65 []", "press 0 []"]
    );
}

#[test]
fn both_app_commands_describe_the_app() {
    let mut be = Scripted::default();
    for (command, expected) in [("GetActiveAppInfo", "ActiveAppInfo"), ("GetAppInfo", "AppInfo")] {
        let reply = ask(&mut be, command, Json::Null);
        let (name, body) = response(&reply);
        assert_eq!(name, expected);
        assert_eq!(text_at(body, &["payload", "appName"]), Some("n"));
        assert_eq!(text_at(body, &["payload", "bundleId"]), Some("b"));
        assert_eq!(text_at(body, &["payload", "windowTitle"]), Some("t"));
        assert_eq!(text_at(body, &["payload", "url"]), Some("u"));
    }
}

#[test]
fn running_apps_are_listed() {
    let mut be = Scripted::default();
    let reply = ask(&mut be, "GetRunningApps", Json::Null);
    let (name, body) = response(&reply);
    assert_eq!(name, "RunningApps");
    match body.get("payload").and_then(|p| p.get("apps")) {
        Some(Json::List(apps)) => {
            assert_eq!(apps.len(), 1);
            assert_eq!(text_at(&apps[0], &["bundleId"]), Some("b"));
            assert_eq!(text_at(&apps[0], &["name"]), Some("n"));
        }
        other => panic!("{other:?}"),
    }
}

#[test]
fn selection_is_told() {
    let mut be = Scripted::default();
    let reply = ask(&mut be, "GetSelectedTextViaCopy", Json::Null);
    let (name, body) = response(&reply);
    assert_eq!(name, "SelectedTextViaCopy");
    assert_eq!(text_at(body, &["payload", "selectedText"]), Some("s"));
    assert_eq!(text_at(body, &["payload", "beforeText"]), Some("b"));
    assert_eq!(text_at(body, &["payload", "afterText"]), Some("a"));
    assert_eq!(text_at(body, &["payload", "contents"]), Some("c"));
}

#[test]
fn accessibility_is_told() {
    let mut be = Scripted::default();
    let reply = ask(&mut be, "GetAccessibilityStatus", Json::Null);
    let (name, body) = response(&reply);
    assert_eq!(name, "AccessibilityStatus");
    let status = body.get("payload").and_then(|p| p.get("status")).and_then(|v| v.as_bool());
    assert_eq!(status, Some(true));
}

#[test]
fn errors_carry_the_command_and_the_cause() {
    let mut be = Scripted { error: Some("boom".to_string()), calls: Vec::new() };
    for command in [
        "PasteText",
        "SimulateKeyPress",
        "GetActiveAppInfo",
        "GetAppInfo",
        "GetRunningApps",
        "GetSelectedTextViaCopy",
    ] {
        let reply = ask(&mut be, command, Json::Null);
        assert_eq!(error(&reply), format!("{command} failed: boom"));
        assert!(!reply.exit);
    }
    assert!(matches!(done_answer("X", Ok(())), Answer::Ack));
}

#[test]
fn focus_detection_is_switched() {
    let mut be = Scripted::default();
    for active in [true, false] {
        let body = object(vec![member("active", Json::Bool(active))]);
        let reply = ask(&mut be, "SetFocusChangeDetectorState", body);
        assert!(matches!(reply.answer, Answer::Ack));
    }
    ask(&mut be, "SetFocusChangeDetectorState", Json::Null);
    assert_eq!(be.calls, vec!["focus true", "focus false", "focus false"]);
}

#[test]
fn stale_keys_are_those_not_held() {
    let mut be = Scripted::default();
    let codes = list(vec![Json::Uint(65), Json::Uint(66), text_value("x"), Json::Uint(67)]);
    let reply = ask(&mut be, "CheckStaleKeys", object(vec![member("keycodes", codes)]));
    let (name, body) = response(&reply);
    assert_eq!(name, "StaleKeysResponse");
    let stale = body.get("payload").and_then(|p| p.get("staleKeys")).unwrap();
    assert_eq!(stale.to_u64s(), vec![66, 67]);
    let held = HashSet::from([1]);
    assert_eq!(stale_keys(&vec![2, 1, 2, 0x1_0000_0001], &held), vec![2, 2]);
    assert!(be.calls.is_empty());
}

#[test]
fn shutdown_is_acknowledged_and_ends_the_helper() {
    let mut be = Scripted::default();
    let reply = ask(&mut be, "HelperAppShutdown", Json::Null);
    assert!(matches!(reply.answer, Answer::Ack));
    assert!(reply.exit);
    assert_eq!(reply.uuid, "id-1");
}

#[test]
fn unknown_commands_are_acknowledged() {
    let mut be = Scripted::default();
    for command in
        ["RequestAccessibilityPermission", "StartAccessibilityServices", "SomethingElse", "", "isready"]
    {
        let reply = ask(&mut be, command, Json::Null);
        assert!(matches!(reply.answer, Answer::Ack));
        assert!(!reply.exit);
    }
    assert!(be.calls.is_empty());
    assert!(matches!(decode_request("SomethingElse", &Json::Null), Request::Acknowledge));
}

#[test]
fn arguments_stand_in_the_inner_payload() {
    let outer = object(vec![member("text", text_value("outer"))]);
    match decode_request("PasteText", &outer) {
        Request::PasteText { text, html } => assert_eq!((text.as_str(), html), ("", None)),
        other => panic!("{other:?}"),
    }
}

#[test]
fn answers_are_not_answered() {
    let mut be = Scripted::default();
    let mut focus = PasteFocus::new();
    let mut msg = message("HelperAppShutdown", Json::Null);
    msg.kind = Kind::Response;
    assert!(handle_message(&mut be, &Keys(Vec::new()), &mut focus, &msg, 0).is_none());
    msg.kind = Kind::Request;
    let reply = handle_message(&mut be, &Keys(Vec::new()), &mut focus, &msg, 0).unwrap();
    assert!(reply.exit);
}
