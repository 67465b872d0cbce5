use wispr_flow_linux_helper::backend::compose::{
    app_is_identified, choose_app, choose_apps, Composed,
};
use wispr_flow_linux_helper::backend::session::{detect, Detected};
use wispr_flow_linux_helper::backend::{
    active_app_payload, ActiveApp, ActiveAppProvider, Backend, RunningApp, Selection,
};
use wispr_flow_linux_helper::paste::PasteFocus;

#[derive(Default)]
struct Inner {
    app: Option<ActiveApp>,
    apps: Vec<RunningApp>,
    focus_seen: Vec<bool>,
    switched: Vec<bool>,
}

impl Backend for Inner {
    fn paste_text(
        &mut self,
        text: &str,
        _html: Option<&str>,
        focus: &mut PasteFocus,
    ) -> Result<(), String> {
        self.focus_seen.push(focus.focused_is_terminal);
        if text.is_empty() {
            return Err("nothing to paste".to_string());
        }
        Ok(())
    }

    fn simulate_key_press(&mut self, keycode_vk: u32, _flags: &[String]) -> Result<(), String> {
        if keycode_vk == 0 {
            return Err("no key".to_string());
        }
        Ok(())
    }

    fn get_active_app(&mut self) -> Result<ActiveApp, String> {
        self.app.clone().ok_or("unknown".to_string())
    }

    fn get_running_apps(&mut self) -> Result<Vec<RunningApp>, String> {
        Ok(self.apps.clone())
    }

    fn get_selected_text(&mut self) -> Result<Selection, String> {
        Ok(Selection { selected_text: "s".to_string(), ..Selection::default() })
    }

    fn accessibility_status(&mut self) -> bool {
        true
    }

    fn set_focus_detection(&mut self, active: bool) {
        self.switched.push(active);
    }

    fn name(&self) -> &'static str {
        "inner"
    }
}

#[derive(Default)]
struct Provider {
    app: Option<ActiveApp>,
    apps: Vec<RunningApp>,
    switched: Vec<bool>,
}

impl ActiveAppProvider for Provider {
    fn current(&self) -> Option<ActiveApp> {
        self.app.clone()
    }

    fn get_running_apps(&self) -> Vec<RunningApp> {
        self.apps.clone()
    }

    fn set_focus_detection(&mut self, active: bool) {
        self.switched.push(active);
    }

    fn name(&self) -> &'static str {
        "provider"
    }
}

fn named(name: &str) -> ActiveApp {
    ActiveApp { app_name: name.to_string(), ..ActiveApp::default() }
}

fn running(name: &str) -> RunningApp {
    RunningApp { bundle_id: name.to_string(), name: name.to_string() }
}

fn joined(inner: Option<&str>, provided: Option<&str>) -> Composed<Inner, Provider> {
    Composed {
        inner: Inner { app: inner.map(named), ..Inner::default() },
        provider: Provider { app: provided.map(named), ..Provider::default() },
    }
}

#[test]
fn backend_comes_before_provider() {
    let app = |inner, provided| joined(inner, provided).get_active_app().unwrap().app_name;
    assert_eq!(app(Some("inner"), Some("provided")), "inner");
    assert_eq!(app(Some(""), Some("provided")), "provided");
    assert_eq!(app(None, Some("provided")), "provided");
    assert_eq!(app(None, None), "");
}

#[test]
fn any_of_three_names_identifies_an_app() {
    assert!(!app_is_identified(&ActiveApp::default()));
    assert!(app_is_identified(&named("a")));
    let by_id = ActiveApp { bundle_id: "b".to_string(), ..ActiveApp::default() };
    let by_title = ActiveApp { window_title: "t".to_string(), ..ActiveApp::default() };
    let by_url = ActiveApp { url: "u".to_string(), ..ActiveApp::default() };
    assert!(app_is_identified(&by_id));
    assert!(app_is_identified(&by_title));
    assert!(!app_is_identified(&by_url));
    assert_eq!(choose_app(by_url.clone(), None).url, "u");
    assert_eq!(choose_app(by_url, Some(named("p"))).app_name, "p");
}

#[test]
fn provider_lists_apps_that_the_backend_does_not() {
    let mut both = joined(None, None);
    both.provider.apps = vec![running("p")];
    assert_eq!(both.get_running_apps().unwrap()[0].name, "p");
    both.inner.apps = vec![running("i")];
    assert_eq!(both.get_running_apps().unwrap()[0].name, "i");
    assert_eq!(choose_apps(Vec::new(), vec![running("x")]).len(), 1);
}

#[test]
fn paste_is_made_for_the_focused_app() {
    let mut focus = PasteFocus::new();
    let mut both = joined(None, Some("kitty"));
    assert_eq!(both.paste_text("x", None, &mut focus), Ok(()));
    assert!(focus.focused_is_terminal);
    both.provider.app = Some(named("firefox"));
    both.paste_text("x", None, &mut focus).unwrap();
    assert!(!focus.focused_is_terminal);
    assert_eq!(both.paste_text("", None, &mut focus), Err("nothing to paste".to_string()));
    assert_eq!(both.inner.focus_seen, vec![true, false, false]);
}

#[test]
fn the_rest_goes_to_the_backend() {
    let mut both = joined(None, None);
    assert_eq!(both.name(), "inner");
    assert_eq!(both.simulate_key_press(65, &[]), Ok(()));
    assert_eq!(both.simulate_key_press(0, &[]), Err("no key".to_string()));
    assert_eq!(both.get_selected_text().unwrap().selected_text, "s");
    assert!(both.accessibility_status());
    both.set_focus_detection(true);
    assert_eq!((both.inner.switched, both.provider.switched), (vec![true], vec![true]));
}

#[test]
fn detected_backend_joins_a_provider_if_there_is_one() {
    let mut plain = detect(Inner::default(), None::<Provider>);
    assert!(matches!(plain, Detected::Plain(_)));
    assert!(plain.get_active_app().is_err());
    let provider = Provider { app: Some(named("kitty")), ..Provider::default() };
    let mut full = detect(Inner::default(), Some(provider));
    assert!(matches!(full, Detected::Joined(_)));
    assert_eq!(full.get_active_app().unwrap().app_name, "kitty");
    let mut focus = PasteFocus::new();
    full.paste_text("x", None, &mut focus).unwrap();
    assert!(focus.focused_is_terminal);
    assert_eq!(full.name(), "inner");
    assert!(full.get_running_apps().unwrap().is_empty());
    assert!(full.accessibility_status());
    full.set_focus_detection(false);
    assert_eq!(full.get_selected_text().unwrap().selected_text, "s");
    assert!(full.simulate_key_press(0, &[]).is_err());
}

#[test]
fn payload_describes_an_app() {
    let app = ActiveApp {
        app_name: "n".to_string(),
        bundle_id: "b".to_string(),
        window_title: "t".to_string(),
        url: "u".to_string(),
    };
    let body = active_app_payload(&app);
    let inner = body.get("payload").unwrap();
    let read = |key| inner.get(key).and_then(|v| v.as_str());
    assert_eq!(read("appName"), Some("n"));
    assert_eq!(read("bundleId"), Some("b"));
    assert_eq!(read("windowTitle"), Some("t"));
    assert_eq!(read("url"), Some("u"));
    assert!(inner.get("codingCliAgent").is_none());
}
