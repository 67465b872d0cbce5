//! What the helper asks of a desktop session, and how the parts that answer are
//! chosen and put together.
pub mod compose;
pub mod device;
pub mod pasting;
pub mod selection;
pub mod session;
pub mod tool;
pub mod uinput;
pub mod wayland;
pub mod x11;

use crate::json;
use crate::json::{Json, JsonView, Member};
use crate::paste::PasteFocus;
use vstd::prelude::*;

verus! {

/// The focused application.
#[derive(Debug)]
pub struct ActiveApp {
    pub app_name: String,
    /// The window class, desktop-file identifier or program name.
    pub bundle_id: String,
    pub window_title: String,
    /// The address of the page that a browser shows, if it is known.
    pub url: String,
}

/// The selected text and what stands around it.
#[derive(Debug)]
pub struct Selection {
    pub selected_text: String,
    pub before_text: String,
    pub after_text: String,
    pub contents: String,
}

/// A running application.
#[derive(Debug)]
pub struct RunningApp {
    pub bundle_id: String,
    pub name: String,
}

/// What an `ActiveApp` says.
pub struct ActiveAppView {
    pub app_name: Seq<char>,
    pub bundle_id: Seq<char>,
    pub window_title: Seq<char>,
    pub url: Seq<char>,
}

/// What a `Selection` says.
pub struct SelectionView {
    pub selected_text: Seq<char>,
    pub before_text: Seq<char>,
    pub after_text: Seq<char>,
    pub contents: Seq<char>,
}

/// What a `RunningApp` says.
pub struct RunningAppView {
    pub bundle_id: Seq<char>,
    pub name: Seq<char>,
}

impl View for ActiveApp {
    type V = ActiveAppView;

    open spec fn view(&self) -> ActiveAppView {
        ActiveAppView {
            app_name: self.app_name@,
            bundle_id: self.bundle_id@,
            window_title: self.window_title@,
            url: self.url@,
        }
    }
}

impl View for Selection {
    type V = SelectionView;

    open spec fn view(&self) -> SelectionView {
        SelectionView {
            selected_text: self.selected_text@,
            before_text: self.before_text@,
            after_text: self.after_text@,
            contents: self.contents@,
        }
    }
}

impl View for RunningApp {
    type V = RunningAppView;

    open spec fn view(&self) -> RunningAppView {
        RunningAppView { bundle_id: self.bundle_id@, name: self.name@ }
    }
}

/// An application of which nothing is known.
pub open spec fn blank_app() -> ActiveAppView {
    ActiveAppView {
        app_name: Seq::empty(),
        bundle_id: Seq::empty(),
        window_title: Seq::empty(),
        url: Seq::empty(),
    }
}

impl Default for ActiveApp {
    fn default() -> (r: ActiveApp)
        ensures
            r@ == blank_app(),
    {
        ActiveApp {
            app_name: String::new(),
            bundle_id: String::new(),
            window_title: String::new(),
            url: String::new(),
        }
    }
}

impl Default for Selection {
    fn default() -> (r: Selection)
        ensures
            r@ == (SelectionView {
                selected_text: Seq::empty(),
                before_text: Seq::empty(),
                after_text: Seq::empty(),
                contents: Seq::empty(),
            }),
    {
        Selection {
            selected_text: String::new(),
            before_text: String::new(),
            after_text: String::new(),
            contents: String::new(),
        }
    }
}

impl Clone for ActiveApp {
    fn clone(&self) -> (r: ActiveApp)
        ensures
            r@ == self@,
    {
        ActiveApp {
            app_name: self.app_name.clone(),
            bundle_id: self.bundle_id.clone(),
            window_title: self.window_title.clone(),
            url: self.url.clone(),
        }
    }
}

impl Clone for Selection {
    fn clone(&self) -> (r: Selection)
        ensures
            r@ == self@,
    {
        Selection {
            selected_text: self.selected_text.clone(),
            before_text: self.before_text.clone(),
            after_text: self.after_text.clone(),
            contents: self.contents.clone(),
        }
    }
}

impl Clone for RunningApp {
    fn clone(&self) -> (r: RunningApp)
        ensures
            r@ == self@,
    {
        RunningApp { bundle_id: self.bundle_id.clone(), name: self.name.clone() }
    }
}

/// What a list of running applications says.
pub open spec fn app_views(apps: Seq<RunningApp>) -> Seq<RunningAppView> {
    Seq::new(apps.len(), |i: int| apps[i]@)
}

/// What an optional text says.
pub open spec fn opt_text(s: Option<&str>) -> Option<Seq<char>> {
    match s {
        Some(s) => Some(s@),
        None => None,
    }
}

/// What a result without a value says.
pub open spec fn unit_view(r: Result<(), String>) -> Result<(), Seq<char>> {
    match r {
        Ok(()) => Ok(()),
        Err(e) => Err(e@),
    }
}

/// What a result with an application says.
pub open spec fn app_result(r: Result<ActiveApp, String>) -> Result<ActiveAppView, Seq<char>> {
    match r {
        Ok(a) => Ok(a@),
        Err(e) => Err(e@),
    }
}

/// What a result with running applications says.
pub open spec fn apps_result(r: Result<Vec<RunningApp>, String>) -> Result<
    Seq<RunningAppView>,
    Seq<char>,
> {
    match r {
        Ok(a) => Ok(app_views(a@)),
        Err(e) => Err(e@),
    }
}

/// What a result with a selection says.
pub open spec fn selection_result(r: Result<Selection, String>) -> Result<
    SelectionView,
    Seq<char>,
> {
    match r {
        Ok(s) => Ok(s@),
        Err(e) => Err(e@),
    }
}

/// What is asked of a backend.
pub enum BackendCall {
    PasteText { text: Seq<char>, html: Option<Seq<char>>, focused_is_terminal: bool },
    SimulateKeyPress { keycode_vk: u32, flags: Seq<Seq<char>> },
    GetActiveApp,
    GetRunningApps,
    GetSelectedText,
    AccessibilityStatus,
    SetFocusDetection { active: bool },
}

/// What a backend answers.
pub enum BackendAnswer {
    Pasted { result: Result<(), Seq<char>>, focused_is_terminal: bool },
    Pressed(Result<(), Seq<char>>),
    App(Result<ActiveAppView, Seq<char>>),
    Apps(Result<Seq<RunningAppView>, Seq<char>>),
    Selected(Result<SelectionView, Seq<char>>),
    Status(bool),
    Switched,
}

/// A way to paste, press keys and look around in a desktop session.
pub trait Backend: Send {
    /// The backend in state `pre` may give `answer` to `call` and be in state
    /// `post` afterwards.
    open spec fn answers(pre: &Self, call: BackendCall, post: &Self, answer: BackendAnswer) -> bool {
        true
    }

    /// The backend may go by `name`.
    open spec fn goes_by(&self, name: Seq<char>) -> bool {
        true
    }

    /// Sets the clipboard to `text`, and to `html` beside it, and presses the
    /// paste chord for `focus`.
    fn paste_text(&mut self, text: &str, html: Option<&str>, focus: &mut PasteFocus) -> (r: Result<
        (),
        String,
    >)
        ensures
            Self::answers(
                old(self),
                BackendCall::PasteText {
                    text: text@,
                    html: opt_text(html),
                    focused_is_terminal: old(focus).focused_is_terminal,
                },
                final(self),
                BackendAnswer::Pasted {
                    result: unit_view(r),
                    focused_is_terminal: final(focus).focused_is_terminal,
                },
            ),
    ;

    /// Presses the key of a VK code with the modifiers that `flags` names.
    fn simulate_key_press(&mut self, keycode_vk: u32, flags: &[String]) -> (r: Result<(), String>)
        ensures
            Self::answers(
                old(self),
                BackendCall::SimulateKeyPress { keycode_vk, flags: json::text_views(flags@) },
                final(self),
                BackendAnswer::Pressed(unit_view(r)),
            ),
    ;

    /// The focused application.
    fn get_active_app(&mut self) -> (r: Result<ActiveApp, String>)
        ensures
            Self::answers(
                old(self),
                BackendCall::GetActiveApp,
                final(self),
                BackendAnswer::App(app_result(r)),
            ),
    ;

    /// The running applications.
    fn get_running_apps(&mut self) -> (r: Result<Vec<RunningApp>, String>)
        ensures
            Self::answers(
                old(self),
                BackendCall::GetRunningApps,
                final(self),
                BackendAnswer::Apps(apps_result(r)),
            ),
    ;

    /// The selected text.
    fn get_selected_text(&mut self) -> (r: Result<Selection, String>)
        ensures
            Self::answers(
                old(self),
                BackendCall::GetSelectedText,
                final(self),
                BackendAnswer::Selected(selection_result(r)),
            ),
    ;

    /// Whether injection can be used.
    fn accessibility_status(&mut self) -> (r: bool)
        ensures
            Self::answers(
                old(self),
                BackendCall::AccessibilityStatus,
                final(self),
                BackendAnswer::Status(r),
            ),
    ;

    /// Switches the reporting of focus changes.
    fn set_focus_detection(&mut self, active: bool)
        ensures
            Self::answers(
                old(self),
                BackendCall::SetFocusDetection { active },
                final(self),
                BackendAnswer::Switched,
            ),
    ;

    /// The name of the backend.
    fn name(&self) -> (r: &'static str)
        ensures
            self.goes_by(r@),
    ;
}

/// A source of the focused application and of the running ones, chosen
/// independently of the backend that injects.
pub trait ActiveAppProvider: Send {
    /// The provider may report `app` as the focused application.
    open spec fn reports(&self, app: Option<ActiveAppView>) -> bool {
        true
    }

    /// The provider may list `apps` as the running applications.
    open spec fn lists(&self, apps: Seq<RunningAppView>) -> bool {
        true
    }

    /// Switching focus reports may take the provider from `pre` to `post`.
    open spec fn switches(pre: &Self, active: bool, post: &Self) -> bool {
        true
    }

    /// The provider may go by `name`.
    open spec fn goes_by(&self, name: Seq<char>) -> bool {
        true
    }

    /// The focused application, if it is known.
    fn current(&self) -> (r: Option<ActiveApp>)
        ensures
            self.reports(opt_app(r)),
    ;

    /// The running applications.
    fn get_running_apps(&self) -> (r: Vec<RunningApp>)
        ensures
            self.lists(app_views(r@)),
    ;

    /// Switches the reporting of focus changes.
    fn set_focus_detection(&mut self, active: bool)
        ensures
            Self::switches(old(self), active, final(self)),
    ;

    /// The name of the provider.
    fn name(&self) -> (r: &'static str)
        ensures
            self.goes_by(r@),
    ;
}

/// The body that describes an application.
pub open spec fn app_payload(app: ActiveAppView) -> JsonView {
    json::payload_view(
        JsonView::Object(
            seq![
                ("appName"@, JsonView::Text(app.app_name)),
                ("bundleId"@, JsonView::Text(app.bundle_id)),
                ("windowTitle"@, JsonView::Text(app.window_title)),
                ("url"@, JsonView::Text(app.url)),
            ],
        ),
    )
}

/// The body that describes an application, as answers and focus events carry it.
pub fn active_app_payload(a: &ActiveApp) -> (r: Json)
    ensures
        r@ == app_payload(a@),
{
    let members: Vec<Member> = vec![
        json::member("appName", json::text_value(a.app_name.as_str())),
        json::member("bundleId", json::text_value(a.bundle_id.as_str())),
        json::member("windowTitle", json::text_value(a.window_title.as_str())),
        json::member("url", json::text_value(a.url.as_str())),
    ];
    proof {
        assert(json::member_views(members@) =~= seq![
            ("appName"@, JsonView::Text(a.app_name@)),
            ("bundleId"@, JsonView::Text(a.bundle_id@)),
            ("windowTitle"@, JsonView::Text(a.window_title@)),
            ("url"@, JsonView::Text(a.url@)),
        ]);
    }
    json::payload(json::object(members))
}

/// The body that describes an application holds the application's four texts, and
/// leaves out what is not known of it: a member that may be absent is never
/// present without a value.
pub proof fn law_app_payload_members(app: ActiveAppView)
    ensures
        app_payload(app).get("payload"@) matches Some(body) && {
            &&& body.get("appName"@) == Some(JsonView::Text(app.app_name))
            &&& body.get("bundleId"@) == Some(JsonView::Text(app.bundle_id))
            &&& body.get("windowTitle"@) == Some(JsonView::Text(app.window_title))
            &&& body.get("url"@) == Some(JsonView::Text(app.url))
            &&& body.get("codingCliAgent"@) is None
            &&& body.get("codingCliAgentConfidence"@) is None
        },
{
    let outer = app_payload(app)->Object_0;
    json::lemma_found(outer, 0);
    let members = outer[0].1->Object_0;
    reveal_strlit("appName");
    reveal_strlit("bundleId");
    reveal_strlit("windowTitle");
    reveal_strlit("url");
    reveal_strlit("codingCliAgent");
    reveal_strlit("codingCliAgentConfidence");
    assert("appName"@.len() == 7 && "bundleId"@.len() == 8 && "windowTitle"@.len() == 11
        && "url"@.len() == 3);
    json::lemma_found(members, 0);
    json::lemma_found(members, 1);
    json::lemma_found(members, 2);
    json::lemma_found(members, 3);
    assert("codingCliAgent"@.len() == 14 && "codingCliAgentConfidence"@.len() == 24);
    json::lemma_not_found(members, "codingCliAgent"@);
    json::lemma_not_found(members, "codingCliAgentConfidence"@);
}

/// What an optional application says.
pub open spec fn opt_app(app: Option<ActiveApp>) -> Option<ActiveAppView> {
    match app {
        Some(a) => Some(a@),
        None => None,
    }
}

/// What an application, a selection and a running application say is what their
/// fields hold, each field its own.
pub proof fn law_views_hold_the_fields(app: ActiveApp, selection: Selection, running: RunningApp)
    ensures
        app@.app_name == app.app_name@,
        app@.bundle_id == app.bundle_id@,
        app@.window_title == app.window_title@,
        app@.url == app.url@,
        selection@.selected_text == selection.selected_text@,
        selection@.before_text == selection.before_text@,
        selection@.after_text == selection.after_text@,
        selection@.contents == selection.contents@,
        running@.bundle_id == running.bundle_id@,
        running@.name == running.name@,
        blank_app().app_name.len() == 0 && blank_app().bundle_id.len() == 0
            && blank_app().window_title.len() == 0 && blank_app().url.len() == 0,
{
}

/// What a result says is what it holds: its value's view, or its error's text.
pub proof fn law_results_hold_the_values(
    app: ActiveApp,
    apps: Vec<RunningApp>,
    selection: Selection,
    e: String,
    s: &str,
)
    ensures
        unit_view(Ok(())) == Ok::<(), Seq<char>>(()),
        unit_view(Err(e)) == Err::<(), Seq<char>>(e@),
        app_result(Ok(app)) == Ok::<ActiveAppView, Seq<char>>(app@),
        app_result(Err(e)) == Err::<ActiveAppView, Seq<char>>(e@),
        selection_result(Ok(selection)) == Ok::<SelectionView, Seq<char>>(selection@),
        selection_result(Err(e)) == Err::<SelectionView, Seq<char>>(e@),
        apps_result(Ok(apps)) matches Ok(said) && said.len() == apps@.len() && forall|i: int|
            0 <= i < said.len() ==> #[trigger] said[i] == apps@[i]@,
        apps_result(Err(e)) == Err::<Seq<RunningAppView>, Seq<char>>(e@),
        opt_text(Some(s)) == Some(s@),
        opt_text(None) is None,
        opt_app(Some(app)) == Some(app@),
        opt_app(None) is None,
{
}

/// What a list of running applications says is what each of them says, in order.
pub proof fn law_app_lists(apps: Seq<RunningApp>)
    ensures
        app_views(apps).len() == apps.len(),
        forall|i: int| 0 <= i < apps.len() ==> #[trigger] app_views(apps)[i] == apps[i]@,
{
}

} // verus!
