//! A backend that injects, joined with a provider that knows the applications.
use crate::backend::{
    ActiveApp, ActiveAppProvider, ActiveAppView, Backend, BackendAnswer, BackendCall, RunningApp,
    RunningAppView, Selection,
};
use crate::backend;
use crate::paste;
use crate::paste::PasteFocus;
use vstd::prelude::*;

verus! {

/// Injection, clipboard and selection come from `inner`. So do the focused and
/// the running applications where `inner` knows them; where it does not, the
/// provider fills in.
pub struct Composed<B: Backend, P: ActiveAppProvider> {
    pub inner: B,
    pub provider: P,
}

/// The application is known by name, by identifier or by its window's title.
pub open spec fn is_identified(app: ActiveAppView) -> bool {
    app.app_name.len() > 0 || app.bundle_id.len() > 0 || app.window_title.len() > 0
}

/// The application of an answer; a failed answer knows nothing.
pub open spec fn app_or_blank(answer: Result<ActiveAppView, Seq<char>>) -> ActiveAppView {
    match answer {
        Ok(a) => a,
        Err(_) => backend::blank_app(),
    }
}

/// The focused application, given what the backend knows and what the provider
/// reports.
pub open spec fn chosen_app(
    inner: ActiveAppView,
    provided: Option<ActiveAppView>,
) -> ActiveAppView {
    if is_identified(inner) {
        inner
    } else {
        match provided {
            Some(app) => app,
            None => inner,
        }
    }
}

/// Whether the application is known by name, by identifier or by its window's
/// title.
pub fn app_is_identified(app: &ActiveApp) -> (r: bool)
    ensures
        r == is_identified(app@),
{
    !app.app_name.as_str().is_empty() || !app.bundle_id.as_str().is_empty()
        || !app.window_title.as_str().is_empty()
}

/// The focused application, given what the backend knows and what the provider
/// reports.
pub fn choose_app(inner: ActiveApp, provided: Option<ActiveApp>) -> (r: ActiveApp)
    ensures
        r@ == chosen_app(inner@, backend::opt_app(provided)),
{
    if app_is_identified(&inner) {
        return inner;
    }
    match provided {
        Some(app) => app,
        None => inner,
    }
}

/// The running applications, given what the backend knows and what the provider
/// lists.
pub fn choose_apps(inner: Vec<RunningApp>, provided: Vec<RunningApp>) -> (r: Vec<RunningApp>)
    ensures
        r == (if inner@.len() > 0 {
            inner
        } else {
            provided
        }),
{
    if inner.len() > 0 {
        inner
    } else {
        provided
    }
}

/// Looking up the focused application may give `app`: `inner` is asked, and the
/// provider too if `inner` does not know.
pub open spec fn looks_up<B: Backend, P: ActiveAppProvider>(
    pre: &Composed<B, P>,
    post: &Composed<B, P>,
    app: ActiveAppView,
) -> bool {
    &&& post.provider == pre.provider
    &&& exists|answer: Result<ActiveAppView, Seq<char>>, provided: Option<ActiveAppView>|
        {
            &&& #[trigger] B::answers(
                &pre.inner,
                BackendCall::GetActiveApp,
                &post.inner,
                BackendAnswer::App(answer),
            )
            &&& #[trigger] P::reports(&pre.provider, provided) || is_identified(
                app_or_blank(answer),
            )
            &&& app == chosen_app(app_or_blank(answer), provided)
        }
}

/// Listing the running applications may give `apps`: `inner` is asked, and the
/// provider too if `inner` lists none.
pub open spec fn lists_apps<B: Backend, P: ActiveAppProvider>(
    pre: &Composed<B, P>,
    post: &Composed<B, P>,
    apps: Seq<RunningAppView>,
) -> bool {
    &&& post.provider == pre.provider
    &&& exists|answer: Result<Seq<RunningAppView>, Seq<char>>|
        {
            &&& #[trigger] B::answers(
                &pre.inner,
                BackendCall::GetRunningApps,
                &post.inner,
                BackendAnswer::Apps(answer),
            )
            &&& if answer is Ok && answer->Ok_0.len() > 0 {
                apps == answer->Ok_0
            } else {
                P::lists(&pre.provider, apps)
            }
        }
}

/// Pasting may give `answer`: the focused application is looked up first, and
/// `inner` pastes for what that application is.
pub open spec fn pastes<B: Backend, P: ActiveAppProvider>(
    pre: &Composed<B, P>,
    text: Seq<char>,
    html: Option<Seq<char>>,
    post: &Composed<B, P>,
    answer: BackendAnswer,
) -> bool {
    exists|mid: &Composed<B, P>, app: ActiveAppView|
        {
            &&& #[trigger] looks_up(pre, mid, app)
            &&& B::answers(
                &mid.inner,
                BackendCall::PasteText {
                    text,
                    html,
                    focused_is_terminal: paste::is_terminal(app.app_name, app.bundle_id),
                },
                &post.inner,
                answer,
            )
            &&& post.provider == mid.provider
        }
}

impl<B: Backend, P: ActiveAppProvider> Backend for Composed<B, P> {
    open spec fn answers(
        pre: &Self,
        call: BackendCall,
        post: &Self,
        answer: BackendAnswer,
    ) -> bool {
        match call {
            BackendCall::GetActiveApp => answer matches BackendAnswer::App(Ok(app)) && looks_up(
                pre,
                post,
                app,
            ),
            BackendCall::GetRunningApps => answer matches BackendAnswer::Apps(Ok(apps))
                && lists_apps(pre, post, apps),
            BackendCall::PasteText { text, html, .. } => pastes(pre, text, html, post, answer),
            BackendCall::SetFocusDetection { active } => B::answers(
                &pre.inner,
                call,
                &post.inner,
                answer,
            ) && P::switches(&pre.provider, active, &post.provider),
            _ => B::answers(&pre.inner, call, &post.inner, answer) && post.provider
                == pre.provider,
        }
    }

    open spec fn goes_by(&self, name: Seq<char>) -> bool {
        self.inner.goes_by(name)
    }

    /// Looks at the focused application, records whether it is a terminal
    /// emulator, and hands the paste on.
    fn paste_text(&mut self, text: &str, html: Option<&str>, focus: &mut PasteFocus) -> (r: Result<
        (),
        String,
    >) {
        let ghost pre = *self;
        let app = match self.get_active_app() {
            Ok(app) => app,
            Err(_) => ActiveApp::default(),
        };
        let ghost mid = *self;
        paste::set_focused_is_terminal(
            focus,
            paste::looks_like_terminal(app.app_name.as_str(), app.bundle_id.as_str()),
        );
        let r = self.inner.paste_text(text, html, focus);
        proof {
            assert(looks_up(&pre, &mid, app@));
        }
        r
    }

    fn simulate_key_press(&mut self, keycode_vk: u32, flags: &[String]) -> (r: Result<(), String>) {
        self.inner.simulate_key_press(keycode_vk, flags)
    }

    fn get_active_app(&mut self) -> (r: Result<ActiveApp, String>) {
        let ghost pre = *self;
        let answer = self.inner.get_active_app();
        let ghost answer_view = backend::app_result(answer);
        let inner = match answer {
            Ok(app) => app,
            Err(_) => ActiveApp::default(),
        };
        proof {
            assert(B::answers(
                &pre.inner,
                BackendCall::GetActiveApp,
                &self.inner,
                BackendAnswer::App(answer_view),
            ));
        }
        if app_is_identified(&inner) {
            proof {
                let unasked: Option<ActiveAppView> = None;
                let ghost shown = P::reports(&pre.provider, unasked);
                assert(looks_up(&pre, self, inner@));
            }
            return Ok(inner);
        }
        let provided = self.provider.current();
        let ghost provided_view = backend::opt_app(provided);
        let app = choose_app(inner, provided);
        proof {
            assert(P::reports(&pre.provider, provided_view));
            assert(looks_up(&pre, self, app@));
        }
        Ok(app)
    }

    fn get_running_apps(&mut self) -> (r: Result<Vec<RunningApp>, String>) {
        let ghost pre = *self;
        let answer = self.inner.get_running_apps();
        let ghost answer_view = backend::apps_result(answer);
        let inner = match answer {
            Ok(apps) => apps,
            Err(_) => Vec::new(),
        };
        proof {
            assert(B::answers(
                &pre.inner,
                BackendCall::GetRunningApps,
                &self.inner,
                BackendAnswer::Apps(answer_view),
            ));
        }
        let provided = if inner.len() > 0 {
            Vec::new()
        } else {
            self.provider.get_running_apps()
        };
        Ok(choose_apps(inner, provided))
    }

    fn get_selected_text(&mut self) -> (r: Result<Selection, String>) {
        self.inner.get_selected_text()
    }

    fn accessibility_status(&mut self) -> (r: bool) {
        self.inner.accessibility_status()
    }

    fn set_focus_detection(&mut self, active: bool) {
        self.inner.set_focus_detection(active);
        self.provider.set_focus_detection(active);
    }

    fn name(&self) -> (r: &'static str) {
        self.inner.name()
    }
}

/// Where the backend or the provider knows the focused application, so does the
/// answer, and what the backend knows comes first.
pub proof fn law_known_apps_are_not_lost(inner: ActiveAppView, provided: Option<ActiveAppView>)
    ensures
        is_identified(inner) || (provided is Some && is_identified(provided->0)) ==> is_identified(
            chosen_app(inner, provided),
        ),
        is_identified(inner) ==> chosen_app(inner, provided) == inner,
        !is_identified(inner) && provided is Some ==> chosen_app(inner, provided) == provided->0,
{
}

/// The focused application that the joined backend answers is, in all its fields,
/// the one that the injector answered if that has a name, an identifier or a title;
/// else the one that the provider reports; and if that reports none, what the
/// injector answered, or nothing where it failed. The provider stays as it is.
pub proof fn law_answered_app<B: Backend, P: ActiveAppProvider>(
    pre: &Composed<B, P>,
    post: &Composed<B, P>,
    answer: BackendAnswer,
)
    requires
        Composed::<B, P>::answers(pre, BackendCall::GetActiveApp, post, answer),
    ensures
        post.provider == pre.provider,
        exists|inner: Result<ActiveAppView, Seq<char>>, provided: Option<ActiveAppView>|
            {
                &&& #[trigger] B::answers(
                    &pre.inner,
                    BackendCall::GetActiveApp,
                    &post.inner,
                    BackendAnswer::App(inner),
                )
                &&& answer matches BackendAnswer::App(Ok(app)) && {
                    ||| {
                        &&& inner is Ok
                        &&& inner->Ok_0.app_name.len() > 0 || inner->Ok_0.bundle_id.len() > 0
                            || inner->Ok_0.window_title.len() > 0
                        &&& app.app_name == inner->Ok_0.app_name
                        &&& app.bundle_id == inner->Ok_0.bundle_id
                        &&& app.window_title == inner->Ok_0.window_title
                        &&& app.url == inner->Ok_0.url
                    }
                    ||| {
                        &&& inner is Ok ==> inner->Ok_0.app_name.len() == 0
                            && inner->Ok_0.bundle_id.len() == 0 && inner->Ok_0.window_title.len()
                            == 0
                        &&& #[trigger] P::reports(&pre.provider, provided)
                        &&& provided matches Some(p) ==> app.app_name == p.app_name
                            && app.bundle_id == p.bundle_id && app.window_title == p.window_title
                            && app.url == p.url
                        &&& provided is None ==> app.app_name.len() == 0 && app.bundle_id.len() == 0
                            && app.window_title.len() == 0 && app.url == (if inner is Ok {
                            inner->Ok_0.url
                        } else {
                            Seq::empty()
                        })
                    }
                }
            },
{
    let app = answer->App_0->Ok_0;
    let (inner, provided) = choose|inner: Result<ActiveAppView, Seq<char>>,
        provided: Option<ActiveAppView>,|
        {
            &&& #[trigger] B::answers(
                &pre.inner,
                BackendCall::GetActiveApp,
                &post.inner,
                BackendAnswer::App(inner),
            )
            &&& #[trigger] P::reports(&pre.provider, provided) || is_identified(
                app_or_blank(inner),
            )
            &&& app == chosen_app(app_or_blank(inner), provided)
        };
    let shown = P::reports(&pre.provider, provided);
    assert(B::answers(
        &pre.inner,
        BackendCall::GetActiveApp,
        &post.inner,
        BackendAnswer::App(inner),
    ));
}

/// The running applications that the joined backend answers are those that the
/// injector lists, unchanged, if it lists any; else those that the provider lists.
pub proof fn law_answered_apps<B: Backend, P: ActiveAppProvider>(
    pre: &Composed<B, P>,
    post: &Composed<B, P>,
    answer: BackendAnswer,
)
    requires
        Composed::<B, P>::answers(pre, BackendCall::GetRunningApps, post, answer),
    ensures
        post.provider == pre.provider,
        exists|inner: Result<Seq<RunningAppView>, Seq<char>>|
            {
                &&& #[trigger] B::answers(
                    &pre.inner,
                    BackendCall::GetRunningApps,
                    &post.inner,
                    BackendAnswer::Apps(inner),
                )
                &&& answer matches BackendAnswer::Apps(Ok(apps)) && {
                    ||| inner is Ok && inner->Ok_0.len() > 0 && apps == inner->Ok_0
                    ||| (inner is Ok ==> inner->Ok_0.len() == 0) && P::lists(
                        &pre.provider,
                        apps,
                    )
                }
            },
{
}

/// A paste through the joined backend looks up the focused application first, and
/// hands the injector the same text and HTML, with whether that application is a
/// terminal emulator. The injector's answer is the answer.
pub proof fn law_answered_paste<B: Backend, P: ActiveAppProvider>(
    pre: &Composed<B, P>,
    text: Seq<char>,
    html: Option<Seq<char>>,
    focused_is_terminal: bool,
    post: &Composed<B, P>,
    answer: BackendAnswer,
)
    requires
        Composed::<B, P>::answers(
            pre,
            BackendCall::PasteText { text, html, focused_is_terminal },
            post,
            answer,
        ),
    ensures
        post.provider == pre.provider,
        exists|mid: &Composed<B, P>, app: ActiveAppView|
            {
                &&& #[trigger] Composed::<B, P>::answers(
                    pre,
                    BackendCall::GetActiveApp,
                    mid,
                    BackendAnswer::App(Ok(app)),
                )
                &&& B::answers(
                    &mid.inner,
                    BackendCall::PasteText {
                        text,
                        html,
                        focused_is_terminal: paste::is_terminal(app.app_name, app.bundle_id),
                    },
                    &post.inner,
                    answer,
                )
            },
{
    let (mid, app) = choose|mid: &Composed<B, P>, app: ActiveAppView|
        {
            &&& #[trigger] looks_up(pre, mid, app)
            &&& B::answers(
                &mid.inner,
                BackendCall::PasteText {
                    text,
                    html,
                    focused_is_terminal: paste::is_terminal(app.app_name, app.bundle_id),
                },
                &post.inner,
                answer,
            )
            &&& post.provider == mid.provider
        };
    assert(Composed::<B, P>::answers(
        pre,
        BackendCall::GetActiveApp,
        mid,
        BackendAnswer::App(Ok(app)),
    ));
}

/// Key presses, the selection and the accessibility status are the injector's own,
/// asked with the same words; focus reports are switched in both.
pub proof fn law_answered_by_the_injector<B: Backend, P: ActiveAppProvider>(
    pre: &Composed<B, P>,
    call: BackendCall,
    post: &Composed<B, P>,
    answer: BackendAnswer,
)
    requires
        Composed::<B, P>::answers(pre, call, post, answer),
    ensures
        call is SimulateKeyPress || call is GetSelectedText || call is AccessibilityStatus
            ==> B::answers(&pre.inner, call, &post.inner, answer) && post.provider == pre.provider,
        call matches BackendCall::SetFocusDetection { active } ==> B::answers(
            &pre.inner,
            call,
            &post.inner,
            answer,
        ) && P::switches(&pre.provider, active, &post.provider),
{
}

/// The joined backend goes by the injector's name.
pub proof fn law_joined_name<B: Backend, P: ActiveAppProvider>(
    joined: &Composed<B, P>,
    name: Seq<char>,
)
    ensures
        joined.goes_by(name) <==> joined.inner.goes_by(name),
{
}

} // verus!
