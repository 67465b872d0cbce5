//! Choosing the backend that injects and the provider that knows the
//! applications for a session. Finding out what a session has takes trying, so
//! both choices are made step by step: a step says what to try next, and the
//! outcome of the try leads to the next step.
use crate::backend::compose::Composed;
use crate::backend::{
    ActiveApp, ActiveAppProvider, Backend, BackendAnswer, BackendCall, RunningApp, Selection,
};
use crate::paste::PasteFocus;
use crate::text;
use vstd::prelude::*;

verus! {

/// A way to inject keys.
#[derive(Debug, Clone, Copy, PartialEq, Eq)]
pub enum Injector {
    Wayland,
    X11,
    /// Does nothing.
    Stub,
}

/// The next step in choosing an injector.
#[derive(Debug, Clone, Copy, PartialEq, Eq)]
pub enum InjectorStep {
    /// Find out whether the virtual keyboard device can be written to.
    ProbeUinput,
    ConnectWayland,
    ConnectX11,
    Use(Injector),
}

/// The step after everything for Wayland was tried, or passed over.
pub open spec fn x11_step(display: bool) -> InjectorStep {
    if display {
        InjectorStep::ConnectX11
    } else {
        InjectorStep::Use(Injector::Stub)
    }
}

/// The first step for a session, given which displays its environment names.
pub open spec fn injector_start(wayland_display: bool, display: bool) -> InjectorStep {
    if wayland_display {
        InjectorStep::ProbeUinput
    } else {
        x11_step(display)
    }
}

/// The step after `step` was tried with the given success.
pub open spec fn injector_next(step: InjectorStep, ok: bool, display: bool) -> InjectorStep {
    match step {
        InjectorStep::ProbeUinput => if ok {
            InjectorStep::ConnectWayland
        } else {
            x11_step(display)
        },
        InjectorStep::ConnectWayland => if ok {
            InjectorStep::Use(Injector::Wayland)
        } else {
            x11_step(display)
        },
        InjectorStep::ConnectX11 => if ok {
            InjectorStep::Use(Injector::X11)
        } else {
            InjectorStep::Use(Injector::Stub)
        },
        InjectorStep::Use(_) => step,
    }
}

/// A source of the focused application.
#[derive(Debug, Clone, Copy, PartialEq, Eq)]
pub enum ProviderKind {
    /// The bridge to the window manager of KDE.
    Kwin,
    /// The bridge to the shell of GNOME.
    Gnome,
    /// The accessibility bus, which every desktop has.
    Atspi,
}

/// The next step in choosing a provider.
#[derive(Debug, Clone, Copy, PartialEq, Eq)]
pub enum ProviderStep {
    Start(ProviderKind),
    Use(Option<ProviderKind>),
}

/// The first step for a session: on Wayland the bridge of the desktop, else the
/// accessibility bus; without a display nothing.
pub open spec fn provider_start(
    wayland_display: bool,
    display: bool,
    kde: bool,
    gnome: bool,
) -> ProviderStep {
    if wayland_display && kde {
        ProviderStep::Start(ProviderKind::Kwin)
    } else if wayland_display && gnome {
        ProviderStep::Start(ProviderKind::Gnome)
    } else if wayland_display || display {
        ProviderStep::Start(ProviderKind::Atspi)
    } else {
        ProviderStep::Use(None)
    }
}

/// The step after `step` was tried with the given success: a bridge that does
/// not start leaves the accessibility bus.
pub open spec fn provider_next(step: ProviderStep, ok: bool) -> ProviderStep {
    match step {
        ProviderStep::Start(kind) => if ok {
            ProviderStep::Use(Some(kind))
        } else if kind == ProviderKind::Atspi {
            ProviderStep::Use(None)
        } else {
            ProviderStep::Start(ProviderKind::Atspi)
        },
        ProviderStep::Use(_) => step,
    }
}

/// Whether a variable of the environment is set to something. A variable that
/// is set to nothing counts as not set.
pub fn env_set(value: Option<&[u8]>) -> (r: bool)
    ensures
        r == (value matches Some(v) && v@.len() > 0),
{
    match value {
        Some(v) => v.len() > 0,
        None => false,
    }
}

/// The first step in choosing an injector.
pub fn first_injector_step(wayland_display: bool, display: bool) -> (r: InjectorStep)
    ensures
        r == injector_start(wayland_display, display),
{
    if wayland_display {
        InjectorStep::ProbeUinput
    } else if display {
        InjectorStep::ConnectX11
    } else {
        InjectorStep::Use(Injector::Stub)
    }
}

/// The step after `step` was tried with the given success.
pub fn next_injector_step(step: InjectorStep, ok: bool, display: bool) -> (r: InjectorStep)
    ensures
        r == injector_next(step, ok, display),
{
    let without_wayland = first_injector_step(false, display);
    match step {
        InjectorStep::ProbeUinput => if ok {
            InjectorStep::ConnectWayland
        } else {
            without_wayland
        },
        InjectorStep::ConnectWayland => if ok {
            InjectorStep::Use(Injector::Wayland)
        } else {
            without_wayland
        },
        InjectorStep::ConnectX11 => if ok {
            InjectorStep::Use(Injector::X11)
        } else {
            InjectorStep::Use(Injector::Stub)
        },
        InjectorStep::Use(_) => step,
    }
}

/// The first step in choosing a provider.
pub fn first_provider_step(wayland_display: bool, display: bool, kde: bool, gnome: bool) -> (r:
    ProviderStep)
    ensures
        r == provider_start(wayland_display, display, kde, gnome),
{
    if wayland_display && kde {
        ProviderStep::Start(ProviderKind::Kwin)
    } else if wayland_display && gnome {
        ProviderStep::Start(ProviderKind::Gnome)
    } else if wayland_display || display {
        ProviderStep::Start(ProviderKind::Atspi)
    } else {
        ProviderStep::Use(None)
    }
}

/// The step after `step` was tried with the given success.
pub fn next_provider_step(step: ProviderStep, ok: bool) -> (r: ProviderStep)
    ensures
        r == provider_next(step, ok),
{
    match step {
        ProviderStep::Start(kind) => if ok {
            ProviderStep::Use(Some(kind))
        } else {
            match kind {
                ProviderKind::Atspi => ProviderStep::Use(None),
                _ => ProviderStep::Start(ProviderKind::Atspi),
            }
        },
        ProviderStep::Use(_) => step,
    }
}

/// The name of a provider.
pub open spec fn provider_named(kind: ProviderKind) -> Seq<char> {
    match kind {
        ProviderKind::Kwin => "kwin"@,
        ProviderKind::Gnome => "gnome-shell-extension"@,
        ProviderKind::Atspi => "atspi"@,
    }
}

/// The name of a provider.
pub fn provider_name(kind: ProviderKind) -> (r: &'static str)
    ensures
        r@ == provider_named(kind),
{
    match kind {
        ProviderKind::Kwin => "kwin",
        ProviderKind::Gnome => "gnome-shell-extension",
        ProviderKind::Atspi => "atspi",
    }
}

/// A session is one of `desktop`: either of the two variables that name the
/// desktop holds it, in any case, or a variable of its own is set.
pub open spec fn is_desktop(
    desktop: Seq<char>,
    current: Seq<char>,
    session: Seq<char>,
    own_variable_set: bool,
) -> bool {
    text::has_part(text::upper(current), desktop) || text::has_part(text::upper(session), desktop)
        || own_variable_set
}

/// Whether the session is one of the given desktop.
fn desktop_is(desktop: &str, current: &str, session: &str, own_variable_set: bool) -> (r: bool)
    ensures
        r == is_desktop(desktop@, current@, session@, own_variable_set),
{
    let name = text::to_chars(desktop);
    text::contains(&text::to_upper(current), &name) || text::contains(
        &text::to_upper(session),
        &name,
    ) || own_variable_set
}

/// Whether the session is one of GNOME. The arguments are the values of
/// `XDG_CURRENT_DESKTOP` and `XDG_SESSION_DESKTOP`, or nothing, and whether
/// `GNOME_SHELL_SESSION_MODE` is set.
pub fn is_gnome(current_desktop: &str, session_desktop: &str, shell_mode_set: bool) -> (r: bool)
    ensures
        r == is_desktop("GNOME"@, current_desktop@, session_desktop@, shell_mode_set),
{
    desktop_is("GNOME", current_desktop, session_desktop, shell_mode_set)
}

/// Whether the session is one of KDE. The arguments are the values of
/// `XDG_CURRENT_DESKTOP` and `XDG_SESSION_DESKTOP`, or nothing, and whether
/// `KDE_FULL_SESSION` is set.
pub fn is_kde(current_desktop: &str, session_desktop: &str, full_session_set: bool) -> (r: bool)
    ensures
        r == is_desktop("KDE"@, current_desktop@, session_desktop@, full_session_set),
{
    desktop_is("KDE", current_desktop, session_desktop, full_session_set)
}

/// The backend of a session: an injector, joined with a provider if there is one.
pub enum Detected<B: Backend, P: ActiveAppProvider> {
    Plain(B),
    Joined(Composed<B, P>),
}

/// Joins the injector with the provider that was found for the session.
pub fn detect<B: Backend, P: ActiveAppProvider>(injector: B, provider: Option<P>) -> (r: Detected<
    B,
    P,
>)
    ensures
        r == (match provider {
            Some(provider) => Detected::Joined(Composed { inner: injector, provider }),
            None => Detected::Plain(injector),
        }),
{
    match provider {
        Some(provider) => Detected::Joined(Composed { inner: injector, provider }),
        None => Detected::Plain(injector),
    }
}

impl<B: Backend, P: ActiveAppProvider> Backend for Detected<B, P> {
    open spec fn answers(
        pre: &Self,
        call: BackendCall,
        post: &Self,
        answer: BackendAnswer,
    ) -> bool {
        match (*pre, *post) {
            (Detected::Plain(a), Detected::Plain(b)) => B::answers(&a, call, &b, answer),
            (Detected::Joined(a), Detected::Joined(b)) => Composed::<B, P>::answers(
                &a,
                call,
                &b,
                answer,
            ),
            _ => false,
        }
    }

    open spec fn goes_by(&self, name: Seq<char>) -> bool {
        match self {
            Detected::Plain(b) => b.goes_by(name),
            Detected::Joined(c) => c.goes_by(name),
        }
    }

    fn paste_text(&mut self, text: &str, html: Option<&str>, focus: &mut PasteFocus) -> (r: Result<
        (),
        String,
    >) {
        match self {
            Detected::Plain(b) => b.paste_text(text, html, focus),
            Detected::Joined(c) => c.paste_text(text, html, focus),
        }
    }

    fn simulate_key_press(&mut self, keycode_vk: u32, flags: &[String]) -> (r: Result<(), String>) {
        match self {
            Detected::Plain(b) => b.simulate_key_press(keycode_vk, flags),
            Detected::Joined(c) => c.simulate_key_press(keycode_vk, flags),
        }
    }

    fn get_active_app(&mut self) -> (r: Result<ActiveApp, String>) {
        match self {
            Detected::Plain(b) => b.get_active_app(),
            Detected::Joined(c) => c.get_active_app(),
        }
    }

    fn get_running_apps(&mut self) -> (r: Result<Vec<RunningApp>, String>) {
        match self {
            Detected::Plain(b) => b.get_running_apps(),
            Detected::Joined(c) => c.get_running_apps(),
        }
    }

    fn get_selected_text(&mut self) -> (r: Result<Selection, String>) {
        match self {
            Detected::Plain(b) => b.get_selected_text(),
            Detected::Joined(c) => c.get_selected_text(),
        }
    }

    fn accessibility_status(&mut self) -> (r: bool) {
        match self {
            Detected::Plain(b) => b.accessibility_status(),
            Detected::Joined(c) => c.accessibility_status(),
        }
    }

    fn set_focus_detection(&mut self, active: bool) {
        match self {
            Detected::Plain(b) => b.set_focus_detection(active),
            Detected::Joined(c) => c.set_focus_detection(active),
        }
    }

    fn name(&self) -> (r: &'static str) {
        match self {
            Detected::Plain(b) => b.name(),
            Detected::Joined(c) => c.name(),
        }
    }
}

/// What a session has to offer an injector.
pub struct SessionFacts {
    pub wayland_display: bool,
    pub display: bool,
    pub uinput_writable: bool,
    pub wayland_connects: bool,
    pub x11_connects: bool,
}

/// Whether trying a step succeeds in a session.
pub open spec fn step_succeeds(step: InjectorStep, facts: SessionFacts) -> bool {
    match step {
        InjectorStep::ProbeUinput => facts.uinput_writable,
        InjectorStep::ConnectWayland => facts.wayland_connects,
        InjectorStep::ConnectX11 => facts.x11_connects,
        InjectorStep::Use(_) => true,
    }
}

/// The step that a session is at after `tries` tries.
pub open spec fn injector_after(facts: SessionFacts, tries: nat) -> InjectorStep
    decreases tries,
{
    if tries == 0 {
        injector_start(facts.wayland_display, facts.display)
    } else {
        let step = injector_after(facts, (tries - 1) as nat);
        injector_next(step, step_succeeds(step, facts), facts.display)
    }
}

/// At most three tries settle the injector: Wayland if the session has a Wayland
/// display, its virtual keyboard device can be written to and the connection
/// succeeds; else X11 if the session has an X display and the connection
/// succeeds; else the stub. More tries change nothing.
pub proof fn law_injector_choice(facts: SessionFacts, tries: nat)
    requires
        tries >= 3,
    ensures
        injector_after(facts, tries) == InjectorStep::Use(
            if facts.wayland_display && facts.uinput_writable && facts.wayland_connects {
                Injector::Wayland
            } else if facts.display && facts.x11_connects {
                Injector::X11
            } else {
                Injector::Stub
            },
        ),
    decreases tries,
{
    reveal_with_fuel(injector_after, 4);
    if tries > 3 {
        law_injector_choice(facts, (tries - 1) as nat);
    }
}

/// A provider is found for every session with a display on which the
/// accessibility bus starts, whichever bridge is tried before it and fails.
pub proof fn law_provider_is_never_missing(
    wayland_display: bool,
    display: bool,
    kde: bool,
    gnome: bool,
    bridge_starts: bool,
)
    requires
        wayland_display || display,
    ensures
        ({
            let first = provider_start(wayland_display, display, kde, gnome);
            let bridge = first == ProviderStep::Start(ProviderKind::Kwin) || first
                == ProviderStep::Start(ProviderKind::Gnome);
            let second = provider_next(first, if bridge {
                bridge_starts
            } else {
                true
            });
            &&& bridge <==> wayland_display && (kde || gnome)
            &&& provider_next(second, true) matches ProviderStep::Use(Some(_))
        }),
{
}

/// Which provider is tried first, and which after it: on Wayland the bridge of KDE,
/// else that of GNOME, else the accessibility bus, which also follows a bridge that
/// does not start; on X11 alone the accessibility bus; without a display none.
pub proof fn law_provider_order(
    wayland_display: bool,
    display: bool,
    kde: bool,
    gnome: bool,
    kind: ProviderKind,
    step: ProviderStep,
    ok: bool,
)
    ensures
        ({
            let first = provider_start(wayland_display, display, kde, gnome);
            &&& first == ProviderStep::Start(ProviderKind::Kwin) <==> wayland_display && kde
            &&& first == ProviderStep::Start(ProviderKind::Gnome) <==> wayland_display && !kde
                && gnome
            &&& first == ProviderStep::Use(None) <==> !wayland_display && !display
            &&& first == ProviderStep::Start(ProviderKind::Atspi) <==> (wayland_display && !kde
                && !gnome) || (!wayland_display && display)
        }),
        provider_next(ProviderStep::Start(kind), true) == ProviderStep::Use(Some(kind)),
        provider_next(ProviderStep::Start(ProviderKind::Kwin), false) == ProviderStep::Start(
            ProviderKind::Atspi,
        ),
        provider_next(ProviderStep::Start(ProviderKind::Gnome), false) == ProviderStep::Start(
            ProviderKind::Atspi,
        ),
        provider_next(ProviderStep::Start(ProviderKind::Atspi), false) == ProviderStep::Use(None),
        step is Use ==> provider_next(step, ok) == step,
        provider_named(ProviderKind::Kwin) == "kwin"@,
        provider_named(ProviderKind::Gnome) == "gnome-shell-extension"@,
        provider_named(ProviderKind::Atspi) == "atspi"@,
{
}

/// Each step in choosing an injector leads where it should: Wayland needs a writable
/// device and then a connection; a failure of either leaves X11, where there is an X
/// display; a failure of that, or no display, leaves the stub.
pub proof fn law_injector_steps(wayland_display: bool, display: bool, step: InjectorStep, ok: bool)
    ensures
        wayland_display ==> injector_start(wayland_display, display) == InjectorStep::ProbeUinput,
        !wayland_display && display ==> injector_start(wayland_display, display)
            == InjectorStep::ConnectX11,
        !wayland_display && !display ==> injector_start(wayland_display, display)
            == InjectorStep::Use(Injector::Stub),
        injector_next(InjectorStep::ProbeUinput, true, display) == InjectorStep::ConnectWayland,
        injector_next(InjectorStep::ConnectWayland, true, display) == InjectorStep::Use(
            Injector::Wayland,
        ),
        injector_next(InjectorStep::ConnectX11, true, display) == InjectorStep::Use(Injector::X11),
        injector_next(InjectorStep::ProbeUinput, false, true) == InjectorStep::ConnectX11,
        injector_next(InjectorStep::ConnectWayland, false, true) == InjectorStep::ConnectX11,
        injector_next(InjectorStep::ProbeUinput, false, false) == InjectorStep::Use(Injector::Stub),
        injector_next(InjectorStep::ConnectWayland, false, false) == InjectorStep::Use(
            Injector::Stub,
        ),
        injector_next(InjectorStep::ConnectX11, false, display) == InjectorStep::Use(
            Injector::Stub,
        ),
        step is Use ==> injector_next(step, ok, display) == step,
{
}

/// A session is one of a desktop if either variable holds the desktop's name in
/// capitals or small letters, or the desktop's own variable is set, and only then.
pub proof fn law_desktops(
    desktop: Seq<char>,
    current: Seq<char>,
    session: Seq<char>,
    own_variable_set: bool,
)
    ensures
        is_desktop(desktop, current, session, own_variable_set) <==> {
            ||| own_variable_set
            ||| exists|before: Seq<char>, after: Seq<char>|
                #[trigger] (before + desktop + after) == text::upper(current)
            ||| exists|before: Seq<char>, after: Seq<char>|
                #[trigger] (before + desktop + after) == text::upper(session)
        },
{
    text::law_parts(text::upper(current), desktop);
    text::law_parts(text::upper(session), desktop);
}

/// The backend of a session answers as the injector does where there is no provider,
/// and as the two joined do where there is one. It never changes from one to the
/// other.
pub proof fn law_detected_answers<B: Backend, P: ActiveAppProvider>(
    pre: &Detected<B, P>,
    call: BackendCall,
    post: &Detected<B, P>,
    answer: BackendAnswer,
)
    requires
        Detected::<B, P>::answers(pre, call, post, answer),
    ensures
        *pre matches Detected::Plain(a) ==> (*post matches Detected::Plain(b) && B::answers(
            &a,
            call,
            &b,
            answer,
        )),
        *pre matches Detected::Joined(a) ==> (*post matches Detected::Joined(b) && Composed::<
            B,
            P,
        >::answers(&a, call, &b, answer)),
{
}

/// The backend of a session goes by its injector's name.
pub proof fn law_detected_name<B: Backend, P: ActiveAppProvider>(
    detected: &Detected<B, P>,
    name: Seq<char>,
)
    ensures
        *detected matches Detected::Plain(b) ==> (detected.goes_by(name) <==> b.goes_by(name)),
        *detected matches Detected::Joined(c) ==> (detected.goes_by(name) <==> c.inner.goes_by(
            name,
        )),
{
}

} // verus!
