use wispr_flow_linux_helper::backend::session::{
    env_set, first_injector_step, first_provider_step, is_gnome, is_kde, next_injector_step,
    next_provider_step, provider_name, Injector, InjectorStep, ProviderKind, ProviderStep,
};

fn injector(wayland: bool, display: bool, outcomes: &[bool]) -> Injector {
    let mut step = first_injector_step(wayland, display);
    for ok in outcomes {
        step = next_injector_step(step, *ok, display);
    }
    match step {
        InjectorStep::Use(injector) => injector,
        other => panic!("{other:?}"),
    }
}

#[test]
fn wayland_is_preferred_where_it_works() {
    assert_eq!(injector(true, true, &[true, true]), Injector::Wayland);
    assert_eq!(injector(true, true, &[true, false, true]), Injector::X11);
    assert_eq!(injector(true, true, &[false, true]), Injector::X11);
    assert_eq!(injector(true, true, &[false, false]), Injector::Stub);
    assert_eq!(injector(true, false, &[true, false]), Injector::Stub);
    assert_eq!(injector(true, false, &[false]), Injector::Stub);
    assert_eq!(injector(false, true, &[true]), Injector::X11);
    assert_eq!(injector(false, true, &[false]), Injector::Stub);
    assert_eq!(injector(false, false, &[]), Injector::Stub);
    assert_eq!(injector(false, false, &[true]), Injector::Stub);
}

#[test]
fn bridges_fall_back_to_the_accessibility_bus() {
    let start = |kind| ProviderStep::Start(kind);
    assert_eq!(first_provider_step(true, false, true, true), start(ProviderKind::Kwin));
    assert_eq!(first_provider_step(true, true, false, true), start(ProviderKind::Gnome));
    assert_eq!(first_provider_step(true, false, false, false), start(ProviderKind::Atspi));
    assert_eq!(first_provider_step(false, true, true, true), start(ProviderKind::Atspi));
    assert_eq!(first_provider_step(false, false, true, true), ProviderStep::Use(None));
    for kind in [ProviderKind::Kwin, ProviderKind::Gnome] {
        assert_eq!(next_provider_step(start(kind), true), ProviderStep::Use(Some(kind)));
        assert_eq!(next_provider_step(start(kind), false), start(ProviderKind::Atspi));
    }
    assert_eq!(next_provider_step(start(ProviderKind::Atspi), false), ProviderStep::Use(None));
    let done = ProviderStep::Use(Some(ProviderKind::Kwin));
    assert_eq!(next_provider_step(done, false), done);
}

#[test]
fn providers_have_names() {
    assert_eq!(provider_name(ProviderKind::Kwin), "kwin");
    assert_eq!(provider_name(ProviderKind::Gnome), "gnome-shell-extension");
    assert_eq!(provider_name(ProviderKind::Atspi), "atspi");
}

#[test]
fn desktops_are_told_apart() {
    assert!(is_gnome("ubuntu:GNOME", "", false));
    assert!(is_gnome("", "gnome", false));
    assert!(is_gnome("", "", true));
    assert!(!is_gnome("KDE", "plasma", false));
    assert!(is_kde("kde", "", false));
    assert!(is_kde("", "KDE", false));
    assert!(is_kde("", "", true));
    assert!(!is_kde("GNOME", "", false));
}

#[test]
fn blank_variables_count_as_unset() {
    assert!(env_set(Some(b":0")));
    assert!(!env_set(Some(b"")));
    assert!(!env_set(None));
}
