use castoff::webpage::{
    validate_url, Browser, PageError, Signal, WebpageController, KILL_GRACE_MS, TERM_GRACE_MS,
};

fn browser(root: &str) -> Browser {
    Browser::from_settings(None, Some(root.to_string()), 42, 7)
}

#[test]
fn browser_args_render_the_url_as_a_fullscreen_app() {
    let browser = Browser {
        program: "chromium".to_string(),
        root: "/tmp".to_string(),
        profile_dir: "/tmp/castoff-browser-test".to_string(),
    };
    let args = browser.args("http://127.0.0.1:8000/dashboard");

    assert!(args.iter().any(|a| a == "--ozone-platform=wayland"));
    assert!(args.iter().any(|a| a == "--kiosk"));
    assert!(args
        .iter()
        .any(|a| a == "--app=http://127.0.0.1:8000/dashboard"));
    assert!(args
        .iter()
        .any(|a| a == "--user-data-dir=/tmp/castoff-browser-test"));
    assert!(!args.iter().any(|a| a == "http://127.0.0.1:8000/dashboard"));
    assert_eq!(args.len(), 7);
}

#[test]
fn only_http_https_and_file_urls_are_allowed() {
    for url in [
        "http://grafana.lan:3000/d/boat",
        "https://example.invalid/dashboard",
        "file:///srv/dashboard.html",
    ] {
        validate_url(url).unwrap_or_else(|e| panic!("{url} should be allowed: {}", e.message()));
    }
    for url in [
        "",
        "ftp://example.invalid/x",
        "--kiosk",
        "javascript:alert(1)",
    ] {
        assert!(validate_url(url).is_err(), "{url:?} must be refused");
    }
}

#[test]
fn a_refused_url_is_named_in_the_error() {
    let err = validate_url("ftp://x").unwrap_err();
    assert_eq!(
        err.message(),
        "refusing to display \"ftp://x\": a web page must be an http://, https:// or file:// URL"
    );
}

#[test]
fn the_browser_is_set_up_from_the_settings() {
    let plain = Browser::from_settings(None, None, 42, 7);
    assert_eq!(plain.program, "chromium");
    assert_eq!(plain.root, "/tmp");
    assert_eq!(plain.profile_dir, "/tmp/castoff-browser-42-7");

    let set = Browser::from_settings(
        Some("/opt/chrome".to_string()),
        Some("/run/b".to_string()),
        1,
        0,
    );
    assert_eq!(set.program, "/opt/chrome");
    assert_eq!(set.profile_dir, "/run/b/castoff-browser-1-0");
    assert_eq!(
        set.singleton_artifacts(),
        vec![
            "/run/b/castoff-browser-1-0/SingletonLock",
            "/run/b/castoff-browser-1-0/SingletonSocket",
            "/run/b/castoff-browser-1-0/SingletonCookie"
        ]
    );
}

#[test]
fn a_directory_without_room_for_the_socket_is_refused() {
    let longest = "/".repeat(62);
    let pages = WebpageController::with_browser(browser(&longest));
    assert!(pages.check("http://x/").is_ok());

    let too_long = "/".repeat(63);
    let mut pages = WebpageController::with_browser(browser(&too_long));
    let err = pages.show("http://x/").unwrap_err();
    assert!(matches!(err, PageError::NoRoom(_)));
    assert!(err.message().contains("CASTOFF_BROWSER_PROFILE_DIR"));
    assert_eq!(pages.generation, 0);

    // Room is counted in bytes.
    let accents = "é".repeat(32);
    let pages = WebpageController::with_browser(browser(&accents));
    assert!(matches!(
        pages.check("http://x/"),
        Err(PageError::NoRoom(_))
    ));
}

#[test]
fn a_new_page_replaces_the_one_on_screen() {
    let mut pages = WebpageController::with_browser(browser("/tmp"));
    assert!(!pages.is_active());

    let first = pages.show("http://127.0.0.1:9/first").unwrap();
    assert_eq!(first.terminate, None);
    assert_eq!(first.program, "chromium");
    assert_eq!(first.tmp_dir, "/tmp");
    assert_eq!(first.args[2], "--app=http://127.0.0.1:9/first");
    let first_generation = pages.engine_started(100);
    assert!(pages.is_active());

    let second = pages.show("http://127.0.0.1:9/second").unwrap();
    assert_eq!(second.terminate, Some(100), "the incumbent goes first");
    assert!(!pages.is_active(), "nothing is up until the replacement is");
    assert!(
        !pages.engine_exited(first_generation),
        "an engine taken down on purpose is no surprise"
    );
    let second_generation = pages.engine_started(200);
    assert!(!pages.engine_exited(first_generation));
    assert!(pages.is_active());
    assert!(pages.engine_exited(second_generation));
    assert!(!pages.is_active());
}

#[test]
fn a_refused_page_leaves_the_one_on_screen() {
    let mut pages = WebpageController::with_browser(browser("/tmp"));
    pages.show("http://x/").unwrap();
    let generation = pages.engine_started(100);
    assert!(pages.show("ftp://x/").is_err());
    assert_eq!(pages.current, Some(100));
    assert_eq!(pages.generation, generation);
}

#[test]
fn taking_a_page_down_silences_its_reaper() {
    let mut pages = WebpageController::with_browser(browser("/tmp"));
    pages.show("http://x/").unwrap();
    let generation = pages.engine_started(100);
    assert_eq!(pages.take_down(), Some(100));
    assert!(!pages.engine_exited(generation));
    assert_eq!(pages.take_down(), None);
}

#[test]
fn an_engine_is_killed_only_if_it_does_not_go_by_itself() {
    assert_eq!(Signal::Term.grace(), TERM_GRACE_MS);
    assert_eq!(Signal::Kill.grace(), KILL_GRACE_MS);
    assert_eq!(Signal::Term.escalate(false), None);
    assert_eq!(Signal::Term.escalate(true), Some(Signal::Kill));
    assert_eq!(Signal::Kill.escalate(true), None);
    assert_eq!(Signal::Kill.escalate(false), None);
}
