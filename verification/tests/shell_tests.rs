use bewegungskrieg::diagnostics::{
    bounded_log_text, log_entry_fields, shell_log_file_path, unix_time_ms_from_elapsed, PathStyle,
    MAX_LOG_TEXT_CHARS,
};
use bewegungskrieg::cursor_capture::CaptureBookkeeping;
use bewegungskrieg::navigation::NavigationMonitorState;
use bewegungskrieg::shell::{
    built_in_profiles, flag_value_enabled, initial_navigation_from_developer_url,
    log_reveal_program, navigation_allowed, normalize_developer_server_url, redact_url_for_log,
    release_profile_for_url, server_profile_for_id, startup_failure_message, startup_failure_url,
    DeveloperServerPolicy,
    DeveloperUrlError, InitialNavigation, RuntimePolicy, ShellPlatform, DEFAULT_PROFILE_ID,
    STARTUP_ENTRYPOINT,
};
use bewegungskrieg::fullscreen::{
    display_change_failure_message, fullscreen_window_style, rect_matches, rect_size,
    restoration_pending_message, restore_failure_message, EnterStep, ExitStep,
    FullscreenSession, Rect,
};
use bewegungskrieg::runtime_script::{
    desktop_autolock_script, desktop_autostart_script, desktop_runtime_script,
    gated_automation_script, RuntimeScriptOptions, NATIVE_CURSOR_SCRIPT_BEGIN,
    NATIVE_CURSOR_SCRIPT_END,
};
use bewegungskrieg::url_model::UrlParts;
use std::path::{Path, PathBuf};

fn url(text: &str) -> UrlParts {
    UrlParts::parse(text).unwrap()
}

#[test]
fn shell_log_file_uses_stable_name_inside_log_dir() {
    assert_eq!(
        PathBuf::from(shell_log_file_path("/tmp/rts-shell-logs", PathStyle::Unix)),
        Path::new("/tmp/rts-shell-logs").join("shell.log")
    );
}

#[test]
fn shell_log_file_path_joins_like_path_join() {
    for dir in ["", "/", "logs", "logs/", "/var/log/rts"] {
        assert_eq!(
            PathBuf::from(shell_log_file_path(dir, PathStyle::Unix)),
            Path::new(dir).join("shell.log"),
            "directory {dir:?}"
        );
    }
}

#[test]
fn shell_log_file_path_joins_windows_directories_with_backslash() {
    assert_eq!(
        shell_log_file_path(r"C:\Users\me\logs", PathStyle::Windows),
        r"C:\Users\me\logs\shell.log"
    );
    assert_eq!(shell_log_file_path(r"C:\logs\", PathStyle::Windows), r"C:\logs\shell.log");
    assert_eq!(shell_log_file_path("C:/logs/", PathStyle::Windows), "C:/logs/shell.log");
    assert_eq!(shell_log_file_path("C:", PathStyle::Windows), "C:shell.log");
    assert_eq!(shell_log_file_path("", PathStyle::Windows), "shell.log");
    assert_eq!(shell_log_file_path(r"logs\", PathStyle::Unix), r"logs\/shell.log");
}

#[test]
fn shell_log_file_path_rebuilds_windows_verbatim_directories() {
    let join = |dir: &str| shell_log_file_path(dir, PathStyle::Windows);
    assert_eq!(join(r"\\?\C:\logs"), r"\\?\C:\logs\shell.log");
    assert_eq!(join(r"\\?\C:\logs\\a\"), r"\\?\C:\logs\a\shell.log");
    assert_eq!(join(r"\\?\C:"), r"\\?\C:\shell.log");
    assert_eq!(join(r"\\?\C:/x"), r"\\?\C:\x\shell.log");
    assert_eq!(join(r"\\?\C:\a\.\b"), r"\\?\C:\a\.\b\shell.log");
    assert_eq!(join(r"\\?\C:\a/b"), r"\\?\C:\a/b\shell.log");
    assert_eq!(join(r"\\?\UNC\srv\share\logs"), r"\\?\UNC\srv\share\logs\shell.log");
    assert_eq!(join(r"\\?\UNC\srv"), r"\\?\UNC\srv\shell.log");
    assert_eq!(join(r"\\?\pipe\x"), r"\\?\pipe\x\shell.log");
    assert_eq!(shell_log_file_path(r"\\?\C:\logs\", PathStyle::Unix), r"\\?\C:\logs\/shell.log");
}

#[test]
fn bounded_log_text_trims_and_limits_long_values() {
    assert_eq!(bounded_log_text("  startup  "), "startup");
    let long = "a".repeat(MAX_LOG_TEXT_CHARS + 12);
    let bounded = bounded_log_text(&long);
    assert_eq!(bounded.chars().count(), MAX_LOG_TEXT_CHARS + 3);
    assert!(bounded.ends_with("..."));
}

#[test]
fn bounded_log_text_matches_str_trim_on_unicode_whitespace() {
    for value in ["\u{3000}x\u{2028}", "\t\n a b \r", "\u{85}\u{a0}", "plain", "", "  ünï  "] {
        assert_eq!(bounded_log_text(value), value.trim(), "value {value:?}");
    }
    let exact = "b".repeat(MAX_LOG_TEXT_CHARS);
    assert_eq!(bounded_log_text(&format!("  {exact}  ")), exact);
    let multibyte = "ж".repeat(MAX_LOG_TEXT_CHARS + 1);
    let bounded = bounded_log_text(&multibyte);
    assert_eq!(bounded, format!("{}...", "ж".repeat(MAX_LOG_TEXT_CHARS)));
}

#[test]
fn bounded_log_text_is_stable_on_short_text() {
    let once = bounded_log_text("  launch  ");
    assert_eq!(bounded_log_text(&once), once);
}

#[test]
fn unix_time_ms_saturates_and_defaults_to_zero() {
    assert_eq!(unix_time_ms_from_elapsed(Some(1_700_000_000_123)), 1_700_000_000_123);
    assert_eq!(unix_time_ms_from_elapsed(Some(u128::MAX)), u64::MAX);
    assert_eq!(unix_time_ms_from_elapsed(Some(u64::MAX as u128 + 1)), u64::MAX);
    assert_eq!(unix_time_ms_from_elapsed(None), 0);
}

#[test]
fn built_in_profiles_match_release_urls() {
    let profiles = built_in_profiles();
    assert_eq!(profiles.len(), 2);
    assert_eq!(profiles[0].id, "beta");
    assert_eq!(profiles[0].url, "https://rts-0-zvorygin-beta.fly.dev/");
    assert_eq!(profiles[1].id, "mainline");
    assert_eq!(profiles[1].url, "https://rts-0-zvorygin.fly.dev/");
    for profile in profiles.iter() {
        let parsed = url(profile.url);
        assert_eq!(parsed.scheme, "https");
    }
    assert!(profiles.iter().any(|profile| profile.id == DEFAULT_PROFILE_ID));
}

#[test]
fn server_profile_lookup_by_id() {
    assert_eq!(server_profile_for_id("beta").unwrap().label, "Beta");
    assert_eq!(server_profile_for_id("mainline").unwrap().label, "Mainline");
    assert!(server_profile_for_id("nightly").is_none());
    assert!(server_profile_for_id("").is_none());
}

#[test]
fn defaults_to_startup_selector_without_developer_url() {
    let navigation = initial_navigation_from_developer_url(None, DeveloperServerPolicy::Enabled)
        .ok()
        .unwrap();
    assert!(matches!(navigation, InitialNavigation::Startup));
    assert_eq!(navigation.developer_url(), None);
    assert_eq!(
        navigation.webview_url().ok().unwrap().to_text(),
        STARTUP_ENTRYPOINT
    );
}

#[test]
fn normalizes_loopback_developer_server_url() {
    assert_eq!(
        normalize_developer_server_url(" http://localhost:8080/ ").ok().unwrap(),
        "http://localhost:8080/"
    );
    let navigation = initial_navigation_from_developer_url(
        Some(" http://127.0.0.1:41231/ "),
        DeveloperServerPolicy::Enabled,
    )
    .ok()
    .unwrap();
    assert_eq!(navigation.developer_url(), Some("http://127.0.0.1:41231/"));
}

#[test]
fn normalized_developer_url_is_the_serialized_url() {
    // The URL parser adds the root path: the result is not the trimmed input.
    assert_eq!(
        normalize_developer_server_url("http://localhost:8080").ok().unwrap(),
        "http://localhost:8080/"
    );
    let navigation = initial_navigation_from_developer_url(
        Some("http://localhost:9000"),
        DeveloperServerPolicy::Enabled,
    )
    .ok()
    .unwrap();
    assert_eq!(
        navigation.webview_url().ok().unwrap().to_text(),
        "http://localhost:9000/"
    );
}

#[test]
fn packaged_policy_ignores_developer_server_url_override() {
    let navigation = initial_navigation_from_developer_url(
        Some("http://127.0.0.1:41231/"),
        DeveloperServerPolicy::Disabled,
    )
    .ok()
    .unwrap();
    assert!(matches!(navigation, InitialNavigation::Startup));
    assert_eq!(navigation.developer_url(), None);
    assert_eq!(
        navigation.webview_url().ok().unwrap().to_text(),
        STARTUP_ENTRYPOINT
    );
}

#[test]
fn rejects_non_loopback_developer_server_url() {
    assert!(normalize_developer_server_url("https://example.com/").is_err());
    assert!(normalize_developer_server_url("http://192.0.2.10:8080/").is_err());
}

#[test]
fn developer_url_errors_name_the_reason() {
    assert!(matches!(
        normalize_developer_server_url("   "),
        Err(DeveloperUrlError::Empty)
    ));
    assert!(matches!(
        normalize_developer_server_url("not a url"),
        Err(DeveloperUrlError::Invalid { .. })
    ));
    match normalize_developer_server_url(" https://localhost/ ") {
        Err(DeveloperUrlError::NotHttp { url }) => assert_eq!(url, "https://localhost/"),
        _ => panic!("https must be refused as not http"),
    }
    assert!(matches!(
        normalize_developer_server_url("http://example.com/"),
        Err(DeveloperUrlError::NonLoopback { .. })
    ));
}

#[test]
fn navigation_policy_allows_startup_release_and_developer_origins() {
    let startup_url = url("tauri://localhost/index.html");
    assert!(navigation_allowed(&startup_url, None));

    let beta_url = url("https://rts-0-zvorygin-beta.fly.dev/rooms");
    let beta_lab_url = url("https://rts-0-zvorygin-beta.fly.dev/lab?room=default&map=Chokes");
    let mainline_url = url("https://rts-0-zvorygin.fly.dev/?room=test");
    assert!(navigation_allowed(&beta_url, None));
    assert!(navigation_allowed(&beta_lab_url, None));
    assert!(navigation_allowed(&mainline_url, None));

    let developer_url = url("http://localhost:41231/");
    let developer_path = url("http://localhost:41231/play");
    let other_port = url("http://localhost:41232/play");
    let unrelated = url("https://example.com/");
    assert!(navigation_allowed(&developer_path, Some(&developer_url)));
    assert!(!navigation_allowed(&other_port, Some(&developer_url)));
    assert!(!navigation_allowed(&unrelated, None));
}

#[test]
fn release_profile_matching_uses_default_ports() {
    let explicit_port = url("https://rts-0-zvorygin.fly.dev:443/play");
    assert_eq!(release_profile_for_url(&explicit_port).unwrap().id, "mainline");
    let other_port = url("https://rts-0-zvorygin.fly.dev:8443/play");
    assert!(release_profile_for_url(&other_port).is_none());
    let plain_http = url("http://rts-0-zvorygin.fly.dev/");
    assert!(release_profile_for_url(&plain_http).is_none());
    assert!(navigation_allowed(&url("http://tauri.localhost/x"), None));
}

#[test]
fn redacts_query_strings_from_logged_urls() {
    assert_eq!(
        redact_url_for_log("https://rts-0-zvorygin-beta.fly.dev/play?token=secret#frag"),
        "https://rts-0-zvorygin-beta.fly.dev/play"
    );
    assert_eq!(
        redact_url_for_log("tauri://localhost/index.html?message=secret"),
        "tauri://localhost/index.html"
    );
}

#[test]
fn redaction_keeps_explicit_ports_and_bounds_unparsable_text() {
    assert_eq!(
        redact_url_for_log("http://127.0.0.1:41231/play?x=1"),
        "http://127.0.0.1:41231/play"
    );
    assert_eq!(redact_url_for_log("  not a url  "), "not a url");
    assert_eq!(redact_url_for_log("mailto:ops@example.com"), "mailto://<no-host>ops@example.com");
}

#[test]
fn startup_failure_messages() {
    assert!(startup_failure_message("load-timeout").contains("network connectivity"));
    assert_eq!(
        startup_failure_message("other"),
        "The desktop shell could not open the selected release channel."
    );
}

#[test]
fn log_reveal_program_matches_supported_platforms() {
    assert_eq!(log_reveal_program(ShellPlatform::Macos).unwrap(), "open");
    assert_eq!(
        log_reveal_program(ShellPlatform::Windows).unwrap(),
        "explorer.exe"
    );
    assert!(log_reveal_program(ShellPlatform::Other).is_err());
}

#[test]
fn runtime_policy_enables_native_cursor_on_macos_only() {
    let mac = RuntimePolicy::for_platform(ShellPlatform::Macos);
    assert!(mac.native_cursor_backend && mac.pointer_lock_disabled && mac.aggressive_cursor_lock);
    let windows = RuntimePolicy::for_platform(ShellPlatform::Windows);
    assert!(!windows.native_cursor_backend && !windows.native_cursor_capture);
    assert_eq!(ShellPlatform::Windows.runtime_name(), "windows");
    assert_eq!(ShellPlatform::Other.runtime_name(), "other");
}

#[test]
fn environment_flags_accept_the_documented_spellings() {
    for on in ["1", "true", "TRUE", "yes", "YES", "on", "ON", " on "] {
        assert!(flag_value_enabled(Some(on)), "{on:?}");
    }
    for off in ["0", "True", "no", "", "enabled"] {
        assert!(!flag_value_enabled(Some(off)), "{off:?}");
    }
    assert!(!flag_value_enabled(None));
}

#[test]
fn navigation_timeout_clears_only_its_own_load() {
    let mut monitor = NavigationMonitorState::new();
    let first = monitor.start("https://a/".to_string(), Some("beta"));
    assert_eq!(first.sequence, 1);
    let second = monitor.start("https://b/".to_string(), None);
    assert_eq!(second.sequence, 2);
    assert!(monitor.clear_sequence(first.sequence).is_none());
    let cleared = monitor.clear_sequence(second.sequence).unwrap();
    assert_eq!(cleared.url, "https://b/");
    assert!(monitor.clear().is_none());
    let mut saturated = NavigationMonitorState { sequence: u64::MAX, pending: None };
    assert_eq!(saturated.start("x".to_string(), None).sequence, u64::MAX);
}

#[test]
fn startup_failure_url_formats_error_state_without_raw_query() {
    let message = startup_failure_message("load-timeout");
    let url = startup_failure_url(
        "load-timeout",
        message,
        Some("https://rts-0-zvorygin-beta.fly.dev/?token=secret"),
    );
    let parsed = ::url::Url::parse(&url).unwrap();
    assert_eq!(parsed.scheme(), "tauri");
    assert_eq!(parsed.host_str(), Some("localhost"));
    assert!(url.contains("failure=load-timeout"));
    assert!(url.contains("message="));
    assert!(!url.contains("secret"));
    assert!(message.contains("network connectivity"));
}

#[test]
fn startup_failure_url_matches_the_url_crate_query_serializer() {
    let mut expected = ::url::Url::parse("tauri://localhost/index.html").unwrap();
    expected
        .query_pairs_mut()
        .append_pair("failure", "load-timeout")
        .append_pair("message", "a b&c=d");
    assert_eq!(startup_failure_url("load-timeout", "a b&c=d", None), expected.as_str());
    assert_eq!(
        startup_failure_url("x", "y", None),
        "tauri://localhost/index.html?failure=x&message=y"
    );
}

fn runtime_script(platform: ShellPlatform, developer: Option<&str>, autostart: bool, autolock: bool) -> String {
    desktop_runtime_script(&RuntimeScriptOptions {
        policy: RuntimePolicy::for_platform(platform),
        developer_server_url: developer.map(str::to_string),
        autostart,
        autolock,
    })
}

#[test]
fn macos_runtime_script_exposes_native_cursor_and_disables_pointer_lock() {
    let script = runtime_script(ShellPlatform::Macos, Some("http://127.0.0.1:4000/"), false, false);
    assert!(script.contains("__RTS_DESKTOP_STARTUP"));
    assert!(script.contains("__RTS_DESKTOP_RUNTIME"));
    assert!(script.contains("https://rts-0-zvorygin-beta.fly.dev/"));
    assert!(script.contains("https://rts-0-zvorygin.fly.dev/"));
    assert!(script.contains("const defaultProfileId = \"beta\""));
    assert!(script.contains("nativeCursorBackend: true"));
    assert!(script.contains("platform: \"macos\""));
    assert!(script.contains("aggressiveCursorLock: true"));
    assert!(script.contains("autostart: false"));
    assert!(script.contains("autolock: false"));
    assert!(script.contains("serverMode: selectedProfile ? \"release\""));
    assert!(script.contains("releaseChannel: selectedProfile ? selectedProfile.id : null"));
    assert!(script.contains("http://127.0.0.1:4000/"));
    assert!(script.contains("__RTS_NATIVE_CURSOR"));
    assert!(script.contains("maccursor_start"));
    assert!(script.contains("desktop_log_client_event"));
    assert!(script.contains("sameOriginTargetBlankUrl"));
    assert!(script.contains("redirectSameOriginTargetBlank"));
    assert!(script.contains("desktop_same_origin_target_blank"));
    assert!(script.contains("__TAURI__.core"));
    assert!(script.contains("capture-start-failed"));
    assert!(script.contains("native_cursor_capture_start_failed"));
    assert!(script.contains("pointerLockDisabled: true"));
    assert!(script.contains("requestPointerLock"));
}

#[test]
fn windows_runtime_script_uses_raw_browser_pointer_lock_without_native_bridge() {
    let script = runtime_script(ShellPlatform::Windows, Some("http://127.0.0.1:4000/"), false, false);
    assert!(script.contains("platform: \"windows\""));
    assert!(script.contains("nativeCursorBackend: false"));
    assert!(script.contains("nativeCursorCapture: false"));
    assert!(script.contains("pointerLockDisabled: false"));
    assert!(script.contains("aggressiveCursorLock: false"));
    assert!(script.contains("__RTS_DESKTOP_RUNTIME"));
    assert!(script.contains("sameOriginTargetBlankUrl"));
    assert!(script.contains("desktop_log_client_event"));
    assert!(!script.contains("__RTS_NATIVE_CURSOR"));
    assert!(!script.contains("maccursor_start"));
    assert!(!script.contains("requestPointerLock"));
    assert!(!script.contains(NATIVE_CURSOR_SCRIPT_BEGIN));
    assert!(!script.contains(NATIVE_CURSOR_SCRIPT_END));
}

#[test]
fn desktop_autolock_helper_preserves_existing_cursor_capture() {
    let script = runtime_script(ShellPlatform::Macos, Some("http://127.0.0.1:4000/"), false, true);
    assert!(script.contains("cursor-lock-already-active"));
    assert!(script.contains("cursor-lock-clicked"));
}

#[test]
fn shipped_profiles_are_remote_urls_without_local_server_command() {
    let script = runtime_script(ShellPlatform::Macos, None, false, false);
    assert!(script.contains("const developerServerUrl = null"));
    for profile in built_in_profiles().iter() {
        let url = ::url::Url::parse(profile.url).unwrap();
        assert_eq!(url.scheme(), "https");
        assert!(!matches!(url.host_str(), Some("127.0.0.1") | Some("localhost")));
    }
    for forbidden in ["127.0.0.1", "localhost", "rts-server", "cargo run"] {
        assert!(!script.contains(forbidden), "release startup runtime should not reference {forbidden}");
    }
}

#[test]
fn runtime_script_lists_profiles_as_json_objects_and_gates_automation() {
    let script = runtime_script(ShellPlatform::Other, None, true, false);
    assert!(script.contains(
        "Object.freeze([{\"id\":\"beta\",\"label\":\"Beta\",\"url\":\"https://rts-0-zvorygin-beta.fly.dev/\",\"summary\":\"Playtest channel\"},{\"id\":\"mainline\",\"label\":\"Mainline\",\"url\":\"https://rts-0-zvorygin.fly.dev/\",\"summary\":\"Current public release\"}].map("
    ));
    assert!(script.contains("platform: \"other\""));
    assert!(script.contains(&gated_automation_script(desktop_autostart_script())));
    assert!(!script.contains(desktop_autolock_script()));
    assert!(script.starts_with("\n(() => {\n"));
    assert!(script.ends_with("\n})();\n"));
    let quoted = runtime_script(ShellPlatform::Other, Some("http://127.0.0.1:4000/\"x"), false, false);
    assert!(quoted.contains("const developerServerUrl = \"http://127.0.0.1:4000/\\\"x\";"));
}

#[test]
fn gated_automation_runs_outside_the_startup_screen_only() {
    assert_eq!(
        gated_automation_script("  go();"),
        "\n  if (runtime.serverMode !== \"startup\") {\n  go();\n  }\n"
    );
    assert!(desktop_autostart_script().contains("desktop autostart timed out"));
    assert!(desktop_autolock_script().contains("desktop autolock timed out"));
}

#[test]
fn snapshot_defaults_to_opted_out_windowed_mode() {
    let fullscreen = FullscreenSession::new();
    let snapshot = fullscreen.snapshot();
    assert!(snapshot.supported);
    assert!(!snapshot.requested);
    assert!(!snapshot.active);
    assert_eq!(snapshot.mode, "windows-display-mode");
}

const WS_OVERLAPPEDWINDOW: isize = 0x00cf_0000;
const WS_MAXIMIZE: isize = 0x0100_0000;
const WS_MINIMIZE: isize = 0x2000_0000;

#[test]
fn exclusive_style_removes_the_complete_overlapped_frame() {
    let framed = 0x14cf_0000isize | WS_MAXIMIZE | WS_MINIMIZE;
    let fullscreen = fullscreen_window_style(framed);
    assert_eq!(fullscreen & WS_OVERLAPPEDWINDOW, 0);
    assert_eq!(fullscreen & WS_MAXIMIZE, 0);
    assert_eq!(fullscreen & WS_MINIMIZE, 0);
    assert_eq!(
        fullscreen & !(WS_OVERLAPPEDWINDOW | WS_MAXIMIZE | WS_MINIMIZE),
        framed & !(WS_OVERLAPPEDWINDOW | WS_MAXIMIZE | WS_MINIMIZE)
    );
}

#[test]
fn fullscreen_bounds_require_the_exact_monitor_rectangle() {
    let monitor = Rect {
        left: -1920,
        top: 0,
        right: 0,
        bottom: 1080,
    };
    assert_eq!(rect_size(monitor), (1920, 1080));
    assert!(rect_matches(monitor, monitor));
    assert!(!rect_matches(Rect { right: -1, ..monitor }, monitor));
}

#[test]
fn bounded_log_text_is_idempotent_on_long_text() {
    for text in [
        format!("  {}{}", "a".repeat(599), " tail that is cut off"),
        "x".repeat(700),
        format!("{} \u{2003}", "é".repeat(650)),
    ] {
        let once = bounded_log_text(&text);
        assert_eq!(bounded_log_text(&once), once);
    }
}

#[test]
fn fullscreen_session_enters_only_from_a_clean_state() {
    let mut session = FullscreenSession::ready();
    assert_eq!(session.snapshot().last_reason, "ready");
    session.note_preference(true);
    assert!(session.resume_enters());
    assert_eq!(session.enter_step(), EnterStep::Proceed);
    session.note_restoration_captured();
    assert_eq!(session.enter_step(), EnterStep::RestorationPending);
    session.note_entered("focus");
    assert_eq!(session.enter_step(), EnterStep::AlreadyActive);
    assert!(session.snapshot().active);
    assert_eq!(session.exit_step("blur"), ExitStep::Restore);
    session.note_exited("blur");
    assert_eq!(session.enter_step(), EnterStep::Proceed);
    assert_eq!(session.exit_step("again"), ExitStep::NothingToRestore);
    assert_eq!(session.snapshot().last_reason, "again");
    session.note_failed("mode switch refused");
    assert_eq!(session.snapshot().last_error.as_deref(), Some("mode switch refused"));
    session.note_shutdown();
    assert!(!session.resume_enters());
}

#[test]
fn fullscreen_rollback_keeps_the_restoration_unless_both_rollbacks_succeed() {
    let mut clean = FullscreenSession::ready();
    clean.note_preference(true);
    clean.note_restoration_captured();
    let message = clean.note_enter_rolled_back("window refused", None, None);
    assert_eq!(message, "window refused");
    assert!(!clean.restoration_pending);
    assert!(!clean.active);
    assert_eq!(clean.last_reason, "exclusive-fullscreen-failed");
    assert_eq!(clean.last_error.as_deref(), Some("window refused"));
    assert!(clean.requested);

    let mut stuck = FullscreenSession::ready();
    stuck.note_restoration_captured();
    let message = stuck.note_enter_rolled_back("window refused", Some("display stuck"), None);
    assert_eq!(message, "window refused; rollback failed: display stuck");
    assert!(stuck.restoration_pending);

    let mut both = FullscreenSession::ready();
    both.note_restoration_captured();
    let message =
        both.note_enter_rolled_back("window refused", Some("display stuck"), Some("frame lost"));
    assert_eq!(message, "window refused; rollback failed: display stuck; frame lost");
    assert_eq!(both.last_error.as_deref(), Some(message.as_str()));
    assert!(both.restoration_pending);
}

#[test]
fn fullscreen_restore_failure_joins_the_errors() {
    assert_eq!(restore_failure_message(None, None), None);
    assert_eq!(restore_failure_message(Some("display"), None).as_deref(), Some("display"));
    assert_eq!(restore_failure_message(None, Some("window")).as_deref(), Some("window"));
    assert_eq!(
        restore_failure_message(Some("display"), Some("window")).as_deref(),
        Some("display; window")
    );
}

#[test]
fn fullscreen_preference_survives_a_failed_attempt() {
    let mut session = FullscreenSession::ready();
    session.note_preference(true);
    assert_eq!(session.enter_step(), EnterStep::Proceed);
    session.note_restoration_captured();
    session.note_restoration_dropped();
    session.note_failed("mode switch refused");
    assert!(session.snapshot().requested);
    session.note_preference(false);
    assert_eq!(session.exit_step("preference-disabled"), ExitStep::NothingToRestore);
    session.note_restore_failed("display stuck");
    assert!(!session.snapshot().requested);
}

#[test]
fn cursor_capture_counts_events_only_while_running() {
    let mut capture = CaptureBookkeeping::ready();
    assert_eq!(capture.last_reason, "ready");
    assert_eq!(capture.note_native_event(), None);
    assert_eq!(capture.stop("blur"), None);
    assert_eq!(capture.native_events_received, 0);
    assert_eq!(capture.last_reason, "blur");

    capture.note_capture_failed("no accessibility permission");
    assert_eq!(capture.last_reason, "capture-start-failed");
    assert_eq!(capture.last_error.as_deref(), Some("no accessibility permission"));
    assert!(!capture.active);

    capture.note_capture_started(true, false);
    assert!(capture.active && capture.cursor_hidden && !capture.cursor_disconnected);
    assert_eq!(capture.last_error, None);
    assert_eq!(capture.note_native_event(), Some(1));
    assert_eq!(capture.note_native_event(), Some(2));
    assert_eq!(capture.last_reason, "native-event");
    capture.note_dispatched();
    capture.note_dispatch_failed("eval failed");
    assert_eq!(capture.js_events_dispatched, 1);
    assert_eq!(capture.dropped_events, 1);
    assert_eq!(capture.last_error.as_deref(), Some("eval failed"));
    assert_eq!(capture.stop("window blur"), Some(3));
    assert!(!capture.active && !capture.cursor_hidden);
    assert_eq!(capture.last_error, None);
    assert_eq!(capture.native_events_received, 3);

    capture.native_events_received = u64::MAX;
    capture.note_capture_started(false, false);
    assert_eq!(capture.note_native_event(), Some(u64::MAX));
}

#[test]
fn runtime_script_writes_the_developer_url_as_an_escaped_json_string() {
    let script = runtime_script(
        ShellPlatform::Windows,
        Some("http://127.0.0.1:4000/a\"b\\c\u{1}\n"),
        false,
        false,
    );
    assert!(script.contains("const developerServerUrl = \"http://127.0.0.1:4000/a\\\"b\\\\c\\u0001\\n\""));
}

#[test]
fn log_entry_fields_let_the_callers_fields_override() {
    let fields = vec![("reason".to_string(), 1), ("event".to_string(), 2)];
    let mut entry = log_entry_fields(10, 20, fields);
    entry.sort();
    assert_eq!(
        entry,
        vec![("event".to_string(), 2), ("reason".to_string(), 1), ("tsUnixMs".to_string(), 10)]
    );
    let mut plain = log_entry_fields(10, 20, Vec::new());
    plain.sort();
    assert_eq!(plain, vec![("event".to_string(), 20), ("tsUnixMs".to_string(), 10)]);
}

#[test]
fn fullscreen_failure_messages() {
    assert_eq!(
        restoration_pending_message(),
        "exclusive fullscreen cannot re-enter while restoration is pending"
    );
    assert_eq!(
        display_change_failure_message(-2),
        "ChangeDisplaySettingsExW(CDS_FULLSCREEN) failed with code -2"
    );
    assert_eq!(
        display_change_failure_message(i32::MIN),
        format!("ChangeDisplaySettingsExW(CDS_FULLSCREEN) failed with code {}", i32::MIN)
    );
    assert_eq!(
        display_change_failure_message(1),
        "ChangeDisplaySettingsExW(CDS_FULLSCREEN) failed with code 1"
    );
}

#[test]
fn startup_failure_query_encodes_every_delimiter() {
    assert_eq!(
        startup_failure_url("x", "a&b=c?d#e f*é", None),
        "tauri://localhost/index.html?failure=x&message=a%26b%3Dc%3Fd%23e+f*%C3%A9"
    );
    let url = startup_failure_url("load-timeout", "m", Some("https://example.com/a?token=secret#frag"));
    assert!(!url.contains("secret"));
    assert!(url.ends_with("&url=https%3A%2F%2Fexample.com%2Fa"));
}

#[test]
fn normalized_developer_url_normalizes_to_itself() {
    for value in [" http://localhost:8080 ", "http://127.0.0.1:5173/app?x=1#y", "http://LOCALHOST/"] {
        let once = normalize_developer_server_url(value).ok().unwrap();
        assert_eq!(normalize_developer_server_url(&once).ok().unwrap(), once);
    }
}
