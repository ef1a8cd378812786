use pytron::bus::{
    dialog_accepted, message_box_reply_script, message_level, on_close_requested, progress_kind,
    step, DialogAnswer, Effect, MessageLevel, ProgressKind,
};
use pytron::config::{app_id, find_internal_dir, load_settings, remove_spaces, Settings};
use pytron::events::UserEvent;
use pytron::utils::SendWrapper;
use pytron::webview::{allow_navigation, parse_dialog_filters, safe_url, NativeWebview};

fn shell() -> NativeWebview {
    NativeWebview::new(false, "index.html", "/root".to_string(), true, false)
}

#[test]
fn new_shell_starts_hidden_at_safe_url() {
    let w = shell();
    assert_eq!(w.state.title, "Pytron App");
    assert!(!w.state.visible);
    assert!(!w.state.terminated);
    assert!(w.state.decorations);
    assert!(w.state.resizable);
    assert_eq!(w.state.url, "pytron://app/index.html");
    assert_eq!(w.get_hwnd(), 0);
}

#[test]
fn safe_url_normalizes_only_bare_paths() {
    assert_eq!(safe_url("about:blank"), "about:blank");
    assert_eq!(safe_url("pytron://app/x.html"), "pytron://app/x.html");
    assert_eq!(safe_url("http://example.com"), "http://example.com");
    assert_eq!(safe_url("https://example.com"), "https://example.com");
    assert_eq!(safe_url("index.html"), "pytron://app/index.html");
    assert_eq!(safe_url("//pages/x.html"), "pytron://app/pages/x.html");
}

#[test]
fn navigation_allowed_only_for_internal_links() {
    assert!(allow_navigation("pytron://app/x.html"));
    assert!(allow_navigation("https://pytron.local/x"));
    assert!(allow_navigation("about:blank"));
    assert!(!allow_navigation("https://example.com"));
    assert!(!allow_navigation("mailto:a@b"));
}

#[test]
fn run_executes_commands_in_order() {
    let mut w = shell();
    w.set_title("Hi".to_string());
    w.eval("1+1".to_string());
    w.show();
    let effects = w.run();
    assert_eq!(
        effects,
        vec![
            Effect::ApplyTitle("Hi".to_string()),
            Effect::EvalScript("1+1".to_string()),
            Effect::ApplyVisible(true),
        ]
    );
    assert_eq!(w.state.title, "Hi");
    assert!(w.state.visible);
}

#[test]
fn quit_stops_the_loop_and_later_commands_are_dropped() {
    let mut w = shell();
    w.terminate();
    w.set_title("late".to_string());
    let effects = w.run();
    // The command queued behind Quit is never processed.
    assert_eq!(effects, vec![Effect::StopLoop]);
    assert!(w.state.terminated);
    assert_eq!(w.state.title, "Pytron App");
    // Submission after termination is a silent no-op.
    w.set_title("later still".to_string());
    assert_eq!(w.run(), vec![]);
    assert_eq!(w.state.title, "Pytron App");
}

#[test]
fn showing_unminimizes() {
    let mut w = shell();
    w.minimize();
    w.show();
    w.run();
    assert!(w.state.visible);
    assert!(!w.state.minimized);
}

#[test]
fn window_overlay_flags_are_independent() {
    let mut w = shell();
    w.maximize();
    w.set_fullscreen(true);
    w.set_always_on_top(true);
    w.set_decorations(false);
    w.set_resizable(false);
    w.set_size(800, 600, 0);
    w.run();
    assert!(w.state.maximized);
    assert!(w.state.fullscreen);
    assert!(w.state.always_on_top);
    assert!(!w.state.decorations);
    assert!(!w.state.resizable);
    assert_eq!((w.state.width, w.state.height), (800, 600));
    let mut w2 = shell();
    w2.maximize();
    w2.unmaximize();
    w2.run();
    assert!(!w2.state.maximized);
}

#[test]
fn prevent_close_intercepts_via_live_registry() {
    let mut w = shell();
    w.bind("pytron_on_close", 9);
    w.set_prevent_close(true);
    w.run();
    assert!(w.state.prevent_close);
    let e = on_close_requested(&mut w.state, &w.callbacks);
    assert_eq!(e, Effect::InvokeCloseHandler(9));
    assert!(!w.state.terminated);
}

#[test]
fn close_without_prevention_terminates() {
    let mut w = shell();
    let e = on_close_requested(&mut w.state, &w.callbacks);
    assert_eq!(e, Effect::StopLoop);
    assert!(w.state.terminated);
}

#[test]
fn prevent_close_without_handler_stays_put() {
    let mut w = shell();
    w.set_prevent_close(true);
    w.run();
    let e = on_close_requested(&mut w.state, &w.callbacks);
    assert_eq!(e, Effect::Nothing);
    assert!(!w.state.terminated);
}

#[test]
fn tray_click_resolves_handler_at_dispatch_time() {
    let mut w = shell();
    let e = step(
        &mut w.state,
        &w.callbacks,
        UserEvent::TrayMenuClick("1000".to_string()),
    );
    assert_eq!(e, Effect::Nothing);
    // Late binding is honored: the name resolves when the click arrives.
    w.callbacks.bind("pytron_tray_click", 3);
    let e = step(
        &mut w.state,
        &w.callbacks,
        UserEvent::TrayMenuClick("1001".to_string()),
    );
    assert_eq!(e, Effect::InvokeTrayClick(3, "1001".to_string()));
}

#[test]
fn bind_installs_stub_and_ipc_routes_to_callable() {
    let mut w = shell();
    w.bind("add", 7);
    let effects = w.run();
    assert_eq!(
        effects,
        vec![Effect::EvalScript(
            "window['add'] = (...args) => window.__pytron_native_bridge('add', args);".to_string()
        )]
    );
    w.on_ipc_message(r#"{"id":"abc123","method":"add","params":[2,3]}"#);
    let effects = w.run();
    assert_eq!(
        effects,
        vec![Effect::InvokeHost(7, "abc123".to_string(), "[2,3]".to_string())]
    );
}

#[test]
fn ipc_drops_non_json_messages() {
    let mut w = shell();
    w.on_ipc_message("garbage");
    assert_eq!(w.run(), vec![]);
}

#[test]
fn return_command_evaluates_reply_script() {
    let mut w = shell();
    w.return_result("abc123".to_string(), 0, "5".to_string());
    let effects = w.run();
    assert_eq!(
        effects,
        vec![Effect::EvalScript(
            "if (window._rpc && window._rpc['abc123']) { window._rpc['abc123'].resolve(5); delete window._rpc['abc123']; }".to_string()
        )]
    );
}

#[test]
fn tray_built_on_native_success_only() {
    let mut w = shell();
    w.create_tray("icon.png".to_string(), "My app".to_string());
    let effects = w.run();
    assert_eq!(
        effects,
        vec![Effect::BuildTray("icon.png".to_string(), "My app".to_string())]
    );
    assert_eq!(w.state.tray, None);
    w.state.tray_installed("icon.png".to_string(), "My app".to_string());
    assert_eq!(
        w.state.tray,
        Some(("icon.png".to_string(), "My app".to_string()))
    );
}

#[test]
fn progress_codes_map_to_states() {
    assert_eq!(progress_kind(2), ProgressKind::Normal);
    assert_eq!(progress_kind(4), ProgressKind::Error);
    assert_eq!(progress_kind(8), ProgressKind::Paused);
    assert_eq!(progress_kind(1), ProgressKind::Indeterminate);
    assert_eq!(progress_kind(0), ProgressKind::Off);
    assert_eq!(progress_kind(77), ProgressKind::Off);
    let mut w = shell();
    w.set_taskbar_progress(2, 50, 100);
    assert_eq!(w.run(), vec![Effect::ApplyProgress(ProgressKind::Normal, 50)]);
}

#[test]
fn message_levels_default_to_info() {
    assert_eq!(message_level("error"), MessageLevel::Error);
    assert_eq!(message_level("warning"), MessageLevel::Warning);
    assert_eq!(message_level("info"), MessageLevel::Info);
    assert_eq!(message_level("anything"), MessageLevel::Info);
}

#[test]
fn dialog_acceptance() {
    assert!(dialog_accepted(DialogAnswer::Okay));
    assert!(dialog_accepted(DialogAnswer::Yes));
    assert!(!dialog_accepted(DialogAnswer::No));
    assert!(!dialog_accepted(DialogAnswer::Cancel));
}

#[test]
fn message_box_reply_resolves_pending_dialog() {
    assert_eq!(
        message_box_reply_script("m1", true).unwrap(),
        "if (window._rpc && window._rpc['m1']) { window._rpc['m1'].resolve(true); delete window._rpc['m1']; }"
    );
    assert_eq!(
        message_box_reply_script("m1", false).unwrap(),
        "if (window._rpc && window._rpc['m1']) { window._rpc['m1'].resolve(false); delete window._rpc['m1']; }"
    );
    assert_eq!(message_box_reply_script("", true), None);
}

#[test]
fn message_box_command_carries_level_and_seq() {
    let mut w = shell();
    let e = step(
        &mut w.state,
        &w.callbacks,
        UserEvent::MessageBox(
            "T".to_string(),
            "M".to_string(),
            "warning".to_string(),
            "m9".to_string(),
        ),
    );
    assert_eq!(
        e,
        Effect::ShowMessageBox(
            "T".to_string(),
            "M".to_string(),
            MessageLevel::Warning,
            "m9".to_string()
        )
    );
}

#[test]
fn open_external_passes_through() {
    let mut w = shell();
    let e = step(
        &mut w.state,
        &w.callbacks,
        UserEvent::OpenExternal("https://example.com".to_string()),
    );
    assert_eq!(e, Effect::OpenExternal("https://example.com".to_string()));
}

#[test]
fn dialog_filters_parse_named_groups() {
    let f = parse_dialog_filters("Images:png,jpg;Docs:pdf");
    assert_eq!(
        f,
        vec![
            ("Images".to_string(), vec!["png".to_string(), "jpg".to_string()]),
            ("Docs".to_string(), vec!["pdf".to_string()]),
        ]
    );
}

#[test]
fn malformed_filter_groups_are_dropped() {
    assert_eq!(
        parse_dialog_filters("bad;Docs:pdf"),
        vec![("Docs".to_string(), vec!["pdf".to_string()])]
    );
    assert_eq!(parse_dialog_filters("a:b:c"), vec![]);
}

#[test]
fn settings_embedded_wins_over_disk() {
    let emb = Settings {
        title: Some("A".to_string()),
        version: None,
        author: None,
    };
    let disk = Settings {
        title: Some("B".to_string()),
        version: None,
        author: None,
    };
    assert_eq!(
        load_settings(Some(emb.clone()), Some(disk.clone())),
        Some(emb)
    );
    assert_eq!(load_settings(None, Some(disk.clone())), Some(disk));
    assert_eq!(load_settings(None, None), None);
}

#[test]
fn app_id_strips_spaces_and_defaults() {
    let s = Settings {
        title: Some("My App".to_string()),
        version: None,
        author: Some("Jane Doe".to_string()),
    };
    assert_eq!(app_id(Some(&s)), "Pytron.JaneDoe.MyApp");
    assert_eq!(app_id(None), "Pytron.User.PytronApp");
    assert_eq!(remove_spaces("a b  c"), "abc");
}

#[test]
fn internal_dir_choice() {
    assert_eq!(
        find_internal_dir("/opt/app", true),
        ("/opt/app".to_string(), "/opt/app/_internal".to_string())
    );
    assert_eq!(
        find_internal_dir("/opt/app", false),
        ("/opt/app".to_string(), "/opt/app".to_string())
    );
}

#[test]
fn process_next_consumes_one_command() {
    let mut w = shell();
    w.set_title("one".to_string());
    w.eval("x".to_string());
    assert_eq!(
        w.process_next(),
        Some(Effect::ApplyTitle("one".to_string()))
    );
    assert_eq!(w.process_next(), Some(Effect::EvalScript("x".to_string())));
    assert_eq!(w.process_next(), None);
}

#[test]
fn send_wrapper_hands_value_back() {
    let w = SendWrapper::new(42u64);
    assert_eq!(w.take(), 42u64);
}
