use pytron::bridge::{
    dispatch_envelope, not_found_message, return_script, stub_script, PendingRpc, RpcReply,
};
use pytron::events::UserEvent;
use pytron::registry::CallbackRegistry;

#[test]
fn unregistered_method_rejected_with_exact_message() {
    // Any unregistered method yields a rejecting Return with the fixed text.
    let reg = CallbackRegistry::new();
    let cmd = dispatch_envelope(r#"{"id":"q1","method":"nope","params":[]}"#, &reg);
    assert_eq!(
        cmd,
        Some(UserEvent::Return(
            "q1".to_string(),
            1,
            "\"Method 'nope' not found.\"".to_string()
        ))
    );
}

#[test]
fn not_found_message_text() {
    assert_eq!(not_found_message("frob"), "\"Method 'frob' not found.\"");
}

#[test]
fn call_envelope_dispatches_and_return_resolves() {
    // The envelope routes to the bound callable with its seq and raw args;
    // the later Return resolves the pending continuation with the value.
    let mut reg = CallbackRegistry::new();
    reg.bind("add", 7);
    let cmd = dispatch_envelope(r#"{"id":"abc123", "method":"add", "params":[2,3]}"#, &reg);
    assert_eq!(
        cmd,
        Some(UserEvent::CallPython(
            7,
            "abc123".to_string(),
            "[2,3]".to_string(),
            "add".to_string()
        ))
    );

    let mut pending = PendingRpc::new();
    pending.register("abc123");
    assert!(pending.is_pending("abc123"));
    let reply = pending.consume_return("abc123", 0, "5");
    assert_eq!(reply, Some(RpcReply::Resolved("5".to_string())));
    assert!(!pending.is_pending("abc123"));
}

#[test]
fn second_return_for_same_seq_is_noop() {
    let mut pending = PendingRpc::new();
    pending.register("s1");
    assert_eq!(
        pending.consume_return("s1", 0, "1"),
        Some(RpcReply::Resolved("1".to_string()))
    );
    // The second Return finds nothing pending: silently ignored.
    assert_eq!(pending.consume_return("s1", 0, "1"), None);
}

#[test]
fn return_for_unknown_seq_is_noop() {
    let mut pending = PendingRpc::new();
    assert_eq!(pending.consume_return("ghost", 0, "1"), None);
}

#[test]
fn nonzero_status_rejects() {
    let mut pending = PendingRpc::new();
    pending.register("s2");
    assert_eq!(
        pending.consume_return("s2", 3, "\"boom\""),
        Some(RpcReply::Rejected("\"boom\"".to_string()))
    );
}

#[test]
fn reserved_drag_and_quit_aliases() {
    let reg = CallbackRegistry::new();
    for m in ["pytron_drag", "drag"] {
        let msg = format!(r#"{{"id":"i","method":"{}","params":[]}}"#, m);
        assert_eq!(dispatch_envelope(&msg, &reg), Some(UserEvent::DragWindow));
    }
    for m in ["pytron_close", "close", "app_quit"] {
        let msg = format!(r#"{{"id":"i","method":"{}","params":[]}}"#, m);
        assert_eq!(dispatch_envelope(&msg, &reg), Some(UserEvent::Quit));
    }
}

#[test]
fn reserved_notification_with_args() {
    let reg = CallbackRegistry::new();
    let cmd = dispatch_envelope(
        r#"{"id":"i","method":"system_notification","params":["Title","Body"]}"#,
        &reg,
    );
    assert_eq!(
        cmd,
        Some(UserEvent::Notification("Title".to_string(), "Body".to_string()))
    );
}

#[test]
fn notification_with_short_args_falls_through() {
    // Too few arguments: the reserved handler declines and the generic path
    // answers for the unregistered name.
    let reg = CallbackRegistry::new();
    let cmd = dispatch_envelope(
        r#"{"id":"i","method":"system_notification","params":["only"]}"#,
        &reg,
    );
    assert_eq!(
        cmd,
        Some(UserEvent::Return(
            "i".to_string(),
            1,
            "\"Method 'system_notification' not found.\"".to_string()
        ))
    );
}

#[test]
fn notification_bad_args_reaches_bound_callable() {
    let mut reg = CallbackRegistry::new();
    reg.bind("system_notification", 4);
    let cmd = dispatch_envelope(
        r#"{"id":"i","method":"system_notification","params":["only"]}"#,
        &reg,
    );
    assert_eq!(
        cmd,
        Some(UserEvent::CallPython(
            4,
            "i".to_string(),
            "[\"only\"]".to_string(),
            "system_notification".to_string()
        ))
    );
}

#[test]
fn reserved_taskbar_progress() {
    let reg = CallbackRegistry::new();
    let cmd = dispatch_envelope(
        r#"{"id":"i","method":"set_taskbar_progress","params":[2,50,100]}"#,
        &reg,
    );
    assert_eq!(cmd, Some(UserEvent::TaskbarProgress(2, 50, 100)));
}

#[test]
fn reserved_message_box_carries_seq() {
    let reg = CallbackRegistry::new();
    let cmd = dispatch_envelope(
        r#"{"id":"m1","method":"message_box","params":["T","M","error"]}"#,
        &reg,
    );
    assert_eq!(
        cmd,
        Some(UserEvent::MessageBox(
            "T".to_string(),
            "M".to_string(),
            "error".to_string(),
            "m1".to_string()
        ))
    );
}

#[test]
fn non_json_message_is_dropped() {
    let reg = CallbackRegistry::new();
    assert_eq!(dispatch_envelope("not json at all", &reg), None);
}

#[test]
fn missing_params_serializes_as_null() {
    let mut reg = CallbackRegistry::new();
    reg.bind("m", 2);
    let cmd = dispatch_envelope(r#"{"id":"a","method":"m"}"#, &reg);
    assert_eq!(
        cmd,
        Some(UserEvent::CallPython(
            2,
            "a".to_string(),
            "null".to_string(),
            "m".to_string()
        ))
    );
}

#[test]
fn return_script_resolves_and_rejects() {
    assert_eq!(
        return_script("s1", 0, "5"),
        "if (window._rpc && window._rpc['s1']) { window._rpc['s1'].resolve(5); delete window._rpc['s1']; }"
    );
    assert_eq!(
        return_script("s1", 2, "\"e\""),
        "if (window._rpc && window._rpc['s1']) { window._rpc['s1'].reject(\"e\"); delete window._rpc['s1']; }"
    );
}

#[test]
fn stub_script_names_the_method() {
    assert_eq!(
        stub_script("x"),
        "window['x'] = (...args) => window.__pytron_native_bridge('x', args);"
    );
}

#[test]
fn registry_bind_lookup_and_rebind() {
    let mut reg = CallbackRegistry::new();
    assert_eq!(reg.lookup("f"), None);
    reg.bind("f", 1);
    reg.bind("g", 2);
    assert_eq!(reg.lookup("f"), Some(1));
    assert_eq!(reg.lookup("g"), Some(2));
    // Rebinding replaces the callable and keeps the enumeration order.
    reg.bind("f", 9);
    assert_eq!(reg.lookup("f"), Some(9));
    assert_eq!(reg.names_vec(), vec!["f".to_string(), "g".to_string()]);
}
