use pytron::protocol::{
    bootstrap_script, handle_pytron_protocol, plan_request, target_path, PytronResponse,
    RequestKind, RequestPlan, ServeOutcome,
};
use pytron::registry::CallbackRegistry;

fn serve_plan(path: &str) -> String {
    match plan_request(RequestKind::Other, path) {
        RequestPlan::Serve(p) => p,
        other => panic!("expected a serve plan, got {:?}", other),
    }
}

fn body_text(r: &PytronResponse) -> String {
    String::from_utf8(r.body.clone()).unwrap()
}

#[test]
fn options_answered_uniformly_with_cors() {
    // Status 200, empty body, the three permissive headers, for any path,
    // before any file resolution.
    let reg = CallbackRegistry::new();
    for path in ["/", "/missing/thing", "/app/index.html"] {
        let plan = plan_request(RequestKind::Options, path);
        assert_eq!(plan, RequestPlan::Preflight);
        let r = handle_pytron_protocol(&plan, &reg, ServeOutcome::Missing);
        assert_eq!(r.status, 200);
        assert!(r.body.is_empty());
        assert_eq!(
            r.headers,
            vec![
                ("Access-Control-Allow-Origin".to_string(), "*".to_string()),
                (
                    "Access-Control-Allow-Methods".to_string(),
                    "GET, POST, PUT, DELETE, OPTIONS".to_string()
                ),
                ("Access-Control-Allow-Headers".to_string(), "*".to_string()),
            ]
        );
    }
}

#[test]
fn blank_sentinel_yields_empty_ok() {
    let reg = CallbackRegistry::new();
    for path in ["/about:blank", "/app/about:blank", "about:blank"] {
        let plan = plan_request(RequestKind::Other, path);
        assert_eq!(plan, RequestPlan::Blank);
        let r = handle_pytron_protocol(&plan, &reg, ServeOutcome::Missing);
        assert_eq!(r.status, 200);
        assert!(r.body.is_empty());
        assert!(r.headers.is_empty());
    }
}

#[test]
fn app_prefix_and_bare_path_are_equivalent() {
    assert_eq!(serve_plan("/app/pages/a.html"), "pages/a.html");
    assert_eq!(serve_plan("/pages/a.html"), "pages/a.html");
    assert_eq!(serve_plan("//pages/a.html"), "pages/a.html");
}

#[test]
fn paths_are_percent_decoded() {
    assert_eq!(serve_plan("/app/my%20file.html"), "my file.html");
}

#[test]
fn directory_target_resolves_to_index() {
    // A request for /assets/ resolves to /assets/index.html when the joined
    // path names a directory.
    let decoded = serve_plan("/assets/");
    assert_eq!(decoded, "assets/");
    assert_eq!(target_path("/root", &decoded, true), "/root/assets/index.html");
    assert_eq!(target_path("/root", "assets", true), "/root/assets/index.html");
    assert_eq!(target_path("/root", "assets/a.css", false), "/root/assets/a.css");
}

#[test]
fn html_gets_bootstrap_before_closing_head() {
    let mut reg = CallbackRegistry::new();
    reg.bind("x", 1);
    let html = b"<html><head><title>t</title></head><body>hi</body></html>".to_vec();
    let plan = RequestPlan::Serve("index.html".to_string());
    let r = handle_pytron_protocol(
        &plan,
        &reg,
        ServeOutcome::FileRead("/root/index.html".to_string(), html),
    );
    assert_eq!(r.status, 200);
    assert_eq!(r.headers[0], ("content-type".to_string(), "text/html".to_string()));
    assert_eq!(
        r.headers[1],
        ("Access-Control-Allow-Origin".to_string(), "*".to_string())
    );
    let text = body_text(&r);
    // The bootstrap block sits before the closing head tag and carries one
    // forwarding stub per registered method.
    let script_at = text.find("<script>").unwrap();
    let head_close = text.find("</head>").unwrap();
    assert!(script_at < head_close);
    assert!(text.contains("window['x'] = (...args) => window.__pytron_native_bridge('x', args);"));
    assert!(text.contains("window.__pytron_native_bridge = (method, args) =>"));
    assert!(text.ends_with("<body>hi</body></html>"));
}

#[test]
fn html_without_head_injects_after_body_tag() {
    let reg = CallbackRegistry::new();
    let html = b"<body>hi</body>".to_vec();
    let plan = RequestPlan::Serve("a.html".to_string());
    let r = handle_pytron_protocol(&plan, &reg, ServeOutcome::FileRead("a.html".to_string(), html));
    let text = body_text(&r);
    assert!(text.starts_with("<body><script>"));
    assert!(text.ends_with("hi</body>"));
}

#[test]
fn html_without_anchor_tags_is_untouched() {
    let reg = CallbackRegistry::new();
    let html = b"plain fragment".to_vec();
    let plan = RequestPlan::Serve("a.html".to_string());
    let r = handle_pytron_protocol(
        &plan,
        &reg,
        ServeOutcome::FileRead("a.html".to_string(), html.clone()),
    );
    assert_eq!(r.body, html);
}

#[test]
fn non_html_served_byte_for_byte() {
    let reg = CallbackRegistry::new();
    let data = vec![1u8, 2, 3, 0, 255];
    let plan = RequestPlan::Serve("blob.bin".to_string());
    let r = handle_pytron_protocol(
        &plan,
        &reg,
        ServeOutcome::FileRead("blob.bin".to_string(), data.clone()),
    );
    assert_eq!(r.body, data);
    assert_eq!(
        r.headers[0],
        ("content-type".to_string(), "application/octet-stream".to_string())
    );
}

#[test]
fn invalid_utf8_html_is_untouched() {
    let reg = CallbackRegistry::new();
    let data = vec![0xffu8, 0xfe, 0x3c];
    let plan = RequestPlan::Serve("a.html".to_string());
    let r = handle_pytron_protocol(
        &plan,
        &reg,
        ServeOutcome::FileRead("a.html".to_string(), data.clone()),
    );
    assert_eq!(r.body, data);
}

#[test]
fn css_content_type_guessed_from_extension() {
    let reg = CallbackRegistry::new();
    let plan = RequestPlan::Serve("style.css".to_string());
    let r = handle_pytron_protocol(
        &plan,
        &reg,
        ServeOutcome::FileRead("style.css".to_string(), b"a{}".to_vec()),
    );
    assert_eq!(r.headers[0], ("content-type".to_string(), "text/css".to_string()));
    assert_eq!(r.body, b"a{}".to_vec());
}

#[test]
fn host_asset_served_with_its_type() {
    let reg = CallbackRegistry::new();
    let plan = RequestPlan::Serve("virtual.txt".to_string());
    let r = handle_pytron_protocol(
        &plan,
        &reg,
        ServeOutcome::HostAsset(b"made up".to_vec(), "text/plain".to_string()),
    );
    assert_eq!(r.status, 200);
    assert_eq!(r.body, b"made up".to_vec());
    assert_eq!(r.headers[0], ("content-type".to_string(), "text/plain".to_string()));
}

#[test]
fn missing_file_without_host_asset_is_404() {
    let reg = CallbackRegistry::new();
    let plan = RequestPlan::Serve("gone".to_string());
    let r = handle_pytron_protocol(&plan, &reg, ServeOutcome::Missing);
    assert_eq!(r.status, 404);
    assert!(r.body.is_empty());
}

#[test]
fn bootstrap_reflects_live_registry() {
    let mut reg = CallbackRegistry::new();
    let before = bootstrap_script(&reg);
    assert!(before.starts_with("<script>\n"));
    assert!(before.ends_with("</script>\n"));
    assert!(!before.contains("window['x']"));
    reg.bind("x", 1);
    reg.bind("y", 2);
    let after = bootstrap_script(&reg);
    assert!(after.contains("window['x'] = (...args) => window.__pytron_native_bridge('x', args);\n"));
    assert!(after.contains("window['y'] = (...args) => window.__pytron_native_bridge('y', args);\n"));
}
