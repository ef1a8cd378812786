//! The protocol handler: the virtual-scheme asset server. It answers CORS
//! preflights uniformly, cleans and percent-decodes request paths, resolves
//! directory targets to their index document, serves file bytes under a
//! guessed content type, and injects the bridge bootstrap — reserved-method
//! handlers plus one forwarding stub per currently registered method — into
//! every HTML response, before the closing head tag or, failing that, right
//! after the opening body tag. The filesystem itself stays with the caller:
//! this module decides what to serve for what was found.

use vstd::prelude::*;

use vstd::utf8::{decode_utf8, encode_utf8, valid_utf8};

use crate::bridge::spec_stub_script;
use crate::bridge::stub_script;
use crate::registry::CallbackRegistry;
use crate::text::{
    find_str, match_at, spec_contains, spec_find, spec_splice, spec_strip_prefix,
    spec_trim_slashes, splice_str, str_eq, strip_prefix_once, trim_leading_slashes,
    utf8_to_string,
};

verus! {

/// What a percent-encoded path decodes to, the way the URL decoder reads it
/// (a path whose decoded bytes are not UTF-8 is used undecoded).
pub uninterp spec fn percent_decoded(s: Seq<char>) -> Seq<char>;

/// Relies on urlencoding::decode: a pure function of the path text; on a
/// decode failure the path is used as it came.
#[verifier::external_body]
fn percent_decode(s: &str) -> (r: String)
    ensures
        r@ == percent_decoded(s@),
{
    match urlencoding::decode(s) {
        Ok(c) => c.into_owned(),
        Err(_) => s.to_string(),
    }
}

/// The content type guessed from a path's extension.
pub uninterp spec fn mime_of(path: Seq<char>) -> Seq<char>;

/// Relies on mime_guess::from_path(..).first_or_octet_stream(): the content
/// type guessed from the path's extension alone, as its essence string.
#[verifier::external_body]
fn guess_mime(path: &str) -> (r: String)
    ensures
        r@ == mime_of(path@),
{
    mime_guess::from_path(path).first_or_octet_stream().to_string()
}

/// A content type whose subtype is `html`: everything after the first `/`
/// reads `html`.
pub open spec fn spec_is_html_mime(m: Seq<char>) -> bool {
    match spec_find(m, "/"@) {
        Some(i) => m.subrange(i + 1, m.len() as int) == "html"@,
        None => false,
    }
}

fn is_html_mime(m: &str) -> (b: bool)
    ensures
        b == spec_is_html_mime(m@),
{
    let ml = m.unicode_len();
    match find_str(m, "/") {
        Some(i) => {
            proof {
                reveal_strlit("/");
                crate::text::lemma_find_props(m@, "/"@);
            }
            str_eq(m.substring_char(i + 1, ml), "html")
        },
        None => false,
    }
}

/// The HTTP method classes the handler distinguishes.
#[derive(Clone, Copy, Debug, PartialEq, Eq, Structural)]
pub enum RequestKind {
    /// A CORS preflight.
    Options,
    /// Anything else; the handler serves it.
    Other,
}

/// What a request resolves to before any file is touched.
#[derive(Debug, PartialEq, Eq)]
pub enum RequestPlan {
    /// Answer uniformly with the permissive cross-origin headers and an empty
    /// body, regardless of path, before any file resolution.
    Preflight,
    /// The blank sentinel path: an empty 200.
    Blank,
    /// Serve this decoded path, relative to the configured root.
    Serve(String),
}

/// The path cleaning rule: strip every leading slash, strip one `app/`
/// prefix if present, then treat the blank sentinel specially and
/// percent-decode the rest.
pub open spec fn spec_clean_path(path: Seq<char>) -> Seq<char> {
    spec_strip_prefix(spec_trim_slashes(path), "app/"@)
}

pub open spec fn plan_matches(kind: RequestKind, path: Seq<char>, p: RequestPlan) -> bool {
    if kind is Options {
        p is Preflight
    } else {
        let clean = spec_clean_path(path);
        if clean == "about:blank"@ {
            p is Blank
        } else {
            p matches RequestPlan::Serve(d) && d@ == percent_decoded(clean)
        }
    }
}

/// Resolves a request's method and raw path to a serving plan: `/app/<path>`
/// and `/<path>` are equivalent, the blank sentinel yields an empty 200, and
/// an `OPTIONS` request is answered before any file resolution.
pub fn plan_request(kind: RequestKind, path: &str) -> (r: RequestPlan)
    ensures
        plan_matches(kind, path@, r),
{
    match kind {
        RequestKind::Options => RequestPlan::Preflight,
        RequestKind::Other => {
            let trimmed = trim_leading_slashes(path);
            let clean = strip_prefix_once(trimmed.as_str(), "app/");
            if str_eq(clean.as_str(), "about:blank") {
                RequestPlan::Blank
            } else {
                RequestPlan::Serve(percent_decode(clean.as_str()))
            }
        },
    }
}

/// Joining a relative path onto a base, with exactly one slash between them.
pub open spec fn spec_join(a: Seq<char>, b: Seq<char>) -> Seq<char> {
    if a.len() > 0 && a.last() == '/' {
        a + b
    } else {
        a + "/"@ + b
    }
}

pub fn join_path(a: &str, b: &str) -> (r: String)
    ensures
        r@ == spec_join(a@, b@),
{
    let al = a.unicode_len();
    let mut s = String::from_str(a);
    if !(al > 0 && a.get_char(al - 1) == '/') {
        s.append("/");
    }
    s.append(b);
    s
}

/// The file a served path names on disk: the decoded path joined onto the
/// root, with a directory target resolved to its index document.
pub open spec fn spec_target_path(root: Seq<char>, rel: Seq<char>, is_dir: bool) -> Seq<char> {
    if is_dir {
        spec_join(spec_join(root, rel), "index.html"@)
    } else {
        spec_join(root, rel)
    }
}

/// Computes the filesystem target for a `Serve` plan; `is_dir` says whether
/// the joined path names a directory, which the caller read off the
/// filesystem.
pub fn target_path(root: &str, rel: &str, is_dir: bool) -> (r: String)
    ensures
        r@ == spec_target_path(root@, rel@, is_dir),
{
    let joined = join_path(root, rel);
    if is_dir {
        join_path(joined.as_str(), "index.html")
    } else {
        joined
    }
}

/// The fixed head of the injected bootstrap block: the bridge dispatcher, the
/// pending-continuation table, the reserved-method helpers and the alert
/// override. Safe to execute repeatedly and before the document loads.
pub open spec fn spec_bootstrap_prefix() -> Seq<char> {
    "<script>\nwindow.pytron_is_native = true;\nwindow.pytron = window.pytron || {};\nwindow.pytron.is_ready = true;\nwindow.__pytron_native_bridge = (method, args) => {\n  const seq = Math.random().toString(36).substring(2, 10);\n  window.ipc.postMessage(JSON.stringify({id: seq, method: method, params: args}));\n  return new Promise((resolve, reject) => {\n    window._rpc = window._rpc || {};\n    window._rpc[seq] = {resolve, reject};\n  });\n};\nwindow.pytron_close = () => window.__pytron_native_bridge('pytron_close', []);\nwindow.pytron_drag = () => window.__pytron_native_bridge('pytron_drag', []);\nwindow.pytron_log = (msg) => window.__pytron_native_bridge('pytron_log', [msg]);\nwindow.alert = (msg) => {\n  window.__pytron_native_bridge('pytron_message_box', [\"Alert\", String(msg), \"info\"]);\n};\n"@
}

/// One forwarding-stub line per registered name, in registration order.
pub open spec fn spec_stub_lines(names: Seq<Seq<char>>) -> Seq<char>
    decreases names.len(),
{
    if names.len() == 0 {
        Seq::empty()
    } else {
        spec_stub_lines(names.drop_last()) + spec_stub_script(names.last()) + "\n"@
    }
}

/// The whole bootstrap block for one registry state.
pub open spec fn spec_bootstrap(names: Seq<Seq<char>>) -> Seq<char> {
    spec_bootstrap_prefix() + spec_stub_lines(names) + "</script>\n"@
}

/// Builds the bootstrap block against the live registry; recomputed per
/// response, never cached, so it always reflects the current bindings.
pub fn bootstrap_script(registry: &CallbackRegistry) -> (r: String)
    ensures
        r@ == spec_bootstrap(registry.names()),
{
    let names = registry.names_vec();
    let ghost nv = registry.names();
    let mut s = String::from_str(
        "<script>\nwindow.pytron_is_native = true;\nwindow.pytron = window.pytron || {};\nwindow.pytron.is_ready = true;\nwindow.__pytron_native_bridge = (method, args) => {\n  const seq = Math.random().toString(36).substring(2, 10);\n  window.ipc.postMessage(JSON.stringify({id: seq, method: method, params: args}));\n  return new Promise((resolve, reject) => {\n    window._rpc = window._rpc || {};\n    window._rpc[seq] = {resolve, reject};\n  });\n};\nwindow.pytron_close = () => window.__pytron_native_bridge('pytron_close', []);\nwindow.pytron_drag = () => window.__pytron_native_bridge('pytron_drag', []);\nwindow.pytron_log = (msg) => window.__pytron_native_bridge('pytron_log', [msg]);\nwindow.alert = (msg) => {\n  window.__pytron_native_bridge('pytron_message_box', [\"Alert\", String(msg), \"info\"]);\n};\n",
    );
    let n = names.len();
    let mut i: usize = 0;
    while i < n
        invariant
            n == names@.len(),
            i <= n,
            names@.map_values(|x: String| x@) == nv,
            s@ == spec_bootstrap_prefix() + spec_stub_lines(nv.subrange(0, i as int)),
        decreases n - i,
    {
        let stub = stub_script(names[i].as_str());
        s.append(stub.as_str());
        s.append("\n");
        proof {
            let pre = nv.subrange(0, i as int);
            let cur = nv.subrange(0, i as int + 1);
            assert(cur.drop_last() =~= pre);
            assert(cur.last() == nv[i as int]);
            assert(names@[i as int]@ == nv[i as int]);
            assert(s@ =~= spec_bootstrap_prefix() + spec_stub_lines(cur));
        }
        i = i + 1;
    }
    proof {
        assert(nv.subrange(0, n as int) =~= nv);
    }
    s.append("</script>\n");
    proof {
        assert(s@ =~= spec_bootstrap(nv));
    }
    s
}

/// The bootstrap block for a registry that has a name bound carries the
/// forwarding stub for that name: once `bind` registered it, every
/// subsequently injected bootstrap names it.
pub proof fn lemma_bootstrap_contains_stub(names: Seq<Seq<char>>, name: Seq<char>)
    requires
        names.contains(name),
    ensures
        spec_contains(spec_bootstrap(names), spec_stub_script(name)),
{
    let k = choose|k: int| 0 <= k < names.len() && names[k] == name;
    lemma_stub_lines_at(names, k);
    let i = choose|i: int| match_at(spec_stub_lines(names), spec_stub_script(name), i);
    let pre = spec_bootstrap_prefix();
    let whole = spec_bootstrap(names);
    let stub = spec_stub_script(name);
    assert(match_at(whole, stub, pre.len() + i)) by {
        assert(whole.subrange(pre.len() + i, pre.len() + i + stub.len() as int) =~= spec_stub_lines(
            names,
        ).subrange(i, i + stub.len() as int));
    }
}

/// After `bind` registered a name — so the name is in the registry's domain —
/// every subsequently built bootstrap contains the forwarding stub naming it.
pub proof fn lemma_bound_name_has_stub(reg: &CallbackRegistry, name: Seq<char>)
    requires
        reg.wf(),
        reg@.contains_key(name),
    ensures
        spec_contains(spec_bootstrap(reg.names()), spec_stub_script(name)),
{
    reg.lemma_names_dom();
    lemma_bootstrap_contains_stub(reg.names(), name);
}

proof fn lemma_stub_lines_at(names: Seq<Seq<char>>, k: int)
    requires
        0 <= k < names.len(),
    ensures
        exists|i: int| match_at(spec_stub_lines(names), spec_stub_script(names[k]), i),
    decreases names.len(),
{
    let lines = spec_stub_lines(names);
    let stub = spec_stub_script(names[k]);
    if k == names.len() - 1 {
        let off = spec_stub_lines(names.drop_last()).len() as int;
        assert(match_at(lines, stub, off)) by {
            assert(lines.subrange(off, off + stub.len() as int) =~= stub);
        }
    } else {
        let d = names.drop_last();
        assert(d[k] == names[k]);
        lemma_stub_lines_at(d, k);
        let i = choose|i: int| match_at(spec_stub_lines(d), stub, i);
        assert(match_at(lines, stub, i)) by {
            assert(lines.subrange(i, i + stub.len() as int) =~= spec_stub_lines(d).subrange(
                i,
                i + stub.len() as int,
            ));
        }
    }
}

/// Where the bootstrap lands in an HTML document: before the first closing
/// head tag, or right after the first opening body tag when no head closes,
/// or nowhere when the document has neither.
pub open spec fn spec_inject(html: Seq<char>, script: Seq<char>) -> Seq<char> {
    match spec_find(html, "</head>"@) {
        Some(i) => spec_splice(html, i, script),
        None => match spec_find(html, "<body>"@) {
            Some(i) => spec_splice(html, i + "<body>"@.len(), script),
            None => html,
        },
    }
}

/// Injects the bootstrap block into an HTML document.
pub fn inject_bootstrap(html: &str, script: &str) -> (r: String)
    ensures
        r@ == spec_inject(html@, script@),
{
    match find_str(html, "</head>") {
        Some(i) => {
            proof {
                crate::text::lemma_find_props(html@, "</head>"@);
            }
            splice_str(html, i, script)
        },
        None => match find_str(html, "<body>") {
            Some(i) => {
                let hl = html.unicode_len();
                proof {
                    reveal_strlit("<body>");
                    crate::text::lemma_find_props(html@, "<body>"@);
                }
                splice_str(html, i + 6, script)
            },
            None => String::from_str(html),
        },
    }
}

/// An injection point exists (a closing head or an opening body tag), so the
/// injected document contains the script.
pub proof fn lemma_inject_contains_script(html: Seq<char>, script: Seq<char>)
    requires
        spec_find(html, "</head>"@) is Some || spec_find(html, "<body>"@) is Some,
    ensures
        spec_contains(spec_inject(html, script), script),
{
    let out = spec_inject(html, script);
    match spec_find(html, "</head>"@) {
        Some(i) => {
            crate::text::lemma_find_props(html, "</head>"@);
            assert(match_at(out, script, i)) by {
                assert(out.subrange(i, i + script.len() as int) =~= script);
            }
        },
        None => {
            let i = spec_find(html, "<body>"@).unwrap() + "<body>"@.len();
            crate::text::lemma_find_props(html, "<body>"@);
            assert(match_at(out, script, i)) by {
                assert(out.subrange(i, i + script.len() as int) =~= script);
            }
        },
    }
}

/// After `bind("x", _)`, a subsequent HTML response's injected bootstrap
/// contains the forwarding stub naming `x`: whenever the document offers an
/// injection point, the injected result contains the stub of every name the
/// registry holds.
pub proof fn lemma_response_contains_stub(html: Seq<char>, reg: &CallbackRegistry, name: Seq<char>)
    requires
        reg.wf(),
        reg@.contains_key(name),
        spec_find(html, "</head>"@) is Some || spec_find(html, "<body>"@) is Some,
    ensures
        spec_contains(
            spec_inject(html, spec_bootstrap(reg.names())),
            spec_stub_script(name),
        ),
{
    lemma_bound_name_has_stub(reg, name);
    lemma_inject_contains_script(html, spec_bootstrap(reg.names()));
    lemma_contains_trans(
        spec_inject(html, spec_bootstrap(reg.names())),
        spec_bootstrap(reg.names()),
        spec_stub_script(name),
    );
}

/// A substring of a substring is a substring of the whole.
pub proof fn lemma_contains_trans(big: Seq<char>, mid: Seq<char>, small: Seq<char>)
    requires
        spec_contains(big, mid),
        spec_contains(mid, small),
    ensures
        spec_contains(big, small),
{
    let i = choose|i: int| match_at(big, mid, i);
    let j = choose|j: int| match_at(mid, small, j);
    assert(match_at(big, small, i + j)) by {
        assert(big.subrange(i + j, i + j + small.len() as int) =~= mid.subrange(
            j,
            j + small.len() as int,
        ));
    }
}

/// One response of the virtual-scheme server.
pub struct PytronResponse {
    pub status: u16,
    pub headers: Vec<(String, String)>,
    pub body: Vec<u8>,
}

pub open spec fn headers_view(h: Seq<(String, String)>) -> Seq<(Seq<char>, Seq<char>)> {
    h.map_values(|p: (String, String)| (p.0@, p.1@))
}

/// The three permissive cross-origin headers every preflight answer carries.
pub open spec fn spec_preflight_headers() -> Seq<(Seq<char>, Seq<char>)> {
    seq![
        ("Access-Control-Allow-Origin"@, "*"@),
        ("Access-Control-Allow-Methods"@, "GET, POST, PUT, DELETE, OPTIONS"@),
        ("Access-Control-Allow-Headers"@, "*"@),
    ]
}

/// The headers on a served asset: its content type and the permissive origin.
pub open spec fn spec_asset_headers(mime: Seq<char>) -> Seq<(Seq<char>, Seq<char>)> {
    seq![("content-type"@, mime), ("Access-Control-Allow-Origin"@, "*"@)]
}

/// Status 200, empty body, exactly the three permissive CORS headers.
pub fn cors_preflight_response() -> (r: PytronResponse)
    ensures
        r.status == 200,
        r.body@ == Seq::<u8>::empty(),
        headers_view(r.headers@) == spec_preflight_headers(),
{
    let mut headers: Vec<(String, String)> = Vec::new();
    headers.push(
        (String::from_str("Access-Control-Allow-Origin"), String::from_str("*")),
    );
    headers.push(
        (
            String::from_str("Access-Control-Allow-Methods"),
            String::from_str("GET, POST, PUT, DELETE, OPTIONS"),
        ),
    );
    headers.push(
        (String::from_str("Access-Control-Allow-Headers"), String::from_str("*")),
    );
    let r = PytronResponse { status: 200, headers, body: Vec::new() };
    proof {
        assert(headers_view(r.headers@) =~= spec_preflight_headers());
    }
    r
}

/// Status 200, empty body, no headers: the blank sentinel's answer.
pub fn blank_response() -> (r: PytronResponse)
    ensures
        r.status == 200,
        r.body@ == Seq::<u8>::empty(),
        headers_view(r.headers@) == Seq::<(Seq<char>, Seq<char>)>::empty(),
{
    let r = PytronResponse { status: 200, headers: Vec::new(), body: Vec::new() };
    proof {
        assert(headers_view(r.headers@) =~= Seq::<(Seq<char>, Seq<char>)>::empty());
    }
    r
}

/// Status 404 with an empty body: the file is missing and the host declined.
pub fn not_found_response() -> (r: PytronResponse)
    ensures
        r.status == 404,
        r.body@ == Seq::<u8>::empty(),
        headers_view(r.headers@) == Seq::<(Seq<char>, Seq<char>)>::empty(),
{
    let r = PytronResponse { status: 404, headers: Vec::new(), body: Vec::new() };
    proof {
        assert(headers_view(r.headers@) =~= Seq::<(Seq<char>, Seq<char>)>::empty());
    }
    r
}

/// The body an existing file is served with: HTML that decodes as UTF-8 gets
/// the live bootstrap spliced in; everything else is served byte for byte.
pub open spec fn spec_file_body(
    path: Seq<char>,
    data: Seq<u8>,
    names: Seq<Seq<char>>,
) -> Seq<u8> {
    if spec_is_html_mime(mime_of(path)) && valid_utf8(data) {
        encode_utf8(spec_inject(decode_utf8(data), spec_bootstrap(names)))
    } else {
        data
    }
}

/// Serves the bytes of an existing file: content type guessed from the final
/// path, permissive origin header, and the bootstrap injected into HTML. The
/// injection is recomputed here, per response, against the live registry.
pub fn file_response(final_path: &str, data: Vec<u8>, registry: &CallbackRegistry) -> (r:
    PytronResponse)
    ensures
        r.status == 200,
        headers_view(r.headers@) == spec_asset_headers(mime_of(final_path@)),
        r.body@ == spec_file_body(final_path@, data@, registry.names()),
{
    let mime = guess_mime(final_path);
    let mut body = data;
    if is_html_mime(mime.as_str()) {
        match utf8_to_string(&body) {
            Some(content) => {
                let script = bootstrap_script(registry);
                let injected = inject_bootstrap(content.as_str(), script.as_str());
                proof {
                    vstd::utf8::encode_utf8_decode_utf8(content@);
                }
                body = injected.as_str().as_bytes_vec();
            },
            None => {},
        }
    }
    let mut headers: Vec<(String, String)> = Vec::new();
    headers.push((String::from_str("content-type"), mime));
    headers.push(
        (String::from_str("Access-Control-Allow-Origin"), String::from_str("*")),
    );
    let r = PytronResponse { status: 200, headers, body };
    proof {
        assert(headers_view(r.headers@) =~= spec_asset_headers(mime_of(final_path@)));
    }
    r
}

/// Serves what the host's virtual asset callback returned for a missing
/// file: its bytes under its content type, with the permissive origin.
pub fn host_asset_response(data: Vec<u8>, mime: String) -> (r: PytronResponse)
    ensures
        r.status == 200,
        headers_view(r.headers@) == spec_asset_headers(mime@),
        r.body@ == data@,
{
    let ghost mv = mime@;
    let mut headers: Vec<(String, String)> = Vec::new();
    headers.push((String::from_str("content-type"), mime));
    headers.push(
        (String::from_str("Access-Control-Allow-Origin"), String::from_str("*")),
    );
    let r = PytronResponse { status: 200, headers, body: data };
    proof {
        assert(headers_view(r.headers@) =~= spec_asset_headers(mv));
    }
    r
}

/// What the caller found for a `Serve` plan.
pub enum ServeOutcome {
    /// The target file exists: its resolved path (directories already routed
    /// to their index document) and its bytes.
    FileRead(String, Vec<u8>),
    /// The file is missing and the host's virtual asset callback produced
    /// bytes and a content type for the decoded path.
    HostAsset(Vec<u8>, String),
    /// The file is missing and the host served nothing.
    Missing,
}

/// The response owed to one planned request, given what the filesystem and
/// the host said. Preflights and the blank sentinel ignore the outcome: they
/// are answered before any file resolution.
pub open spec fn response_matches(
    plan: RequestPlan,
    outcome: ServeOutcome,
    names: Seq<Seq<char>>,
    r: PytronResponse,
) -> bool {
    match plan {
        RequestPlan::Preflight => r.status == 200 && r.body@ == Seq::<u8>::empty()
            && headers_view(r.headers@) == spec_preflight_headers(),
        RequestPlan::Blank => r.status == 200 && r.body@ == Seq::<u8>::empty() && headers_view(
            r.headers@,
        ) == Seq::<(Seq<char>, Seq<char>)>::empty(),
        RequestPlan::Serve(_) => match outcome {
            ServeOutcome::FileRead(path, data) => r.status == 200 && headers_view(r.headers@)
                == spec_asset_headers(mime_of(path@)) && r.body@ == spec_file_body(
                path@,
                data@,
                names,
            ),
            ServeOutcome::HostAsset(data, mime) => r.status == 200 && headers_view(r.headers@)
                == spec_asset_headers(mime@) && r.body@ == data@,
            ServeOutcome::Missing => r.status == 404 && r.body@ == Seq::<u8>::empty()
                && headers_view(r.headers@) == Seq::<(Seq<char>, Seq<char>)>::empty(),
        },
    }
}

/// Assembles the response for one request of the virtual scheme, after the
/// caller planned it with [`plan_request`] and, for a `Serve` plan, looked
/// the target up (via [`target_path`]) and read it or asked the host.
pub fn handle_pytron_protocol(
    plan: &RequestPlan,
    registry: &CallbackRegistry,
    outcome: ServeOutcome,
) -> (r: PytronResponse)
    ensures
        response_matches(*plan, outcome, registry.names(), r),
{
    match plan {
        RequestPlan::Preflight => cors_preflight_response(),
        RequestPlan::Blank => blank_response(),
        RequestPlan::Serve(_) => match outcome {
            ServeOutcome::FileRead(path, data) => file_response(path.as_str(), data, registry),
            ServeOutcome::HostAsset(data, mime) => host_asset_response(data, mime),
            ServeOutcome::Missing => not_found_response(),
        },
    }
}

} // verus!
