//! The bridge protocol: the call/response correlation scheme run over the
//! in-process rendering transport. An inbound envelope `{id, method, params}`
//! is resolved against the reserved method names first and the callback
//! registry second; an unregistered method is answered at once with a
//! rejecting `Return` whose payload names the method. The rendering side
//! keeps a pending-continuation table keyed by sequence id; consuming a
//! `Return` resolves or rejects the continuation once and is a silent no-op
//! for an unknown or already-consumed id.

use vstd::prelude::*;

use crate::events::UserEvent;
use crate::registry::{CallableId, CallbackRegistry};
use crate::text::str_eq;

verus! {

/// The three fields of a bridge envelope, as the rendering transport's JSON
/// parser reads them from a message: id, method (absent or non-string fields
/// read as empty), and the params value re-serialized as raw JSON text.
pub uninterp spec fn envelope_fields(s: Seq<char>) -> Option<(Seq<char>, Seq<char>, Seq<char>)>;

/// Relies on serde_json::from_str::<Value> and Value's get/as_str/to_string:
/// a non-JSON message parses to nothing; otherwise the envelope's id and
/// method fields are read as strings (empty when absent or not a string) and
/// its params field is re-serialized to text.
#[verifier::external_body]
fn parse_envelope(msg: &str) -> (r: Option<(String, String, String)>)
    ensures
        r is Some <==> envelope_fields(msg@) is Some,
        r matches Some(t) ==> envelope_fields(msg@) == Some((t.0@, t.1@, t.2@)),
{
    let v: serde_json::Value = match serde_json::from_str(msg) {
        Ok(v) => v,
        Err(_) => return None,
    };
    Some((
        v["id"].as_str().unwrap_or("").to_string(),
        v["method"].as_str().unwrap_or("").to_string(),
        v["params"].to_string(),
    ))
}

/// A params payload read as a JSON array of strings, when it is one.
pub uninterp spec fn string_args_of(s: Seq<char>) -> Option<Seq<Seq<char>>>;

/// Relies on serde_json::from_str::<Vec<String>>: succeeds exactly when the
/// payload is a JSON array of strings and yields those strings in order.
#[verifier::external_body]
fn parse_string_args(params: &str) -> (r: Option<Vec<String>>)
    ensures
        r is Some <==> string_args_of(params@) is Some,
        r matches Some(v) ==> string_args_of(params@) == Some(v.deep_view()),
{
    serde_json::from_str::<Vec<String>>(params).ok()
}

/// A params payload read as a JSON array of 32-bit integers, when it is one.
pub uninterp spec fn int_args_of(s: Seq<char>) -> Option<Seq<i32>>;

/// Relies on serde_json::from_str::<Vec<i32>>: succeeds exactly when the
/// payload is a JSON array of integers in range and yields them in order.
#[verifier::external_body]
fn parse_int_args(params: &str) -> (r: Option<Vec<i32>>)
    ensures
        r is Some <==> int_args_of(params@) is Some,
        r matches Some(v) ==> int_args_of(params@) == Some(v@),
{
    serde_json::from_str::<Vec<i32>>(params).ok()
}

/// The payload of the rejecting `Return` for an unregistered method: a JSON
/// string literal naming the method.
pub open spec fn spec_not_found_payload(method: Seq<char>) -> Seq<char> {
    "\"Method '"@ + method + "' not found.\""@
}

/// Builds the method-not-found payload, exactly
/// `"Method '<name>' not found."` as a JSON string literal.
pub fn not_found_message(method: &str) -> (r: String)
    ensures
        r@ == spec_not_found_payload(method@),
{
    let mut s = String::from_str("\"Method '");
    s.append(method);
    s.append("' not found.\"");
    s
}

/// What an envelope must turn into, stated over the envelope text and the
/// registry contents alone.
pub enum SpecDispatch {
    /// The message is not a JSON envelope: dropped without an answer.
    Ignore,
    /// A reserved window-drag request.
    Drag,
    /// A reserved quit/close request.
    Quit,
    /// A reserved system notification with its two arguments.
    Notify { title: Seq<char>, message: Seq<char> },
    /// A reserved taskbar-progress request with its three integer arguments.
    Progress { state: i32, value: i32, max: i32 },
    /// A reserved message box with its arguments and the envelope id to
    /// answer.
    MsgBox { title: Seq<char>, message: Seq<char>, level: Seq<char>, seq: Seq<char> },
    /// A registered method: hand the callable its sequence id and raw
    /// argument payload.
    Call { callable: CallableId, seq: Seq<char>, args: Seq<char>, method: Seq<char> },
    /// An unregistered method: answer at once with a rejecting `Return`.
    NotFound { seq: Seq<char>, payload: Seq<char> },
}

pub open spec fn is_drag_name(m: Seq<char>) -> bool {
    m == "pytron_drag"@ || m == "drag"@
}

pub open spec fn is_quit_name(m: Seq<char>) -> bool {
    m == "pytron_close"@ || m == "close"@ || m == "app_quit"@
}

pub open spec fn is_notify_name(m: Seq<char>) -> bool {
    m == "system_notification"@ || m == "pytron_system_notification"@
}

pub open spec fn is_progress_name(m: Seq<char>) -> bool {
    m == "set_taskbar_progress"@ || m == "pytron_set_taskbar_progress"@
}

pub open spec fn is_msgbox_name(m: Seq<char>) -> bool {
    m == "pytron_message_box"@ || m == "message_box"@
}

/// The dispatch decision for one envelope against one registry state.
/// Reserved names are resolved before the registry, bypassing it entirely; a
/// reserved name whose arguments do not parse falls through to the generic
/// path, as does every other name.
pub open spec fn spec_dispatch(msg: Seq<char>, reg: Map<Seq<char>, CallableId>) -> SpecDispatch {
    match envelope_fields(msg) {
        None => SpecDispatch::Ignore,
        Some((id, method, params)) => {
            if is_drag_name(method) {
                SpecDispatch::Drag
            } else if is_quit_name(method) {
                SpecDispatch::Quit
            } else if is_notify_name(method) && notify_args(params) is Some {
                let a = notify_args(params).unwrap();
                SpecDispatch::Notify { title: a[0], message: a[1] }
            } else if is_progress_name(method) && progress_args(params) is Some {
                let a = progress_args(params).unwrap();
                SpecDispatch::Progress { state: a[0], value: a[1], max: a[2] }
            } else if is_msgbox_name(method) && msgbox_args(params) is Some {
                let a = msgbox_args(params).unwrap();
                SpecDispatch::MsgBox { title: a[0], message: a[1], level: a[2], seq: id }
            } else if reg.contains_key(method) {
                SpecDispatch::Call { callable: reg[method], seq: id, args: params, method }
            } else {
                SpecDispatch::NotFound { seq: id, payload: spec_not_found_payload(method) }
            }
        },
    }
}

/// Notification arguments: a string array with at least two entries.
pub open spec fn notify_args(params: Seq<char>) -> Option<Seq<Seq<char>>> {
    match string_args_of(params) {
        Some(a) => if a.len() >= 2 {
            Some(a)
        } else {
            None
        },
        None => None,
    }
}

/// Taskbar-progress arguments: an integer array with at least three entries.
pub open spec fn progress_args(params: Seq<char>) -> Option<Seq<i32>> {
    match int_args_of(params) {
        Some(a) => if a.len() >= 3 {
            Some(a)
        } else {
            None
        },
        None => None,
    }
}

/// Message-box arguments: a string array with at least three entries.
pub open spec fn msgbox_args(params: Seq<char>) -> Option<Seq<Seq<char>>> {
    match string_args_of(params) {
        Some(a) => if a.len() >= 3 {
            Some(a)
        } else {
            None
        },
        None => None,
    }
}

/// The executable dispatch outcome agrees with the decided one.
pub open spec fn dispatch_matches(d: SpecDispatch, r: Option<UserEvent>) -> bool {
    match d {
        SpecDispatch::Ignore => r is None,
        SpecDispatch::Drag => r == Some(UserEvent::DragWindow),
        SpecDispatch::Quit => r == Some(UserEvent::Quit),
        SpecDispatch::Notify { title, message } => r matches Some(
            UserEvent::Notification(t, m),
        ) && t@ == title && m@ == message,
        SpecDispatch::Progress { state, value, max } => r == Some(
            UserEvent::TaskbarProgress(state, value, max),
        ),
        SpecDispatch::MsgBox { title, message, level, seq } => r matches Some(
            UserEvent::MessageBox(t, m, l, s),
        ) && t@ == title && m@ == message && l@ == level && s@ == seq,
        SpecDispatch::Call { callable, seq, args, method } => r matches Some(
            UserEvent::CallPython(c, s, a, m),
        ) && c == callable && s@ == seq && a@ == args && m@ == method,
        SpecDispatch::NotFound { seq, payload } => r matches Some(
            UserEvent::Return(s, st, p),
        ) && s@ == seq && st == 1i32 && p@ == payload,
    }
}

/// Turns one raw bridge message into at most one command. For any
/// unregistered method name the command is a `Return` with nonzero status
/// whose payload is exactly the method-not-found message.
pub fn dispatch_envelope(msg: &str, registry: &CallbackRegistry) -> (r: Option<UserEvent>)
    requires
        registry.wf(),
    ensures
        dispatch_matches(spec_dispatch(msg@, registry@), r),
{
    let parsed = parse_envelope(msg);
    let (id, method, params) = match parsed {
        None => {
            return None;
        },
        Some(t) => t,
    };
    if str_eq(method.as_str(), "pytron_drag") || str_eq(method.as_str(), "drag") {
        return Some(UserEvent::DragWindow);
    }
    if str_eq(method.as_str(), "pytron_close") || str_eq(method.as_str(), "close") || str_eq(
        method.as_str(),
        "app_quit",
    ) {
        return Some(UserEvent::Quit);
    }
    if str_eq(method.as_str(), "system_notification") || str_eq(
        method.as_str(),
        "pytron_system_notification",
    ) {
        if let Some(args) = parse_string_args(params.as_str()) {
            if args.len() >= 2 {
                let title = args[0].clone();
                let message = args[1].clone();
                proof {
                    assert(args.deep_view()[0] == title@);
                    assert(args.deep_view()[1] == message@);
                }
                return Some(UserEvent::Notification(title, message));
            }
        }
    }
    if str_eq(method.as_str(), "set_taskbar_progress") || str_eq(
        method.as_str(),
        "pytron_set_taskbar_progress",
    ) {
        if let Some(args) = parse_int_args(params.as_str()) {
            if args.len() >= 3 {
                return Some(UserEvent::TaskbarProgress(args[0], args[1], args[2]));
            }
        }
    }
    if str_eq(method.as_str(), "pytron_message_box") || str_eq(method.as_str(), "message_box") {
        if let Some(args) = parse_string_args(params.as_str()) {
            if args.len() >= 3 {
                let title = args[0].clone();
                let message = args[1].clone();
                let level = args[2].clone();
                proof {
                    assert(args.deep_view()[0] == title@);
                    assert(args.deep_view()[1] == message@);
                    assert(args.deep_view()[2] == level@);
                }
                return Some(UserEvent::MessageBox(title, message, level, id));
            }
        }
    }
    match registry.lookup(method.as_str()) {
        Some(callable) => Some(UserEvent::CallPython(callable, id, params, method)),
        None => {
            let payload = not_found_message(method.as_str());
            Some(UserEvent::Return(id, 1, payload))
        },
    }
}

/// The script consuming one host reply on the rendering side: keyed by the
/// sequence id, it resolves on status zero and rejects otherwise, then
/// deletes the pending entry; it does nothing when no entry is pending.
pub open spec fn spec_return_script(seq: Seq<char>, resolve: bool, res: Seq<char>) -> Seq<char> {
    "if (window._rpc && window._rpc['"@ + seq + "']) { window._rpc['"@ + seq + (if resolve {
        "'].resolve("@
    } else {
        "'].reject("@
    }) + res + "); delete window._rpc['"@ + seq + "']; }"@
}

/// Builds the reply-consuming script for one `Return`: status zero resolves,
/// nonzero rejects.
pub fn return_script(seq: &str, status: i32, res: &str) -> (r: String)
    ensures
        r@ == spec_return_script(seq@, status == 0, res@),
{
    let mut s = String::from_str("if (window._rpc && window._rpc['");
    s.append(seq);
    s.append("']) { window._rpc['");
    s.append(seq);
    if status == 0 {
        s.append("'].resolve(");
    } else {
        s.append("'].reject(");
    }
    s.append(res);
    s.append("); delete window._rpc['");
    s.append(seq);
    s.append("']; }");
    s
}

/// The forwarding stub installed under a bound name: calling it routes
/// through the generic bridge path under that same name.
pub open spec fn spec_stub_script(name: Seq<char>) -> Seq<char> {
    "window['"@ + name + "'] = (...args) => window.__pytron_native_bridge('"@ + name
        + "', args);"@
}

/// Builds the forwarding stub for one bound name.
pub fn stub_script(name: &str) -> (r: String)
    ensures
        r@ == spec_stub_script(name@),
{
    let mut s = String::from_str("window['");
    s.append(name);
    s.append("'] = (...args) => window.__pytron_native_bridge('");
    s.append(name);
    s.append("', args);");
    s
}

/// For any unregistered method name that is none of the reserved ones, the
/// dispatch decision is a rejecting `Return`: nonzero status, payload exactly
/// the method-not-found message naming the method.
pub proof fn lemma_unregistered_method_rejected(msg: Seq<char>, reg: Map<Seq<char>, CallableId>)
    requires
        envelope_fields(msg) is Some,
        !is_drag_name(envelope_fields(msg).unwrap().1),
        !is_quit_name(envelope_fields(msg).unwrap().1),
        !is_notify_name(envelope_fields(msg).unwrap().1),
        !is_progress_name(envelope_fields(msg).unwrap().1),
        !is_msgbox_name(envelope_fields(msg).unwrap().1),
        !reg.contains_key(envelope_fields(msg).unwrap().1),
    ensures
        spec_dispatch(msg, reg) == (SpecDispatch::NotFound {
            seq: envelope_fields(msg).unwrap().0,
            payload: spec_not_found_payload(envelope_fields(msg).unwrap().1),
        }),
{
}

pub open spec fn unique_ids(s: Seq<String>) -> bool {
    forall|i: int, j: int| 0 <= i < j < s.len() ==> #[trigger] s[i]@ != #[trigger] s[j]@
}

pub open spec fn ids_set(s: Seq<String>) -> Set<Seq<char>>
    decreases s.len(),
{
    if s.len() == 0 {
        Set::empty()
    } else {
        ids_set(s.drop_last()).insert(s.last()@)
    }
}

proof fn lemma_ids_dom(s: Seq<String>)
    ensures
        forall|k: Seq<char>| #[trigger] ids_set(s).contains(k) <==> exists|i: int|
            0 <= i < s.len() && #[trigger] s[i]@ == k,
    decreases s.len(),
{
    if s.len() > 0 {
        let d = s.drop_last();
        lemma_ids_dom(d);
        assert forall|k: Seq<char>| #[trigger] ids_set(s).contains(k) implies exists|i: int|
            0 <= i < s.len() && #[trigger] s[i]@ == k by {
            if k == s.last()@ {
                assert(s[s.len() - 1]@ == k);
            } else {
                assert(ids_set(d).contains(k));
                assert(exists|i: int| 0 <= i < d.len() && #[trigger] d[i]@ == k);
                let i = choose|i: int| 0 <= i < d.len() && #[trigger] d[i]@ == k;
                assert(s[i]@ == k);
            }
        }
        assert forall|k: Seq<char>| (exists|i: int| 0 <= i < s.len() && #[trigger] s[i]@ == k)
            implies #[trigger] ids_set(s).contains(k) by {
            let i = choose|i: int| 0 <= i < s.len() && #[trigger] s[i]@ == k;
            if i < s.len() - 1 {
                assert(d[i]@ == k);
                assert(exists|j: int| 0 <= j < d.len() && #[trigger] d[j]@ == k);
                assert(ids_set(d).contains(k));
            } else {
                assert(k == s.last()@);
            }
        }
    }
}

/// How one host reply lands on the rendering side.
#[derive(Debug, PartialEq, Eq)]
pub enum RpcReply {
    /// Status zero: the pending promise resolves with the raw result payload.
    Resolved(String),
    /// Nonzero status: the pending promise rejects with the raw result
    /// payload.
    Rejected(String),
}

/// The rendering side's pending-continuation table: one entry per outbound
/// call, keyed by sequence id, consumed by exactly the first matching
/// `Return`. Its abstract value is the set of pending sequence ids.
pub struct PendingRpc {
    ids: Vec<String>,
}

impl View for PendingRpc {
    type V = Set<Seq<char>>;

    closed spec fn view(&self) -> Set<Seq<char>> {
        ids_set(self.ids@)
    }
}

impl PendingRpc {
    pub closed spec fn wf(&self) -> bool {
        unique_ids(self.ids@)
    }

    pub fn new() -> (r: PendingRpc)
        ensures
            r.wf(),
            r@ == Set::<Seq<char>>::empty(),
    {
        PendingRpc { ids: Vec::new() }
    }

    /// A pending continuation was stored under a fresh sequence id before the
    /// envelope went out.
    pub fn register(&mut self, seq: &str)
        requires
            old(self).wf(),
        ensures
            final(self).wf(),
            final(self)@ == old(self)@.insert(seq@),
    {
        if self.is_pending(seq) {
            proof {
                assert(self@ =~= old(self)@.insert(seq@));
            }
            return ;
        }
        let ghost s0 = self.ids@;
        let key: String = seq.to_owned();
        let ghost kv = key;
        self.ids.push(key);
        proof {
            assert(self.ids@ == s0.push(kv));
            assert(s0.push(kv).drop_last() =~= s0);
            assert(self@ == ids_set(s0).insert(seq@));
            lemma_ids_dom(s0);
            assert(self.wf()) by {
                let s1 = self.ids@;
                assert forall|a: int, b: int| 0 <= a < b < s1.len() implies #[trigger] s1[a]@
                    != #[trigger] s1[b]@ by {
                    if b == s1.len() - 1 {
                        assert(s1[a]@ == s0[a]@);
                        assert(ids_set(s0).contains(s0[a]@));
                    } else {
                        assert(s1[a]@ == s0[a]@);
                        assert(s1[b]@ == s0[b]@);
                    }
                }
            }
        }
    }

    /// Whether a sequence id still awaits its reply.
    pub fn is_pending(&self, seq: &str) -> (r: bool)
        ensures
            r == self@.contains(seq@),
    {
        let key: String = seq.to_owned();
        let n = self.ids.len();
        let mut i: usize = 0;
        while i < n
            invariant
                n == self.ids.len(),
                i <= n,
                key@ == seq@,
                forall|j: int| 0 <= j < i ==> #[trigger] self.ids@[j]@ != seq@,
            decreases n - i,
        {
            if self.ids[i] == key {
                proof {
                    lemma_ids_dom(self.ids@);
                }
                return true;
            }
            i = i + 1;
        }
        proof {
            lemma_ids_dom(self.ids@);
        }
        false
    }

    /// Consumes a `Return`: the first reply for a pending id resolves (status
    /// zero) or rejects (nonzero) its continuation and removes the entry; a
    /// reply for an unknown or already-consumed id is a silent no-op, never
    /// an error.
    pub fn consume_return(&mut self, seq: &str, status: i32, result: &str) -> (r: Option<RpcReply>)
        requires
            old(self).wf(),
        ensures
            final(self).wf(),
            !old(self)@.contains(seq@) ==> r is None && final(self)@ == old(self)@,
            old(self)@.contains(seq@) ==> final(self)@ == old(self)@.remove(seq@) && (if status
                == 0 {
                r matches Some(RpcReply::Resolved(v)) && v@ == result@
            } else {
                r matches Some(RpcReply::Rejected(v)) && v@ == result@
            }),
    {
        let key: String = seq.to_owned();
        let ghost s0 = self.ids@;
        let n = self.ids.len();
        let mut i: usize = 0;
        while i < n
            invariant
                n == self.ids.len(),
                i <= n,
                self.ids@ == s0,
                s0 == old(self).ids@,
                unique_ids(s0),
                key@ == seq@,
                forall|j: int| 0 <= j < i ==> #[trigger] s0[j]@ != seq@,
            decreases n - i,
        {
            if self.ids[i] == key {
                self.ids.remove(i);
                proof {
                    let s1 = self.ids@;
                    assert(s1 == s0.remove(i as int));
                    lemma_ids_dom(s0);
                    lemma_ids_dom(s1);
                    assert(self.wf()) by {
                        assert forall|a: int, b: int| 0 <= a < b < s1.len() implies #[trigger] s1[a]@
                            != #[trigger] s1[b]@ by {
                            let a0: int = if a < i as int {
                                a
                            } else {
                                a + 1
                            };
                            let b0: int = if b < i as int {
                                b
                            } else {
                                b + 1
                            };
                            assert(s1[a]@ == s0[a0]@);
                            assert(s1[b]@ == s0[b0]@);
                        }
                    }
                    assert forall|k: Seq<char>| true implies (#[trigger] ids_set(s1).contains(k)
                        <==> ids_set(s0).remove(seq@).contains(k)) by {
                        if ids_set(s1).contains(k) {
                            let j = choose|j: int| 0 <= j < s1.len() && #[trigger] s1[j]@ == k;
                            let j0: int = if j < i as int {
                                j
                            } else {
                                j + 1
                            };
                            assert(s0[j0]@ == k);
                            assert(j0 != i as int);
                            assert(k != seq@) by {
                                if k == seq@ {
                                    assert(s0[i as int]@ == seq@);
                                }
                            }
                        }
                        if ids_set(s0).remove(seq@).contains(k) {
                            let j0 = choose|j0: int| 0 <= j0 < s0.len() && #[trigger] s0[j0]@ == k;
                            assert(j0 != i as int);
                            if j0 < i as int {
                                assert(s1[j0]@ == k);
                            } else {
                                assert(s1[j0 - 1]@ == k);
                            }
                        }
                    }
                    assert(ids_set(s1) =~= ids_set(s0).remove(seq@));
                    assert(old(self)@.contains(seq@)) by {
                        assert(s0[i as int]@ == seq@);
                    }
                }
                let value: String = result.to_owned();
                if status == 0 {
                    return Some(RpcReply::Resolved(value));
                } else {
                    return Some(RpcReply::Rejected(value));
                }
            }
            i = i + 1;
        }
        proof {
            lemma_ids_dom(s0);
        }
        None
    }
}

/// Consuming two `Return`s for one sequence id is idempotent: the first
/// consume removes the id from the pending set, so by the contract of
/// [`PendingRpc::consume_return`] the second finds nothing pending, changes
/// nothing and raises no error.
pub proof fn lemma_second_return_is_noop(pending: Set<Seq<char>>, seq: Seq<char>)
    ensures
        !pending.remove(seq).contains(seq),
{
}

} // verus!
