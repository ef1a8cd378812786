//! The dispatch step of the command bus: every command maps to exactly one
//! state mutation and one native action for the embedder to perform. The
//! closed match has no default arm, so a new command cannot be swallowed
//! silently. Per-command failures at the native edge are the embedder's to
//! swallow: fire-and-forget submissions are never answered.

use vstd::prelude::*;

use crate::bridge::{spec_return_script, spec_stub_script, return_script, stub_script};
use crate::events::UserEvent;
use crate::registry::{CallableId, CallbackRegistry};
use crate::state::{RuntimeState, StateView};
use crate::text::str_eq;

verus! {

/// The taskbar progress states the shell distinguishes.
#[derive(Clone, Copy, Debug, PartialEq, Eq, Structural)]
pub enum ProgressKind {
    Normal,
    Error,
    Paused,
    Indeterminate,
    Off,
}

/// The progress state a command's integer code names.
pub open spec fn spec_progress_kind(code: i32) -> ProgressKind {
    if code == 2 {
        ProgressKind::Normal
    } else if code == 4 {
        ProgressKind::Error
    } else if code == 8 {
        ProgressKind::Paused
    } else if code == 1 {
        ProgressKind::Indeterminate
    } else {
        ProgressKind::Off
    }
}

pub fn progress_kind(code: i32) -> (r: ProgressKind)
    ensures
        r == spec_progress_kind(code),
{
    if code == 2 {
        ProgressKind::Normal
    } else if code == 4 {
        ProgressKind::Error
    } else if code == 8 {
        ProgressKind::Paused
    } else if code == 1 {
        ProgressKind::Indeterminate
    } else {
        ProgressKind::Off
    }
}

/// The severities a message dialog can carry.
#[derive(Clone, Copy, Debug, PartialEq, Eq, Structural)]
pub enum MessageLevel {
    Error,
    Warning,
    Info,
}

/// The severity a level string names; anything unknown is informational.
pub open spec fn spec_message_level(level: Seq<char>) -> MessageLevel {
    if level == "error"@ {
        MessageLevel::Error
    } else if level == "warning"@ {
        MessageLevel::Warning
    } else {
        MessageLevel::Info
    }
}

pub fn message_level(level: &str) -> (r: MessageLevel)
    ensures
        r == spec_message_level(level@),
{
    if str_eq(level, "error") {
        MessageLevel::Error
    } else if str_eq(level, "warning") {
        MessageLevel::Warning
    } else {
        MessageLevel::Info
    }
}

/// How a message dialog was answered.
#[derive(Clone, Copy, Debug, PartialEq, Eq, Structural)]
pub enum DialogAnswer {
    Okay,
    Yes,
    No,
    Cancel,
}

/// A dialog counts as accepted exactly on Okay or Yes.
pub fn dialog_accepted(a: DialogAnswer) -> (r: bool)
    ensures
        r == (a is Okay || a is Yes),
{
    match a {
        DialogAnswer::Okay => true,
        DialogAnswer::Yes => true,
        _ => false,
    }
}

/// The one native action the embedder owes for one dispatched command.
/// The shell state model is already updated when the effect is handed out;
/// a failing native call is swallowed, never surfaced to the submitter.
#[derive(Debug, PartialEq, Eq)]
pub enum Effect {
    /// No native work (the command only changed the model, or the platform
    /// has nothing to do).
    Nothing,
    /// Evaluate this script in the rendering surface.
    EvalScript(String),
    /// Load this URL in the rendering surface.
    LoadUrl(String),
    ApplyTitle(String),
    ApplySize(i32, i32),
    /// Set visibility; showing also focuses and unminimizes.
    ApplyVisible(bool),
    ApplyMinimize,
    ApplyMaximized(bool),
    BeginDrag,
    ApplyAlwaysOnTop(bool),
    ApplyResizable(bool),
    ApplyFullscreen(bool),
    ApplyDecorations(bool),
    Recenter,
    /// Show a system notification: title, message.
    ShowNotification(String, String),
    ApplyProgress(ProgressKind, i32),
    /// Load this icon and build the tray with this tooltip; on success the
    /// embedder records it with [`RuntimeState::tray_installed`].
    BuildTray(String, String),
    /// Invoke the host callable with the sequence id and raw argument
    /// payload; the loop does not wait for the reply.
    InvokeHost(CallableId, String, String),
    /// Invoke the host's tray-click callable with the clicked item id.
    InvokeTrayClick(CallableId, String),
    /// Invoke the host's close-interception callable, with no arguments.
    InvokeCloseHandler(CallableId),
    /// Show a message dialog; the embedder answers it through
    /// [`message_box_reply_script`] under this sequence id.
    ShowMessageBox(String, String, MessageLevel, String),
    /// Hand this URL to the system browser.
    OpenExternal(String),
    /// The dispatch loop stops: no further command is accepted.
    StopLoop,
}

/// What one dispatch step does: for each command variant, the exact state
/// mutation and the exact native action. Tray clicks resolve the reserved
/// tray-click name in the registry at dispatch time, not at registration
/// time, so late rebinding is honored.
pub open spec fn step_spec(
    pre: StateView,
    reg: Map<Seq<char>, CallableId>,
    cmd: UserEvent,
    post: StateView,
    e: Effect,
) -> bool {
    match cmd {
        UserEvent::Quit => post == (StateView { terminated: true, ..pre }) && e is StopLoop,
        UserEvent::Eval(js) => post == pre && (e matches Effect::EvalScript(s) && s@ == js@),
        UserEvent::Bind(name, _c) => post == pre && (e matches Effect::EvalScript(s) && s@
            == spec_stub_script(name@)),
        UserEvent::CallPython(c, seq, args, _m) => post == pre && (e matches Effect::InvokeHost(
            c2,
            s2,
            a2,
        ) && c2 == c && s2@ == seq@ && a2@ == args@),
        UserEvent::Return(seq, status, res) => post == pre && (e matches Effect::EvalScript(s)
            && s@ == spec_return_script(seq@, status == 0, res@)),
        UserEvent::SetTitle(t) => post == (StateView { title: t@, ..pre }) && (e
            matches Effect::ApplyTitle(s) && s@ == t@),
        UserEvent::SetSize(w, h, _hints) => post == (StateView { width: w, height: h, ..pre })
            && e == Effect::ApplySize(w, h),
        UserEvent::Navigate(u) => post == (StateView { url: u@, ..pre }) && (e
            matches Effect::LoadUrl(s) && s@ == u@),
        UserEvent::SetVisible(v) => post == (StateView {
            visible: v,
            minimized: if v {
                false
            } else {
                pre.minimized
            },
            ..pre
        }) && e == Effect::ApplyVisible(v),
        UserEvent::Minimize => post == (StateView { minimized: true, ..pre }) && e
            == Effect::ApplyMinimize,
        UserEvent::SetMaximized(m) => post == (StateView { maximized: m, ..pre }) && e
            == Effect::ApplyMaximized(m),
        UserEvent::DragWindow => post == pre && e == Effect::BeginDrag,
        UserEvent::SetAlwaysOnTop(t) => post == (StateView { always_on_top: t, ..pre }) && e
            == Effect::ApplyAlwaysOnTop(t),
        UserEvent::Notification(t, m) => post == pre && (e matches Effect::ShowNotification(a, b)
            && a@ == t@ && b@ == m@),
        UserEvent::TaskbarProgress(code, value, _max) => post == pre && e == Effect::ApplyProgress(
            spec_progress_kind(code),
            value,
        ),
        UserEvent::SetResizable(rz) => post == (StateView { resizable: rz, ..pre }) && e
            == Effect::ApplyResizable(rz),
        UserEvent::SetFullscreen(f) => post == (StateView { fullscreen: f, ..pre }) && e
            == Effect::ApplyFullscreen(f),
        UserEvent::CenterWindow => post == pre && e == Effect::Recenter,
        UserEvent::SetPreventClose(p) => post == (StateView { prevent_close: p, ..pre }) && e
            == Effect::Nothing,
        UserEvent::CreateTray(icon, tip) => post == pre && (e matches Effect::BuildTray(a, b)
            && a@ == icon@ && b@ == tip@),
        UserEvent::TrayMenuClick(id) => post == pre && (if reg.contains_key(
            "pytron_tray_click"@,
        ) {
            e matches Effect::InvokeTrayClick(c, s) && c == reg["pytron_tray_click"@] && s@ == id@
        } else {
            e is Nothing
        }),
        UserEvent::SetDecorations(d) => post == (StateView { decorations: d, ..pre }) && e
            == Effect::ApplyDecorations(d),
        UserEvent::MessageBox(t, m, l, seq) => post == pre && (e matches Effect::ShowMessageBox(
            a,
            b,
            lv,
            s,
        ) && a@ == t@ && b@ == m@ && lv == spec_message_level(l@) && s@ == seq@),
        UserEvent::OpenExternal(u) => post == pre && (e matches Effect::OpenExternal(s) && s@
            == u@),
    }
}

/// Executes one command against the shell state: exactly one state mutation
/// and one native action per command, decided by a closed match.
#[verifier::rlimit(60)]
pub fn step(state: &mut RuntimeState, registry: &CallbackRegistry, cmd: UserEvent) -> (e: Effect)
    requires
        registry.wf(),
    ensures
        step_spec(old(state)@, registry@, cmd, final(state)@, e),
{
    match cmd {
        UserEvent::Quit => {
            state.terminated = true;
            Effect::StopLoop
        },
        UserEvent::Eval(js) => Effect::EvalScript(js),
        UserEvent::Bind(name, _c) => Effect::EvalScript(stub_script(name.as_str())),
        UserEvent::CallPython(c, seq, args, _m) => Effect::InvokeHost(c, seq, args),
        UserEvent::Return(seq, status, res) => Effect::EvalScript(
            return_script(seq.as_str(), status, res.as_str()),
        ),
        UserEvent::SetTitle(t) => {
            state.title = t.clone();
            Effect::ApplyTitle(t)
        },
        UserEvent::SetSize(w, h, _hints) => {
            state.width = w;
            state.height = h;
            Effect::ApplySize(w, h)
        },
        UserEvent::Navigate(u) => {
            state.url = u.clone();
            Effect::LoadUrl(u)
        },
        UserEvent::SetVisible(v) => {
            state.visible = v;
            if v {
                state.minimized = false;
            }
            Effect::ApplyVisible(v)
        },
        UserEvent::Minimize => {
            state.minimized = true;
            Effect::ApplyMinimize
        },
        UserEvent::SetMaximized(m) => {
            state.maximized = m;
            Effect::ApplyMaximized(m)
        },
        UserEvent::DragWindow => Effect::BeginDrag,
        UserEvent::SetAlwaysOnTop(t) => {
            state.always_on_top = t;
            Effect::ApplyAlwaysOnTop(t)
        },
        UserEvent::Notification(t, m) => Effect::ShowNotification(t, m),
        UserEvent::TaskbarProgress(code, value, _max) => Effect::ApplyProgress(
            progress_kind(code),
            value,
        ),
        UserEvent::SetResizable(rz) => {
            state.resizable = rz;
            Effect::ApplyResizable(rz)
        },
        UserEvent::SetFullscreen(f) => {
            state.fullscreen = f;
            Effect::ApplyFullscreen(f)
        },
        UserEvent::CenterWindow => Effect::Recenter,
        UserEvent::SetPreventClose(p) => {
            state.prevent_close = p;
            Effect::Nothing
        },
        UserEvent::CreateTray(icon, tip) => Effect::BuildTray(icon, tip),
        UserEvent::TrayMenuClick(id) => match registry.lookup("pytron_tray_click") {
            Some(c) => Effect::InvokeTrayClick(c, id),
            None => Effect::Nothing,
        },
        UserEvent::SetDecorations(d) => {
            state.decorations = d;
            Effect::ApplyDecorations(d)
        },
        UserEvent::MessageBox(t, m, l, seq) => {
            let lv = message_level(l.as_str());
            Effect::ShowMessageBox(t, m, lv, seq)
        },
        UserEvent::OpenExternal(u) => Effect::OpenExternal(u),
    }
}

/// What a window close request does: with the prevent-close flag set, the
/// close-interception callable — resolved by its reserved name at dispatch
/// time — is invoked and the window stays; otherwise the loop terminates.
pub open spec fn close_spec(
    pre: StateView,
    reg: Map<Seq<char>, CallableId>,
    post: StateView,
    e: Effect,
) -> bool {
    if pre.prevent_close {
        post == pre && (if reg.contains_key("pytron_on_close"@) {
            e matches Effect::InvokeCloseHandler(c) && c == reg["pytron_on_close"@]
        } else {
            e is Nothing
        })
    } else {
        post == (StateView { terminated: true, ..pre }) && e is StopLoop
    }
}

/// Handles the OS close request for the window.
pub fn on_close_requested(state: &mut RuntimeState, registry: &CallbackRegistry) -> (e: Effect)
    requires
        registry.wf(),
    ensures
        close_spec(old(state)@, registry@, final(state)@, e),
{
    if state.prevent_close {
        match registry.lookup("pytron_on_close") {
            Some(c) => Effect::InvokeCloseHandler(c),
            None => Effect::Nothing,
        }
    } else {
        state.terminated = true;
        Effect::StopLoop
    }
}

/// The script answering a message dialog: the pending continuation under the
/// dialog's sequence id resolves with `true` on acceptance and `false`
/// otherwise; an empty sequence id means nobody waits, so no script.
pub fn message_box_reply_script(seq: &str, accepted: bool) -> (r: Option<String>)
    ensures
        seq@.len() == 0 ==> r is None,
        seq@.len() > 0 ==> (r matches Some(s) && s@ == spec_return_script(
            seq@,
            true,
            if accepted {
                "true"@
            } else {
                "false"@
            },
        )),
{
    if seq.is_empty() {
        return None;
    }
    if accepted {
        Some(return_script(seq, 0, "true"))
    } else {
        Some(return_script(seq, 0, "false"))
    }
}

} // verus!
