//! The command vocabulary: a closed set of operations, one per cross-thread
//! mutation request. A command is immutable once constructed and is consumed
//! exactly once by the shell thread. Host callables are carried by opaque
//! handle (see [`crate::registry::CallableId`]): the callable itself lives
//! with the embedder.

use vstd::prelude::*;

use crate::registry::CallableId;

verus! {

#[derive(Debug, Clone, PartialEq, Eq)]
pub enum UserEvent {
    /// Evaluate a script in the rendering surface.
    Eval(String),
    /// A name was registered: install its forwarding stub on the rendering
    /// side (the registry itself was already updated synchronously).
    Bind(String, CallableId),
    /// Hand a call to the host: callable, sequence id, raw argument payload,
    /// method name. The shell thread does not wait for the reply.
    CallPython(CallableId, String, String, String),
    /// A host reply: sequence id, status (zero resolves, nonzero rejects),
    /// raw result payload.
    Return(String, i32, String),
    SetTitle(String),
    /// Width, height, size hints.
    SetSize(i32, i32, u32),
    Navigate(String),
    Quit,
    Minimize,
    SetMaximized(bool),
    SetVisible(bool),
    DragWindow,
    SetAlwaysOnTop(bool),
    /// Title, message.
    Notification(String, String),
    /// State code, value, maximum.
    TaskbarProgress(i32, i32, i32),
    SetResizable(bool),
    SetFullscreen(bool),
    CenterWindow,
    SetPreventClose(bool),
    /// Icon path, tooltip.
    CreateTray(String, String),
    /// Clicked menu item id.
    TrayMenuClick(String),
    SetDecorations(bool),
    /// Title, message, level, sequence id to resolve with the answer.
    MessageBox(String, String, String, String),
    OpenExternal(String),
}

} // verus!
