//! The runtime state aggregate: everything the shell thread owns. The native
//! window, view and tray handles live with the embedder; this is the model
//! the dispatch loop mutates, one command at a time, and the one place the
//! prevent-close flag and the termination of the loop are recorded.

use vstd::prelude::*;

verus! {

/// The abstract value of the shell state.
pub struct StateView {
    pub title: Seq<char>,
    pub width: i32,
    pub height: i32,
    pub url: Seq<char>,
    pub visible: bool,
    pub minimized: bool,
    pub maximized: bool,
    pub fullscreen: bool,
    pub always_on_top: bool,
    pub resizable: bool,
    pub decorations: bool,
    pub prevent_close: bool,
    /// Icon path and tooltip of the installed tray, if one was built.
    pub tray: Option<(Seq<char>, Seq<char>)>,
    /// Set once the loop observed `Quit` or an unintercepted close; never
    /// cleared.
    pub terminated: bool,
}

/// The shell state: exclusively owned by the dispatch loop after
/// construction; no other thread touches it.
pub struct RuntimeState {
    pub title: String,
    pub width: i32,
    pub height: i32,
    pub url: String,
    pub visible: bool,
    pub minimized: bool,
    pub maximized: bool,
    pub fullscreen: bool,
    pub always_on_top: bool,
    pub resizable: bool,
    pub decorations: bool,
    pub prevent_close: bool,
    pub tray: Option<(String, String)>,
    pub terminated: bool,
}

impl View for RuntimeState {
    type V = StateView;

    open spec fn view(&self) -> StateView {
        StateView {
            title: self.title@,
            width: self.width,
            height: self.height,
            url: self.url@,
            visible: self.visible,
            minimized: self.minimized,
            maximized: self.maximized,
            fullscreen: self.fullscreen,
            always_on_top: self.always_on_top,
            resizable: self.resizable,
            decorations: self.decorations,
            prevent_close: self.prevent_close,
            tray: match self.tray {
                Some((p, t)) => Some((p@, t@)),
                None => None,
            },
            terminated: self.terminated,
        }
    }
}

impl RuntimeState {
    /// A fresh window: created hidden, undecorated exactly when frameless,
    /// titled as the shell names itself, nothing overlaid, close not yet
    /// intercepted.
    pub fn new(resizable: bool, frameless: bool, url: String) -> (r: RuntimeState)
        ensures
            r@ == (StateView {
                title: "Pytron App"@,
                width: 0,
                height: 0,
                url: url@,
                visible: false,
                minimized: false,
                maximized: false,
                fullscreen: false,
                always_on_top: false,
                resizable: resizable,
                decorations: !frameless,
                prevent_close: false,
                tray: None,
                terminated: false,
            }),
    {
        RuntimeState {
            title: String::from_str("Pytron App"),
            width: 0,
            height: 0,
            url,
            visible: false,
            minimized: false,
            maximized: false,
            fullscreen: false,
            always_on_top: false,
            resizable,
            decorations: !frameless,
            prevent_close: false,
            tray: None,
            terminated: false,
        }
    }

    /// The embedder built the tray natively; record it. Recorded only on
    /// success, so a failed icon load leaves the state untouched.
    pub fn tray_installed(&mut self, icon_path: String, tooltip: String)
        ensures
            final(self)@ == (StateView {
                tray: Some((icon_path@, tooltip@)),
                ..old(self)@
            }),
    {
        self.tray = Some((icon_path, tooltip));
    }
}

} // verus!
