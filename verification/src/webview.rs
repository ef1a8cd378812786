//! The shell facade and its dispatch loop. Producer threads submit commands
//! fire-and-forget; the loop consumes them one at a time, as sole owner of
//! the shell state, and hands the embedder one native action per command.
//! Submission after the loop terminated is a silent no-op. The inbound side
//! of the rendering bridge lands here too: one raw envelope becomes at most
//! one submitted command.

use vstd::prelude::*;

use crate::bridge::{dispatch_envelope, dispatch_matches, spec_dispatch, SpecDispatch};
use crate::bus::{step, step_spec, Effect};
use crate::events::UserEvent;
use crate::registry::{CallableId, CallbackRegistry};
use crate::state::{RuntimeState, StateView};
use crate::text::{
    spec_starts_with, spec_split, spec_trim_slashes, split_str, str_eq, str_starts_with,
    trim_leading_slashes,
};

verus! {

/// The URL the view is actually pointed at: the blank sentinel, the virtual
/// scheme and plain web URLs pass through; anything else is a root-relative
/// asset path and is routed through the virtual scheme.
pub open spec fn spec_safe_url(u: Seq<char>) -> Seq<char> {
    if u == "about:blank"@ || spec_starts_with(u, "pytron://"@) || spec_starts_with(u, "http"@) {
        u
    } else {
        "pytron://app/"@ + spec_trim_slashes(u)
    }
}

pub fn safe_url(url: &str) -> (r: String)
    ensures
        r@ == spec_safe_url(url@),
{
    if str_eq(url, "about:blank") || str_starts_with(url, "pytron://") || str_starts_with(
        url,
        "http",
    ) {
        String::from_str(url)
    } else {
        let mut s = String::from_str("pytron://app/");
        let t = trim_leading_slashes(url);
        s.append(t.as_str());
        s
    }
}

/// Whether the view may navigate there itself: internal application links
/// only. Everything else is handed to the system browser instead.
pub open spec fn spec_allow_navigation(u: Seq<char>) -> bool {
    spec_starts_with(u, "pytron://"@) || spec_starts_with(u, "https://pytron."@) || u
        == "about:blank"@
}

pub fn allow_navigation(url: &str) -> (r: bool)
    ensures
        r == spec_allow_navigation(url@),
{
    str_starts_with(url, "pytron://") || str_starts_with(url, "https://pytron.") || str_eq(
        url,
        "about:blank",
    )
}

/// The filter groups a file-dialog filter string describes: groups separated
/// by `;`, each `name:ext,ext,...`; a group without exactly one `:` is
/// dropped.
pub open spec fn spec_filter_groups(groups: Seq<Seq<char>>) -> Seq<(Seq<char>, Seq<Seq<char>>)>
    decreases groups.len(),
{
    if groups.len() == 0 {
        Seq::empty()
    } else {
        let rest = spec_filter_groups(groups.drop_last());
        let parts = spec_split(groups.last(), ':');
        if parts.len() == 2 {
            rest.push((parts[0], spec_split(parts[1], ',')))
        } else {
            rest
        }
    }
}

pub open spec fn spec_parse_filters(f: Seq<char>) -> Seq<(Seq<char>, Seq<Seq<char>>)> {
    spec_filter_groups(spec_split(f, ';'))
}

pub open spec fn filters_view(v: Seq<(String, Vec<String>)>) -> Seq<(Seq<char>, Seq<Seq<char>>)> {
    v.map_values(|p: (String, Vec<String>)| (p.0@, p.1.deep_view()))
}

/// Parses a file-dialog filter string into named extension groups.
pub fn parse_dialog_filters(f: &str) -> (r: Vec<(String, Vec<String>)>)
    ensures
        filters_view(r@) == spec_parse_filters(f@),
{
    let groups = split_str(f, ';');
    let ghost gv = groups.deep_view();
    let mut r: Vec<(String, Vec<String>)> = Vec::new();
    let n = groups.len();
    let mut i: usize = 0;
    while i < n
        invariant
            n == groups@.len(),
            i <= n,
            gv == groups.deep_view(),
            filters_view(r@) == spec_filter_groups(gv.subrange(0, i as int)),
        decreases n - i,
    {
        let ghost r0 = r@;
        let parts = split_str(groups[i].as_str(), ':');
        if parts.len() == 2 {
            let name = parts[0].clone();
            let exts = split_str(parts[1].as_str(), ',');
            let ghost nv = name@;
            let ghost ev = exts.deep_view();
            r.push((name, exts));
            proof {
                assert(r@ =~= r0.push((r@[r@.len() - 1].0, r@[r@.len() - 1].1)));
                assert(parts.deep_view()[0] == nv);
                assert(parts.deep_view()[1] == parts@[1]@);
                assert(filters_view(r@) =~~= filters_view(r0).push((nv, ev)));
            }
        }
        proof {
            let pre = gv.subrange(0, i as int);
            let cur = gv.subrange(0, i as int + 1);
            assert(cur.drop_last() =~= pre);
            assert(cur.last() == gv[i as int]);
            assert(gv[i as int] == groups@[i as int]@);
            assert(filters_view(r@) =~~= spec_filter_groups(cur));
        }
        i = i + 1;
    }
    proof {
        assert(gv.subrange(0, n as int) =~= gv);
    }
    r
}

/// Fire-and-forget submission: appended in order while the loop runs, a
/// silent no-op once it terminated.
pub open spec fn submitted(
    pre_q: Seq<UserEvent>,
    terminated: bool,
    post_q: Seq<UserEvent>,
    cmd: UserEvent,
) -> bool {
    if terminated {
        post_q == pre_q
    } else {
        post_q == pre_q.push(cmd)
    }
}

/// The shell facade: the registry shared with the protocol handler, the
/// submission queue feeding the dispatch loop, and the state the loop owns.
pub struct NativeWebview {
    pub callbacks: CallbackRegistry,
    pub queue: Vec<UserEvent>,
    pub state: RuntimeState,
    pub root_path: String,
    pub hwnd: usize,
}

/// A method only submitted one command: everything but the queue is as it
/// was, and the queue grew by exactly that command unless the loop is done.
pub open spec fn submit_only(pre: NativeWebview, post: NativeWebview, cmd: UserEvent) -> bool {
    &&& post.callbacks == pre.callbacks
    &&& post.state == pre.state
    &&& post.root_path == pre.root_path
    &&& post.hwnd == pre.hwnd
    &&& submitted(pre.queue@, pre.state@.terminated, post.queue@, cmd)
}

/// One envelope became at most one queued command: nothing for a non-JSON
/// message, otherwise exactly the command the dispatch decision names.
pub open spec fn ipc_queue_post(
    d: SpecDispatch,
    pre_q: Seq<UserEvent>,
    terminated: bool,
    post_q: Seq<UserEvent>,
) -> bool {
    match d {
        SpecDispatch::Ignore => post_q == pre_q,
        _ => if terminated {
            post_q == pre_q
        } else {
            post_q.len() == pre_q.len() + 1 && post_q.drop_last() == pre_q && dispatch_matches(
                d,
                Some(post_q.last()),
            )
        },
    }
}

/// The whole dispatch loop, one run: starting from a state and a queue, the
/// commands are consumed in order, each step obeying [`step_spec`], the
/// effects collected in order, until the queue is empty or a step terminated
/// the loop; whatever was queued behind the terminating command is never
/// processed.
pub open spec fn run_rel(
    pre: StateView,
    reg: Map<Seq<char>, CallableId>,
    q: Seq<UserEvent>,
    post: StateView,
    effs: Seq<Effect>,
) -> bool
    decreases q.len(),
{
    if pre.terminated || q.len() == 0 {
        post == pre && effs.len() == 0
    } else {
        exists|mid: StateView, e: Effect|
            #[trigger] step_spec(pre, reg, q[0], mid, e) && effs.len() >= 1 && effs[0] == e
                && run_rel(mid, reg, q.drop_first(), post, effs.drop_first())
    }
}

proof fn lemma_run_rel_snoc(
    pre: StateView,
    reg: Map<Seq<char>, CallableId>,
    q: Seq<UserEvent>,
    mid: StateView,
    effs: Seq<Effect>,
    cmd: UserEvent,
    post: StateView,
    e: Effect,
)
    requires
        run_rel(pre, reg, q, mid, effs),
        !mid.terminated,
        step_spec(mid, reg, cmd, post, e),
    ensures
        run_rel(pre, reg, q.push(cmd), post, effs.push(e)),
    decreases q.len(),
{
    if pre.terminated {
        assert(mid == pre);
        assert(false);
    } else if q.len() == 0 {
        assert(mid == pre);
        let q1 = q.push(cmd);
        let f1 = effs.push(e);
        assert(q1[0] == cmd);
        assert(f1[0] == e);
        assert(q1.drop_first() =~= Seq::<UserEvent>::empty());
        assert(f1.drop_first() =~= Seq::<Effect>::empty());
        assert(run_rel(post, reg, q1.drop_first(), post, f1.drop_first()));
        assert(step_spec(pre, reg, q1[0], post, e));
    } else {
        let (mid1, e1) = choose|mid1: StateView, e1: Effect|
            #[trigger] step_spec(pre, reg, q[0], mid1, e1) && effs.len() >= 1 && effs[0] == e1
                && run_rel(mid1, reg, q.drop_first(), mid, effs.drop_first());
        lemma_run_rel_snoc(mid1, reg, q.drop_first(), mid, effs.drop_first(), cmd, post, e);
        let q1 = q.push(cmd);
        let f1 = effs.push(e);
        assert(q1[0] == q[0]);
        assert(f1[0] == effs[0]);
        assert(q1.drop_first() =~= q.drop_first().push(cmd));
        assert(f1.drop_first() =~= effs.drop_first().push(e));
        assert(step_spec(pre, reg, q1[0], mid1, e1) && f1.len() >= 1 && f1[0] == e1 && run_rel(
            mid1,
            reg,
            q1.drop_first(),
            post,
            f1.drop_first(),
        ));
    }
}

proof fn lemma_run_rel_absorb(
    pre: StateView,
    reg: Map<Seq<char>, CallableId>,
    q1: Seq<UserEvent>,
    q2: Seq<UserEvent>,
    post: StateView,
    effs: Seq<Effect>,
)
    requires
        run_rel(pre, reg, q1, post, effs),
        post.terminated,
    ensures
        run_rel(pre, reg, q1 + q2, post, effs),
    decreases q1.len(),
{
    if pre.terminated {
        assert(post == pre);
        if (q1 + q2).len() == 0 {
        }
    } else if q1.len() == 0 {
        assert(post == pre);
        assert(false);
    } else {
        let (mid1, e1) = choose|mid1: StateView, e1: Effect|
            #[trigger] step_spec(pre, reg, q1[0], mid1, e1) && effs.len() >= 1 && effs[0] == e1
                && run_rel(mid1, reg, q1.drop_first(), post, effs.drop_first());
        lemma_run_rel_absorb(mid1, reg, q1.drop_first(), q2, post, effs.drop_first());
        let qq = q1 + q2;
        assert(qq[0] == q1[0]);
        assert(qq.drop_first() =~= q1.drop_first() + q2);
        assert(step_spec(pre, reg, qq[0], mid1, e1) && effs.len() >= 1 && effs[0] == e1 && run_rel(
            mid1,
            reg,
            qq.drop_first(),
            post,
            effs.drop_first(),
        ));
    }
}

impl NativeWebview {
    /// Sets up the shell: an empty registry, an empty queue, and a hidden
    /// window pointed at the normalized target URL. The native window, view
    /// and protocol registration are the embedder's to build around it.
    pub fn new(_debug: bool, url: &str, root_path: String, resizable: bool, frameless: bool) -> (r:
        NativeWebview)
        ensures
            r.callbacks.wf(),
            r.callbacks@ == Map::<Seq<char>, CallableId>::empty(),
            r.callbacks.names() == Seq::<Seq<char>>::empty(),
            r.queue@ == Seq::<UserEvent>::empty(),
            r.root_path@ == root_path@,
            r.hwnd == 0,
            r.state@ == (StateView {
                title: "Pytron App"@,
                width: 0,
                height: 0,
                url: spec_safe_url(url@),
                visible: false,
                minimized: false,
                maximized: false,
                fullscreen: false,
                always_on_top: false,
                resizable: resizable,
                decorations: !frameless,
                prevent_close: false,
                tray: None,
                terminated: false,
            }),
    {
        let target = safe_url(url);
        NativeWebview {
            callbacks: CallbackRegistry::new(),
            queue: Vec::new(),
            state: RuntimeState::new(resizable, frameless, target),
            root_path,
            hwnd: 0,
        }
    }

    /// Fire-and-forget submission from any producer; FIFO per producer, a
    /// silent no-op once the loop terminated.
    pub fn submit(&mut self, cmd: UserEvent)
        ensures
            submit_only(*old(self), *final(self), cmd),
    {
        if self.state.terminated {
            return ;
        }
        self.queue.push(cmd);
    }

    /// Registers a host callable in the registry synchronously — visible to
    /// subsequent lookups at once — and submits the command that installs the
    /// rendering-side forwarding stub.
    pub fn bind(&mut self, name: &str, callable: CallableId)
        requires
            old(self).callbacks.wf(),
        ensures
            final(self).callbacks.wf(),
            final(self).callbacks@ == old(self).callbacks@.insert(name@, callable),
            old(self).callbacks@.contains_key(name@)
                ==> final(self).callbacks.names() == old(self).callbacks.names(),
            !old(self).callbacks@.contains_key(name@)
                ==> final(self).callbacks.names() == old(self).callbacks.names().push(name@),
            final(self).state == old(self).state,
            final(self).root_path == old(self).root_path,
            final(self).hwnd == old(self).hwnd,
            old(self).state@.terminated ==> final(self).queue@ == old(self).queue@,
            !old(self).state@.terminated ==> final(self).queue@.len() == old(self).queue@.len() + 1
                && final(self).queue@.drop_last() == old(self).queue@
                && (final(self).queue@.last() matches UserEvent::Bind(n, c) && n@ == name@
                && c == callable),
    {
        self.callbacks.bind(name, callable);
        let owned: String = name.to_owned();
        self.submit(UserEvent::Bind(owned, callable));
        proof {
            if !old(self).state@.terminated {
                assert(self.queue@.drop_last() =~= old(self).queue@);
            }
        }
    }

    /// One raw message from the rendering transport: parsed, resolved against
    /// the reserved names and the registry, and submitted as at most one
    /// command.
    pub fn on_ipc_message(&mut self, msg: &str)
        requires
            old(self).callbacks.wf(),
        ensures
            final(self).callbacks == old(self).callbacks,
            final(self).state == old(self).state,
            final(self).root_path == old(self).root_path,
            final(self).hwnd == old(self).hwnd,
            ipc_queue_post(
                spec_dispatch(msg@, old(self).callbacks@),
                old(self).queue@,
                old(self).state@.terminated,
                final(self).queue@,
            ),
    {
        match dispatch_envelope(msg, &self.callbacks) {
            Some(cmd) => {
                self.submit(cmd);
                proof {
                    if !old(self).state@.terminated {
                        assert(self.queue@.drop_last() =~= old(self).queue@);
                    }
                }
            },
            None => {},
        }
    }

    /// Consumes the next queued command, if the loop still runs and one is
    /// queued: exactly one state mutation, one native action handed back.
    pub fn process_next(&mut self) -> (r: Option<Effect>)
        requires
            old(self).callbacks.wf(),
        ensures
            final(self).callbacks == old(self).callbacks,
            final(self).root_path == old(self).root_path,
            final(self).hwnd == old(self).hwnd,
            old(self).state@.terminated || old(self).queue@.len() == 0 ==> r is None
                && final(self).state == old(self).state && final(self).queue == old(self).queue,
            !old(self).state@.terminated && old(self).queue@.len() > 0
                ==> final(self).queue@ == old(self).queue@.drop_first()
                && (r matches Some(e) && step_spec(
                old(self).state@,
                old(self).callbacks@,
                old(self).queue@[0],
                final(self).state@,
                e,
            )),
    {
        if self.state.terminated {
            return None;
        }
        if self.queue.len() == 0 {
            return None;
        }
        let cmd = self.queue.remove(0);
        proof {
            assert(self.queue@ =~= old(self).queue@.drop_first());
        }
        Some(step(&mut self.state, &self.callbacks, cmd))
    }

    /// The dispatch loop: consumes queued commands in order until the queue
    /// drains or a command terminates the loop, and returns the native
    /// actions owed, in order. Commands queued behind a terminating one are
    /// never processed.
    pub fn run(&mut self) -> (effects: Vec<Effect>)
        requires
            old(self).callbacks.wf(),
        ensures
            final(self).callbacks == old(self).callbacks,
            final(self).root_path == old(self).root_path,
            final(self).hwnd == old(self).hwnd,
            run_rel(
                old(self).state@,
                old(self).callbacks@,
                old(self).queue@,
                final(self).state@,
                effects@,
            ),
            final(self).state@.terminated || final(self).queue@.len() == 0,
            final(self).queue@.len() <= old(self).queue@.len(),
            final(self).queue@ == old(self).queue@.subrange(
                old(self).queue@.len() - final(self).queue@.len(),
                old(self).queue@.len() as int,
            ),
    {
        let ghost pre0 = self.state@;
        let ghost q0 = self.queue@;
        let ghost reg = self.callbacks@;
        let mut effects: Vec<Effect> = Vec::new();
        proof {
            assert(self.queue@ =~= q0.subrange(
                q0.len() - self.queue@.len(),
                q0.len() as int,
            ));
        }
        while !self.state.terminated && self.queue.len() > 0
            invariant
                self.callbacks.wf(),
                self.callbacks == old(self).callbacks,
                self.root_path == old(self).root_path,
                self.hwnd == old(self).hwnd,
                self.callbacks@ == reg,
                pre0 == old(self).state@,
                q0 == old(self).queue@,
                self.queue@.len() <= q0.len(),
                self.queue@ == q0.subrange(q0.len() - self.queue@.len(), q0.len() as int),
                run_rel(
                    pre0,
                    reg,
                    q0.subrange(0, q0.len() - self.queue@.len()),
                    self.state@,
                    effects@,
                ),
            decreases self.queue@.len(),
        {
            let ghost k = q0.len() - self.queue@.len();
            let ghost mid = self.state@;
            let ghost effs0 = effects@;
            let cmd = self.queue.remove(0);
            let ghost cmdv = cmd;
            let e = step(&mut self.state, &self.callbacks, cmd);
            let ghost ev = e;
            effects.push(e);
            proof {
                assert(cmdv == q0[k]) by {
                    assert(q0.subrange(k, q0.len() as int)[0] == q0[k]);
                }
                lemma_run_rel_snoc(
                    pre0,
                    reg,
                    q0.subrange(0, k),
                    mid,
                    effs0,
                    cmdv,
                    self.state@,
                    ev,
                );
                assert(q0.subrange(0, k).push(cmdv) =~= q0.subrange(0, k + 1));
                assert(self.queue@ =~= q0.subrange(q0.len() - self.queue@.len(), q0.len() as int));
                assert(q0.len() - self.queue@.len() == k + 1);
            }
        }
        proof {
            let k = q0.len() - self.queue@.len();
            if self.state@.terminated && self.queue@.len() > 0 {
                lemma_run_rel_absorb(
                    pre0,
                    reg,
                    q0.subrange(0, k),
                    q0.subrange(k, q0.len() as int),
                    self.state@,
                    effects@,
                );
                assert(q0.subrange(0, k) + q0.subrange(k, q0.len() as int) =~= q0);
            } else {
                assert(q0.subrange(0, k) =~= q0);
            }
        }
        effects
    }

    /// The native window handle the embedder recorded, zero where none is.
    pub fn get_hwnd(&self) -> (r: usize)
        ensures
            r == self.hwnd,
    {
        self.hwnd
    }

    pub fn set_title(&mut self, t: String)
        ensures
            submit_only(*old(self), *final(self), UserEvent::SetTitle(t)),
    {
        self.submit(UserEvent::SetTitle(t));
    }

    pub fn set_size(&mut self, w: i32, h: i32, hints: u32)
        ensures
            submit_only(*old(self), *final(self), UserEvent::SetSize(w, h, hints)),
    {
        self.submit(UserEvent::SetSize(w, h, hints));
    }

    pub fn navigate(&mut self, u: String)
        ensures
            submit_only(*old(self), *final(self), UserEvent::Navigate(u)),
    {
        self.submit(UserEvent::Navigate(u));
    }

    pub fn eval(&mut self, j: String)
        ensures
            submit_only(*old(self), *final(self), UserEvent::Eval(j)),
    {
        self.submit(UserEvent::Eval(j));
    }

    pub fn return_result(&mut self, s: String, st: i32, r: String)
        ensures
            submit_only(*old(self), *final(self), UserEvent::Return(s, st, r)),
    {
        self.submit(UserEvent::Return(s, st, r));
    }

    pub fn terminate(&mut self)
        ensures
            submit_only(*old(self), *final(self), UserEvent::Quit),
    {
        self.submit(UserEvent::Quit);
    }

    pub fn show(&mut self)
        ensures
            submit_only(*old(self), *final(self), UserEvent::SetVisible(true)),
    {
        self.submit(UserEvent::SetVisible(true));
    }

    pub fn hide_window(&mut self)
        ensures
            submit_only(*old(self), *final(self), UserEvent::SetVisible(false)),
    {
        self.submit(UserEvent::SetVisible(false));
    }

    pub fn minimize(&mut self)
        ensures
            submit_only(*old(self), *final(self), UserEvent::Minimize),
    {
        self.submit(UserEvent::Minimize);
    }

    pub fn maximize(&mut self)
        ensures
            submit_only(*old(self), *final(self), UserEvent::SetMaximized(true)),
    {
        self.submit(UserEvent::SetMaximized(true));
    }

    pub fn unmaximize(&mut self)
        ensures
            submit_only(*old(self), *final(self), UserEvent::SetMaximized(false)),
    {
        self.submit(UserEvent::SetMaximized(false));
    }

    pub fn start_drag(&mut self)
        ensures
            submit_only(*old(self), *final(self), UserEvent::DragWindow),
    {
        self.submit(UserEvent::DragWindow);
    }

    pub fn system_notification(&mut self, t: String, m: String)
        ensures
            submit_only(*old(self), *final(self), UserEvent::Notification(t, m)),
    {
        self.submit(UserEvent::Notification(t, m));
    }

    pub fn set_taskbar_progress(&mut self, s: i32, v: i32, m: i32)
        ensures
            submit_only(*old(self), *final(self), UserEvent::TaskbarProgress(s, v, m)),
    {
        self.submit(UserEvent::TaskbarProgress(s, v, m));
    }

    pub fn set_fullscreen(&mut self, e: bool)
        ensures
            submit_only(*old(self), *final(self), UserEvent::SetFullscreen(e)),
    {
        self.submit(UserEvent::SetFullscreen(e));
    }

    pub fn set_always_on_top(&mut self, e: bool)
        ensures
            submit_only(*old(self), *final(self), UserEvent::SetAlwaysOnTop(e)),
    {
        self.submit(UserEvent::SetAlwaysOnTop(e));
    }

    pub fn set_resizable(&mut self, e: bool)
        ensures
            submit_only(*old(self), *final(self), UserEvent::SetResizable(e)),
    {
        self.submit(UserEvent::SetResizable(e));
    }

    pub fn set_decorations(&mut self, e: bool)
        ensures
            submit_only(*old(self), *final(self), UserEvent::SetDecorations(e)),
    {
        self.submit(UserEvent::SetDecorations(e));
    }

    pub fn center(&mut self)
        ensures
            submit_only(*old(self), *final(self), UserEvent::CenterWindow),
    {
        self.submit(UserEvent::CenterWindow);
    }

    pub fn set_prevent_close(&mut self, p: bool)
        ensures
            submit_only(*old(self), *final(self), UserEvent::SetPreventClose(p)),
    {
        self.submit(UserEvent::SetPreventClose(p));
    }

    pub fn create_tray(&mut self, icon_path: String, tooltip: String)
        ensures
            submit_only(*old(self), *final(self), UserEvent::CreateTray(icon_path, tooltip)),
    {
        self.submit(UserEvent::CreateTray(icon_path, tooltip));
    }
}

} // verus!
