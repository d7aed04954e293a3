//! The input/resize loop's decisions: when to re-render, what each key
//! does, and the run-at-most-once guard for the terminal cleanup.
//!
//! The loop around these is plain terminal plumbing: each iteration hands
//! the current viewport to `should_render`, renders and calls
//! `mark_rendered` when told to, then hands any polled key to `handle_key`
//! and performs the returned action.

use vstd::prelude::*;

verus! {

/// Terminal dimensions in character cells.
#[derive(Clone, Copy, PartialEq, Eq, Structural, Debug)]
pub struct ViewportSize {
    pub cols: u16,
    pub rows: u16,
}

/// A keyboard event, reduced to what the loop distinguishes.
#[derive(Clone, Copy, PartialEq, Eq, Structural, Debug)]
pub enum KeyInput {
    /// A printable character key.
    Char(char),
    /// The Escape key.
    Esc,
    /// Any other key.
    Other,
}

/// What the loop must do in reaction to one keyboard event.
#[derive(Clone, Copy, PartialEq, Eq, Structural, Debug)]
pub enum KeyAction {
    /// Leave the loop and run the cleanup.
    Quit,
    /// Re-render on the next iteration even if the viewport is unchanged.
    Refresh,
    /// Print the info overlay, leaving the render state alone.
    Info,
    /// Do nothing.
    Ignore,
}

/// The loop's render state: the viewport size of the last render pass, or
/// `None` when no pass has happened yet or a refresh was forced. `None` is
/// the sentinel that makes the next size check always trigger a render.
pub struct LoopState {
    last: Option<ViewportSize>,
}

/// Whether a pass over viewport `v` must render given state `s`: exactly
/// when `v` is not the size that was last rendered.
pub open spec fn spec_should_render(s: LoopState, v: ViewportSize) -> bool {
    s.last_rendered() != Some(v)
}

impl LoopState {
    /// The viewport of the last render pass, `None` after start or refresh.
    pub closed spec fn last_rendered(self) -> Option<ViewportSize> {
        self.last
    }

    /// The initial state: nothing rendered yet, so the first size check
    /// triggers a render whatever the viewport is.
    pub fn new() -> (s: LoopState)
        ensures
            s.last_rendered() is None,
    {
        LoopState { last: None }
    }

    /// Decide whether this iteration must render: it must exactly when the
    /// current viewport differs from the last one rendered.
    pub fn should_render(&self, v: ViewportSize) -> (b: bool)
        ensures
            b == spec_should_render(*self, v),
    {
        match self.last {
            None => true,
            Some(l) => l.cols != v.cols || l.rows != v.rows,
        }
    }

    /// Record that a render pass for viewport `v` completed.
    pub fn mark_rendered(&mut self, v: ViewportSize)
        ensures
            final (self).last_rendered() == Some(v),
    {
        self.last = Some(v);
    }

    /// Forget the last rendered size, so that the next size check renders
    /// whatever the viewport turns out to be.
    pub fn force_refresh(&mut self)
        ensures
            final (self).last_rendered() is None,
    {
        self.last = None;
    }

    /// React to one keyboard event: `q` and Escape quit, `r` forces a
    /// refresh, `i` asks for the info overlay, anything else is ignored.
    /// Only `r` touches the render state.
    pub fn handle_key(&mut self, key: KeyInput) -> (a: KeyAction)
        ensures
            a == KeyAction::Quit <==> (key == KeyInput::Char('q') || key == KeyInput::Esc),
            a == KeyAction::Refresh <==> key == KeyInput::Char('r'),
            a == KeyAction::Info <==> key == KeyInput::Char('i'),
            key == KeyInput::Char('r') ==> final (self).last_rendered() is None,
            key != KeyInput::Char('r') ==> final (self).last_rendered() == old(
                self,
            ).last_rendered(),
    {
        match key {
            KeyInput::Char(c) => {
                if c == 'q' {
                    KeyAction::Quit
                } else if c == 'r' {
                    self.force_refresh();
                    KeyAction::Refresh
                } else if c == 'i' {
                    KeyAction::Info
                } else {
                    KeyAction::Ignore
                }
            },
            KeyInput::Esc => KeyAction::Quit,
            KeyInput::Other => KeyAction::Ignore,
        }
    }
}

/// Resize detection: a pass over the viewport that was just rendered does
/// not render again, and a pass over any other viewport renders exactly
/// then. So querying an unchanged size twice triggers no redundant render,
/// and a changed size triggers one render, after which the size is no
/// longer "changed".
pub proof fn lemma_resize_detection(s: LoopState, v: ViewportSize)
    ensures
        s.last_rendered() == Some(v) ==> !spec_should_render(s, v),
        s.last_rendered() != Some(v) ==> spec_should_render(s, v),
{
}

/// A forced refresh always takes effect: from the sentinel state every
/// viewport, unchanged or not, triggers a render on the next pass.
pub proof fn lemma_refresh_forces_render(s: LoopState, v: ViewportSize)
    requires
        s.last_rendered() is None,
    ensures
        spec_should_render(s, v),
{
}

/// Grants permission to run the terminal cleanup sequence at most once,
/// however many exit paths ask for it.
pub struct CleanupGuard {
    done: bool,
}

impl CleanupGuard {
    /// Whether the cleanup has already been granted.
    pub closed spec fn spec_done(self) -> bool {
        self.done
    }

    pub fn new() -> (g: CleanupGuard)
        ensures
            !g.spec_done(),
    {
        CleanupGuard { done: false }
    }

    /// Ask to run the cleanup: granted exactly on the first call, and the
    /// guard is spent from then on.
    pub fn begin_cleanup(&mut self) -> (run: bool)
        ensures
            run == !old(self).spec_done(),
            final (self).spec_done(),
    {
        let run = !self.done;
        self.done = true;
        run
    }
}

/// The cleanup runs at most once: of two successive requests on one guard
/// — their results and intermediate states bound by `begin_cleanup`'s
/// contract — at most the first is granted, whatever state the guard
/// started in.
pub proof fn lemma_cleanup_at_most_once(
    g0: CleanupGuard,
    g1: CleanupGuard,
    g2: CleanupGuard,
    r1: bool,
    r2: bool,
)
    requires
        r1 == !g0.spec_done(),
        g1.spec_done(),
        r2 == !g1.spec_done(),
        g2.spec_done(),
    ensures
        !(r1 && r2),
{
}

} // verus!
