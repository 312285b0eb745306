//! The interactive navigation session.
//!
//! A session owns the live viewport and the initial configuration captured
//! at startup.  Each decoded command is applied in order; `Quit` ends the
//! session and leaves the viewport untouched.  The surrounding event loop
//! renders, reads one event, decodes it, and hands the command here.

use vstd::prelude::*;

use crate::viewport::Command;
use crate::viewport::Viewport;
use crate::viewport::apply_spec;
use crate::viewport::lemma_apply_wf;

verus! {

/// The state of one interactive session.
#[derive(Clone, Copy, PartialEq, Eq, Structural, Debug)]
pub struct Session {
    /// The viewport being navigated.
    pub view: Viewport,
    /// The configuration captured at startup, restored by `Reset`.
    pub init: Viewport,
}

impl Session {
    /// Well-formedness: both viewports are well-formed.
    pub open spec fn wf(self) -> bool {
        self.view.wf() && self.init.wf()
    }

    /// Starts a session at the given viewport, capturing it as the
    /// configuration that `Reset` restores.
    pub fn start(vp: Viewport) -> (s: Session)
        requires
            vp.wf(),
        ensures
            s.view == vp,
            s.init == vp,
            s.wf(),
    {
        Session { view: vp, init: vp }
    }

    /// Handles one decoded command: returns whether the session is over,
    /// and otherwise applies the command to the viewport.  Commands are
    /// applied strictly in the order they are handed in; none is dropped
    /// or reordered.
    pub fn handle(&mut self, cmd: Command) -> (quit: bool)
        requires
            old(self).wf(),
        ensures
            quit == (cmd is Quit),
            final(self).init == old(self).init,
            final(self).view == apply_spec(old(self).view, cmd, old(self).init),
            final(self).wf(),
    {
        proof {
            lemma_apply_wf(self.view, cmd, self.init);
        }
        match cmd {
            Command::Quit => true,
            _ => {
                let init = self.init;
                self.view.apply(cmd, &init);
                false
            },
        }
    }
}

} // verus!
