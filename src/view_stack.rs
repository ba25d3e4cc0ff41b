//! The stack of viewers: the last one is active.

use vstd::prelude::*;
use crate::tui_app::{TuiApp, is_detail_of};

verus! {

/// Viewers, the active one last.
pub struct ViewStack {
    pub viewers: Vec<TuiApp>,
}

impl ViewStack {
    /// A stack holding the root viewer alone.
    pub fn new(root: TuiApp) -> (r: Self)
        ensures
            r.viewers@ == seq![root],
    {
        let mut viewers: Vec<TuiApp> = Vec::new();
        viewers.push(root);
        ViewStack { viewers }
    }

    /// Whether no viewer is left: the session is over.
    pub fn is_empty(&self) -> (r: bool)
        ensures
            r == (self.viewers@.len() == 0),
    {
        self.viewers.len() == 0
    }

    /// Puts `app` on top, where it becomes the active viewer.
    pub fn push(&mut self, app: TuiApp)
        ensures
            final(self).viewers@ == old(self).viewers@.push(app),
    {
        self.viewers.push(app);
    }

    /// Takes the active viewer off; the one beneath, untouched, becomes active.
    pub fn pop_current(&mut self) -> (r: Option<TuiApp>)
        ensures
            old(self).viewers@.len() == 0 ==> r is None && final(self).viewers@ == old(self).viewers@,
            old(self).viewers@.len() > 0 ==> r == Some(old(self).viewers@.last())
                && final(self).viewers@ == old(self).viewers@.drop_last(),
    {
        self.viewers.pop()
    }

    /// Opens a detail view of the active viewer's selected row above it.
    pub fn push_detail(&mut self)
        requires
            old(self).viewers@.len() > 0,
            old(self).viewers@.last().wf(),
            old(self).viewers@.last().has_detail(),
        ensures
            final(self).viewers@.drop_last() == old(self).viewers@,
            final(self).viewers@.len() == old(self).viewers@.len() + 1,
            final(self).viewers@.last().wf(),
            is_detail_of(old(self).viewers@.last(), final(self).viewers@.last()),
    {
        let n = self.viewers.len();
        let child = self.viewers[n - 1].open_detail_view();
        self.viewers.push(child);
        assert(self.viewers@.drop_last() =~= old(self).viewers@);
    }
}

} // verus!
