//! A loader that escape cancels.
use crate::tui::components::loader::{Loader, LoaderView};
use crate::tui::keybindings::{bindings_map, default_entries, key_id_matches_any, Keybindings, ACTION_SELECT_CANCEL};
use crate::tui::keys::KeyEvent;
use vstd::prelude::*;

verus! {

/// A loader with escape-to-cancel.
pub struct CancellableLoader {
    loader: Loader,
    cancelled: bool,
    keybindings: Keybindings,
}

impl CancellableLoader {
    /// The loader inside.
    pub closed spec fn loader(&self) -> LoaderView {
        self.loader@
    }

    /// Whether the loader was cancelled.
    pub closed spec fn was_cancelled(&self) -> bool {
        self.cancelled
    }

    /// The keybindings it answers to.
    pub closed spec fn bindings(&self) -> Map<Seq<char>, Seq<Seq<char>>> {
        self.keybindings@
    }

    pub closed spec fn wf(&self) -> bool {
        self.loader.wf()
    }

    /// A stopped loader showing `message`, with the default keybindings.
    pub fn new(message: &str) -> (l: Self)
        ensures
            l.wf(),
            !l.was_cancelled(),
            l.loader().message == message@,
            l.loader().started == false,
            l.bindings() == bindings_map(default_entries()),
    {
        let mut loader = Loader::new();
        loader.set_message(message);
        CancellableLoader { loader, cancelled: false, keybindings: Keybindings::with_defaults() }
    }

    /// Use these keybindings.
    pub fn set_keybindings(&mut self, kb: Keybindings)
        requires
            old(self).wf(),
        ensures
            final(self).wf(),
            final(self).bindings() == kb@,
            final(self).loader() == old(self).loader(),
            final(self).was_cancelled() == old(self).was_cancelled(),
    {
        self.keybindings = kb;
    }

    pub fn start(&mut self)
        requires
            old(self).wf(),
        ensures
            final(self).wf(),
            final(self).loader() == (LoaderView { started: true, ..old(self).loader() }),
            final(self).was_cancelled() == old(self).was_cancelled(),
            final(self).bindings() == old(self).bindings(),
    {
        self.loader.start();
    }

    pub fn stop(&mut self)
        requires
            old(self).wf(),
        ensures
            final(self).wf(),
            final(self).loader() == (LoaderView { started: false, ..old(self).loader() }),
            final(self).was_cancelled() == old(self).was_cancelled(),
            final(self).bindings() == old(self).bindings(),
    {
        self.loader.stop();
    }

    /// Stop the animation for good.
    pub fn dispose(&mut self)
        requires
            old(self).wf(),
        ensures
            final(self).wf(),
            final(self).loader() == (LoaderView { started: false, ..old(self).loader() }),
            final(self).was_cancelled() == old(self).was_cancelled(),
            final(self).bindings() == old(self).bindings(),
    {
        self.loader.stop();
    }

    pub fn is_cancelled(&self) -> (r: bool)
        ensures
            r == self.was_cancelled(),
    {
        self.cancelled
    }

    /// Advance the animation; a stopped loader does not move.
    pub fn tick(&mut self) -> (moved: bool)
        requires
            old(self).wf(),
        ensures
            final(self).wf(),
            moved ==> old(self).loader().started,
            final(self).was_cancelled() == old(self).was_cancelled(),
            final(self).bindings() == old(self).bindings(),
    {
        self.loader.tick()
    }

    pub fn set_message(&mut self, message: &str)
        requires
            old(self).wf(),
        ensures
            final(self).wf(),
            final(self).loader() == (LoaderView { message: message@, ..old(self).loader() }),
            final(self).was_cancelled() == old(self).was_cancelled(),
            final(self).bindings() == old(self).bindings(),
    {
        self.loader.set_message(message);
    }

    /// The loader's line, at most `width` bytes.
    pub fn render(&self, width: usize) -> (r: Vec<String>)
        requires
            self.wf(),
        ensures
            r@.len() == 1,
            crate::tui::strs::byte_len(r@[0]@) <= width,
            crate::tui::keybindings::strs_view(r@) == (if self.loader().frames.len() == 0 {
                seq![Seq::<char>::empty()]
            } else {
                seq![crate::tui::components::loader::cut_to_bytes(
                    crate::tui::components::loader::loader_line(
                        self.loader().frames[self.loader().current_frame as int % self.loader().frames.len() as int],
                        self.loader().message,
                    ),
                    width as nat,
                )]
            }),
    {
        self.loader.render(width)
    }

    /// The cancel key cancels and is consumed; other keys are not.
    pub fn handle_input(&mut self, key: &KeyEvent) -> (consumed: bool)
        requires
            old(self).wf(),
        ensures
            final(self).wf(),
            consumed == key_id_matches_any(old(self).bindings(), *key, ACTION_SELECT_CANCEL@),
            final(self).was_cancelled() == (old(self).was_cancelled() || consumed),
            final(self).loader() == old(self).loader(),
            final(self).bindings() == old(self).bindings(),
    {
        if self.keybindings.matches(key, ACTION_SELECT_CANCEL) {
            self.cancelled = true;
            return true;
        }
        false
    }
}

} // verus!
