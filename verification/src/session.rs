//! The session state machine: one total step function from the current
//! screen and an input key to the next application state and the action
//! the surrounding event loop must take.
//!
//! The loop around it blocks on input, feeds each key to `handle_key`,
//! renders, and performs the returned effect: quitting, running the
//! finished script, or writing it to the file the user named (reporting
//! the result back through `note_save_result`).

use vstd::prelude::*;
use vstd::string::StringExecFns;

use crate::app::{ActionAfterExit, App, AppState};
use crate::menu::spec_toggle;
use crate::synth::spec_script;

verus! {

/// An abstract input key, as the terminal delivers it.
#[derive(Debug, PartialEq, Eq, Structural, Clone, Copy)]
pub enum Key {
    Char(char),
    Up,
    Down,
    Left,
    Right,
    Enter,
    Backspace,
    Esc,
    Other,
}

/// What the event loop must do after one step.
pub enum KeyOutcome {
    /// Keep looping.
    Continue,
    /// The session is over; act on the outcome.
    Done(ActionAfterExit),
    /// Write `content` to the path `filename` and report back through
    /// `note_save_result`.
    SaveRequest { filename: String, content: String },
}

/// The fields the tree navigator never touches are unchanged.
pub open spec fn spec_same_session(pre: App, post: App) -> bool {
    &&& post.state == pre.state
    &&& post.os_distro == pre.os_distro
    &&& post.reboot_requested == pre.reboot_requested
    &&& post.filename_input == pre.filename_input
    &&& post.save_status_message == pre.save_status_message
}

/// The navigation state is unchanged.
pub open spec fn spec_same_nav(pre: App, post: App) -> bool {
    &&& post.tree == pre.tree
    &&& post.nav_path == pre.nav_path
    &&& post.selected_index == pre.selected_index
}

/// Leaving Browsing for Reviewing, capturing the reboot flag; nothing else
/// moves.
pub open spec fn spec_to_review(pre: App, post: App, reboot: bool) -> bool {
    &&& post.state == AppState::Finished
    &&& post.reboot_requested == reboot
    &&& post.tree == pre.tree
    &&& post.nav_path == pre.nav_path
    &&& post.selected_index == pre.selected_index
    &&& post.os_distro == pre.os_distro
    &&& post.filename_input == pre.filename_input
    &&& post.save_status_message == pre.save_status_message
}

/// Only the session screen changed.
pub open spec fn spec_only_state(pre: App, post: App, state: AppState) -> bool {
    &&& post.state == state
    &&& post.reboot_requested == pre.reboot_requested
    &&& post.tree == pre.tree
    &&& post.nav_path == pre.nav_path
    &&& post.selected_index == pre.selected_index
    &&& post.os_distro == pre.os_distro
    &&& post.filename_input == pre.filename_input
    &&& post.save_status_message == pre.save_status_message
}

/// Entered the Saving screen with a fresh filename buffer and no stale
/// status message.
pub open spec fn spec_to_saving(pre: App, post: App) -> bool {
    &&& post.state == AppState::Saving
    &&& post.filename_input@ == Seq::<char>::empty()
    &&& post.save_status_message is None
    &&& post.reboot_requested == pre.reboot_requested
    &&& post.tree == pre.tree
    &&& post.nav_path == pre.nav_path
    &&& post.selected_index == pre.selected_index
    &&& post.os_distro == pre.os_distro
}

/// The cursor moved one row down with wrap-around; nothing else did.
pub open spec fn spec_moved_next(pre: App, post: App) -> bool {
    let n = pre.spec_view().len();
    &&& spec_same_session(pre, post)
    &&& post.tree == pre.tree
    &&& post.nav_path == pre.nav_path
    &&& (post.selected_index as int) == if n == 0 {
        pre.selected_index as int
    } else if pre.selected_index + 1 == n {
        0int
    } else {
        pre.selected_index + 1
    }
}

/// The cursor moved one row up with wrap-around; nothing else did.
pub open spec fn spec_moved_prev(pre: App, post: App) -> bool {
    let n = pre.spec_view().len();
    &&& spec_same_session(pre, post)
    &&& post.tree == pre.tree
    &&& post.nav_path == pre.nav_path
    &&& (post.selected_index as int) == if n == 0 {
        pre.selected_index as int
    } else if pre.selected_index == 0 {
        n - 1
    } else {
        pre.selected_index - 1
    }
}

/// The cursor's row was activated: a group was entered (one path element
/// pushed, cursor reset) or an item toggled in place; out of range,
/// nothing happened.
pub open spec fn spec_activated(pre: App, post: App) -> bool {
    let v = pre.spec_view();
    let i = pre.selected_index as int;
    &&& spec_same_session(pre, post)
    &&& post.tree.root == pre.tree.root
    &&& if i < v.len() {
        let t = v[i].node;
        if pre.tree@[t as int] is Menu {
            &&& post.tree@ == pre.tree@
            &&& post.nav_path@ == pre.nav_path@.push(t)
            &&& post.selected_index == 0
        } else {
            &&& post.tree@ == pre.tree@.update(t as int, spec_toggle(pre.tree@[t as int]))
            &&& post.nav_path@ == pre.nav_path@
            &&& post.selected_index == pre.selected_index
        }
    } else {
        post == pre
    }
}

/// One path element was popped and the cursor reset, unless already at the
/// root.
pub open spec fn spec_went_back(pre: App, post: App) -> bool {
    &&& spec_same_session(pre, post)
    &&& post.tree == pre.tree
    &&& if pre.nav_path@.len() > 1 {
        post.nav_path@ == pre.nav_path@.drop_last() && post.selected_index == 0
    } else {
        post == pre
    }
}

/// One step of the Browsing screen.
pub open spec fn spec_running_step(pre: App, post: App, key: Key, r: KeyOutcome) -> bool {
    match key {
        Key::Char(c) => if c == 'q' {
            &&& post == pre
            &&& r matches KeyOutcome::Done(ActionAfterExit::Quit)
        } else if c == 'i' {
            &&& spec_to_review(pre, post, false)
            &&& r is Continue
        } else if c == 'r' {
            &&& spec_to_review(pre, post, true)
            &&& r is Continue
        } else {
            &&& post == pre
            &&& r is Continue
        },
        Key::Down => spec_moved_next(pre, post) && r is Continue,
        Key::Up => spec_moved_prev(pre, post) && r is Continue,
        Key::Right | Key::Enter => spec_activated(pre, post) && r is Continue,
        Key::Left | Key::Backspace => spec_went_back(pre, post) && r is Continue,
        _ => post == pre && r is Continue,
    }
}

/// One step of the Reviewing screen.
pub open spec fn spec_finished_step(pre: App, post: App, key: Key, r: KeyOutcome) -> bool {
    match key {
        Key::Char(c) => if c == 'q' {
            &&& post == pre
            &&& r matches KeyOutcome::Done(ActionAfterExit::Quit)
        } else if c == 's' {
            &&& spec_to_saving(pre, post)
            &&& r is Continue
        } else if c == 'r' {
            &&& post == pre
            &&& (r matches KeyOutcome::Done(ActionAfterExit::RunScript(s)) && s@ == spec_script(
                pre.tree@,
                pre.tree.root as int,
                pre.os_distro,
                pre.reboot_requested,
            ))
        } else {
            &&& post == pre
            &&& r is Continue
        },
        Key::Esc | Key::Backspace => spec_only_state(pre, post, AppState::Running) && r is Continue,
        _ => post == pre && r is Continue,
    }
}

/// One step of the Saving screen.
pub open spec fn spec_saving_step(pre: App, post: App, key: Key, r: KeyOutcome) -> bool {
    match key {
        Key::Char(c) => {
            &&& post.filename_input@ == pre.filename_input@.push(c)
            &&& post.state == pre.state
            &&& post.tree == pre.tree
            &&& post.nav_path == pre.nav_path
            &&& post.selected_index == pre.selected_index
            &&& post.os_distro == pre.os_distro
            &&& post.reboot_requested == pre.reboot_requested
            &&& post.save_status_message == pre.save_status_message
            &&& r is Continue
        },
        Key::Backspace => {
            &&& post.filename_input@ == if pre.filename_input@.len() > 0 {
                pre.filename_input@.drop_last()
            } else {
                pre.filename_input@
            }
            &&& post.state == pre.state
            &&& post.tree == pre.tree
            &&& post.nav_path == pre.nav_path
            &&& post.selected_index == pre.selected_index
            &&& post.os_distro == pre.os_distro
            &&& post.reboot_requested == pre.reboot_requested
            &&& post.save_status_message == pre.save_status_message
            &&& r is Continue
        },
        Key::Esc => {
            &&& post.state == AppState::Finished
            &&& post.filename_input@ == Seq::<char>::empty()
            &&& post.save_status_message is None
            &&& post.tree == pre.tree
            &&& post.nav_path == pre.nav_path
            &&& post.selected_index == pre.selected_index
            &&& post.os_distro == pre.os_distro
            &&& post.reboot_requested == pre.reboot_requested
            &&& r is Continue
        },
        Key::Enter => {
            &&& post.state == AppState::Finished
            &&& post.filename_input@ == Seq::<char>::empty()
            &&& post.tree == pre.tree
            &&& post.nav_path == pre.nav_path
            &&& post.selected_index == pre.selected_index
            &&& post.os_distro == pre.os_distro
            &&& post.reboot_requested == pre.reboot_requested
            &&& post.save_status_message == pre.save_status_message
            &&& (r matches KeyOutcome::SaveRequest { filename, content } && filename@
                == pre.filename_input@ && content@ == spec_script(
                pre.tree@,
                pre.tree.root as int,
                pre.os_distro,
                pre.reboot_requested,
            ))
        },
        _ => post == pre && r is Continue,
    }
}

/// Activating an item is its own inverse: two activations of the same
/// cursor row restore the tree exactly, and neither touches the
/// navigation path or the cursor.
pub proof fn lemma_item_activation_involutive(pre: App, mid: App, post: App)
    requires
        pre.wf(),
        (pre.selected_index as int) < pre.spec_view().len(),
        !(pre.tree@[pre.spec_view()[pre.selected_index as int].node as int] is Menu),
        spec_activated(pre, mid),
        spec_activated(mid, post),
    ensures
        post.tree@ == pre.tree@,
        post.nav_path@ == pre.nav_path@,
        post.selected_index == pre.selected_index,
{
    let i = pre.selected_index as int;
    let t = pre.spec_view()[i].node;
    crate::nav::lemma_view_in_range(pre);
    crate::nav::lemma_view_toggle(pre.tree@, pre.nav_path@, t as int);
    assert(mid.spec_view() == pre.spec_view());
    assert(mid.tree@[t as int] == spec_toggle(pre.tree@[t as int]));
    assert(!(mid.tree@[t as int] is Menu));
    crate::menu::lemma_arena_toggle_involutive(pre.tree@, t as int);
}

/// Going back is the exact inverse of entering a group: it pops the one
/// pushed path element and resets the cursor, leaving the tree as it was.
pub proof fn lemma_enter_then_back(pre: App, mid: App, post: App)
    requires
        pre.wf(),
        (pre.selected_index as int) < pre.spec_view().len(),
        pre.tree@[pre.spec_view()[pre.selected_index as int].node as int] is Menu,
        spec_activated(pre, mid),
        spec_went_back(mid, post),
    ensures
        post.tree@ == pre.tree@,
        post.nav_path@ == pre.nav_path@,
        post.selected_index == 0,
{
    let i = pre.selected_index as int;
    let t = pre.spec_view()[i].node;
    assert(mid.nav_path@ == pre.nav_path@.push(t));
    assert(mid.nav_path@.len() == pre.nav_path@.len() + 1);
    assert(post.nav_path@ == mid.nav_path@.drop_last());
    assert(pre.nav_path@.push(t).drop_last() =~= pre.nav_path@);
}

impl App {
    /// Processes one input key on the active screen.  Every reachable key
    /// has a defined effect; unknown keys are a no-op.
    pub fn handle_key(&mut self, key: Key) -> (r: KeyOutcome)
        requires
            old(self).wf(),
        ensures
            final(self).wf(),
            (match old(self).state {
                AppState::Running => spec_running_step(*old(self), *final(self), key, r),
                AppState::Finished => spec_finished_step(*old(self), *final(self), key, r),
                AppState::Saving => spec_saving_step(*old(self), *final(self), key, r),
            }),
    {
        match self.state {
            AppState::Running => {
                self.clamp_index();
                proof {
                    assert(*self == *old(self));
                }
                match key {
                    Key::Char(c) => {
                        if c == 'q' {
                            KeyOutcome::Done(ActionAfterExit::Quit)
                        } else if c == 'i' {
                            self.state = AppState::Finished;
                            self.reboot_requested = false;
                            KeyOutcome::Continue
                        } else if c == 'r' {
                            self.state = AppState::Finished;
                            self.reboot_requested = true;
                            KeyOutcome::Continue
                        } else {
                            KeyOutcome::Continue
                        }
                    },
                    Key::Down => {
                        self.move_next();
                        KeyOutcome::Continue
                    },
                    Key::Up => {
                        self.move_prev();
                        KeyOutcome::Continue
                    },
                    Key::Right | Key::Enter => {
                        self.activate();
                        KeyOutcome::Continue
                    },
                    Key::Left | Key::Backspace => {
                        self.back();
                        KeyOutcome::Continue
                    },
                    _ => KeyOutcome::Continue,
                }
            },
            AppState::Finished => {
                match key {
                    Key::Char(c) => {
                        if c == 'q' {
                            KeyOutcome::Done(ActionAfterExit::Quit)
                        } else if c == 's' {
                            self.state = AppState::Saving;
                            self.filename_input.clear();
                            self.save_status_message = None;
                            KeyOutcome::Continue
                        } else if c == 'r' {
                            let script = self.generate_commands(self.reboot_requested);
                            KeyOutcome::Done(ActionAfterExit::RunScript(script))
                        } else {
                            KeyOutcome::Continue
                        }
                    },
                    Key::Esc | Key::Backspace => {
                        self.state = AppState::Running;
                        KeyOutcome::Continue
                    },
                    _ => KeyOutcome::Continue,
                }
            },
            AppState::Saving => {
                match key {
                    Key::Char(c) => {
                        self.filename_input.push(c);
                        KeyOutcome::Continue
                    },
                    Key::Backspace => {
                        self.filename_input.pop();
                        KeyOutcome::Continue
                    },
                    Key::Esc => {
                        self.state = AppState::Finished;
                        self.filename_input.clear();
                        self.save_status_message = None;
                        KeyOutcome::Continue
                    },
                    Key::Enter => {
                        let content = self.generate_commands(self.reboot_requested);
                        let filename = self.filename_input.clone();
                        self.state = AppState::Finished;
                        self.filename_input.clear();
                        KeyOutcome::SaveRequest { filename, content }
                    },
                    _ => KeyOutcome::Continue,
                }
            },
        }
    }

    /// Records the outcome of the file write that a `SaveRequest` asked
    /// for, as the status message shown on the Reviewing screen.
    pub fn note_save_result(&mut self, filename: &str, ok: bool, error_text: &str)
        requires
            old(self).wf(),
        ensures
            final(self).wf(),
            final(self).state == old(self).state,
            final(self).tree == old(self).tree,
            final(self).nav_path == old(self).nav_path,
            final(self).selected_index == old(self).selected_index,
            final(self).os_distro == old(self).os_distro,
            final(self).reboot_requested == old(self).reboot_requested,
            final(self).filename_input == old(self).filename_input,
            (final(self).save_status_message matches Some(m) && m@ == if ok {
                "Saved to "@ + filename@
            } else {
                "Error: "@ + error_text@
            }),
    {
        let mut msg = String::new();
        if ok {
            msg.append("Saved to ");
            msg.append(filename);
        } else {
            msg.append("Error: ");
            msg.append(error_text);
        }
        self.save_status_message = Some(msg);
    }
}

} // verus!
