//! Key handling of the launcher overlay: typing edits the query, arrows move
//! the selection within the visible results, Enter launches the selected
//! application and closes, Escape closes.

use vstd::prelude::*;
use crate::launcher::apps::AppEntry;
use crate::keymap::{pop_char, pop_last_char, KeyAction};

verus! {

/// Maximum number of results the overlay shows.
pub const VISIBLE_RESULTS: usize = 8;

/// What the overlay does after a key.
#[derive(Debug, Clone, Copy, PartialEq, Eq, Structural)]
pub struct UiEffect {
    /// Repaint the overlay.
    pub redraw: bool,
    /// Launch the selected result (before closing).
    pub launch: bool,
}

pub struct LauncherState {
    pub query: String,
    pub selected: usize,
    pub should_close: bool,
}

impl LauncherState {
    pub fn new() -> (r: Self)
        ensures
            r.query@ == Seq::<char>::empty(),
            r.selected == 0,
            !r.should_close,
    {
        LauncherState { query: String::new(), selected: 0, should_close: false }
    }

    /// Handles an editing or navigation key; `result_count` is the number
    /// of results shown for the current query.
    pub fn handle_action(&mut self, action: KeyAction, result_count: usize) -> (e: UiEffect)
        ensures
            match action {
                KeyAction::Escape => {
                    &&& final(self).should_close
                    &&& final(self).query@ == old(self).query@
                    &&& final(self).selected == old(self).selected
                    &&& e == (UiEffect { redraw: false, launch: false })
                },
                KeyAction::Enter => {
                    &&& final(self).should_close
                    &&& final(self).query@ == old(self).query@
                    &&& final(self).selected == old(self).selected
                    &&& e == (UiEffect { redraw: false, launch: true })
                },
                KeyAction::Backspace => {
                    &&& final(self).should_close == old(self).should_close
                    &&& final(self).query@ == pop_char(old(self).query@)
                    &&& final(self).selected == 0
                    &&& e == (UiEffect { redraw: true, launch: false })
                },
                KeyAction::Up => {
                    &&& final(self).should_close == old(self).should_close
                    &&& final(self).query@ == old(self).query@
                    &&& final(self).selected == (if old(self).selected > 0 { old(self).selected - 1 } else { 0 })
                    &&& e == (UiEffect { redraw: old(self).selected > 0, launch: false })
                },
                KeyAction::Down => {
                    let max: int = if result_count == 0 { 0 } else { result_count - 1 };
                    &&& final(self).should_close == old(self).should_close
                    &&& final(self).query@ == old(self).query@
                    &&& final(self).selected == (if old(self).selected < max { old(self).selected + 1 } else { old(self).selected as int })
                    &&& e == (UiEffect { redraw: old(self).selected < max, launch: false })
                },
                _ => {
                    &&& final(self).should_close == old(self).should_close
                    &&& final(self).query@ == old(self).query@
                    &&& final(self).selected == old(self).selected
                    &&& e == (UiEffect { redraw: false, launch: false })
                },
            },
    {
        match action {
            KeyAction::Escape => {
                self.should_close = true;
                UiEffect { redraw: false, launch: false }
            },
            KeyAction::Enter => {
                self.should_close = true;
                UiEffect { redraw: false, launch: true }
            },
            KeyAction::Backspace => {
                self.query = pop_last_char(&self.query);
                self.selected = 0;
                UiEffect { redraw: true, launch: false }
            },
            KeyAction::Up => {
                if self.selected > 0 {
                    self.selected = self.selected - 1;
                    UiEffect { redraw: true, launch: false }
                } else {
                    UiEffect { redraw: false, launch: false }
                }
            },
            KeyAction::Down => {
                let max = if result_count == 0 { 0 } else { result_count - 1 };
                if self.selected < max {
                    self.selected = self.selected + 1;
                    UiEffect { redraw: true, launch: false }
                } else {
                    UiEffect { redraw: false, launch: false }
                }
            },
            _ => UiEffect { redraw: false, launch: false },
        }
    }

    /// Typed text extends the query and resets the selection.
    pub fn handle_text(&mut self, text: &str) -> (e: UiEffect)
        ensures
            final(self).query@ == old(self).query@ + text@,
            final(self).selected == 0,
            final(self).should_close == old(self).should_close,
            e == (UiEffect { redraw: true, launch: false }),
    {
        self.query.append(text);
        self.selected = 0;
        UiEffect { redraw: true, launch: false }
    }
}

/// The command to launch for the selected result: its first argv word and
/// the remaining words; nothing when no result is selected or its argv is
/// empty.
pub fn launch_command(results: &Vec<&AppEntry>, selected: usize) -> (r: Option<(String, Vec<String>)>)
    ensures
        (selected < results@.len() && results@[selected as int].argv@.len() > 0) == (r is Some),
        r matches Some((cmd, args)) ==> {
            let argv = (*results@[selected as int]).argv.deep_view();
            &&& cmd@ == argv[0]
            &&& args.deep_view() == argv.drop_first()
        },
{
    if selected >= results.len() {
        return None;
    }
    let app = results[selected];
    let argv = app.launch_argv();
    if argv.len() == 0 {
        return None;
    }
    let cmd = argv[0].clone();
    let mut args: Vec<String> = Vec::new();
    let mut i: usize = 1;
    while i < argv.len()
        invariant
            1 <= i <= argv@.len(),
            argv@ == app.argv@,
            args.deep_view() == app.argv.deep_view().subrange(1, i as int),
        decreases argv@.len() - i,
    {
        let ghost before = args.deep_view();
        let word = argv[i].clone();
        proof {
            assert(word@ == argv@[i as int]@);
            assert(app.argv.deep_view()[i as int] == app.argv@[i as int]@);
        }
        args.push(word);
        proof {
            assert(args.deep_view() =~= before.push(app.argv.deep_view()[i as int]));
            assert(args.deep_view() =~= app.argv.deep_view().subrange(1, i + 1));
        }
        i = i + 1;
    }
    proof {
        assert(app.argv.deep_view().subrange(1, argv@.len() as int) =~= app.argv.deep_view().drop_first());
    }
    Some((cmd, args))
}

} // verus!
