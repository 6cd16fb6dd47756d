//! The navigation state machine: interaction mode, search text, filter view
//! and selection cursor, driven one keyboard event at a time.
//!
//! The event loop of the surrounding binary hands each decoded key to
//! [`Tmenu::handle_key`], performs the returned [`Action`], redraws, and
//! repeats. All state lives here and changes only through that call.

use vstd::prelude::*;
use crate::entry::AppEntry;
use crate::filter::{entry_matches, filter, filter_view, lemma_filter_view_is_subsequence};

verus! {

/// The interaction mode: whether keys navigate the list or edit the search
/// text. A variant rather than a flag, so a further mode can be added.
#[derive(PartialEq, Eq, Structural, Clone, Copy, Debug)]
pub enum InputMode {
    /// Keys move the cursor, select, or quit.
    Browsing,
    /// Keys edit the search text.
    Editing,
}

/// One keyboard event, as the surrounding binary decodes it.
#[derive(PartialEq, Eq, Structural, Clone, Copy, Debug)]
pub enum Key {
    /// The up arrow.
    Up,
    /// The down arrow.
    Down,
    /// The enter key.
    Enter,
    /// The backspace key.
    Backspace,
    /// The escape key.
    Esc,
    /// A printable character.
    Char(char),
    /// Any other key; always ignored.
    Other,
}

/// What the event loop must do after a key was handled.
#[derive(PartialEq, Eq, Structural, Clone, Copy, Debug)]
pub enum Action {
    /// Redraw from the current state and wait for the next key.
    Continue,
    /// Leave the loop and exit normally.
    Quit,
    /// Restore the terminal, spawn the command of the catalog entry at the
    /// carried position, and exit; see [`crate::lifecycle`] for the order.
    Launch(usize),
}

/// Cursor position after one step forward in a view of length `n`: past the
/// last position it wraps to the first.
pub open spec fn next_index(i: int, n: int) -> int {
    if i + 1 < n {
        i + 1
    } else {
        0
    }
}

/// Cursor position after one step backward in a view of length `n`: before
/// the first position it wraps to the last.
pub open spec fn prev_index(i: int, n: int) -> int {
    if i > 0 {
        i - 1
    } else {
        n - 1
    }
}

/// Cursor position after `k` forward steps from `i` in a view of length `n`.
pub open spec fn iter_next(i: int, n: int, k: nat) -> int
    decreases k,
{
    if k == 0 {
        i
    } else {
        next_index(iter_next(i, n, (k - 1) as nat), n)
    }
}

/// Cursor position after `k` backward steps from `i` in a view of length `n`.
pub open spec fn iter_prev(i: int, n: int, k: nat) -> int
    decreases k,
{
    if k == 0 {
        i
    } else {
        prev_index(iter_prev(i, n, (k - 1) as nat), n)
    }
}

/// The selection engine's whole state.
pub struct Tmenu {
    /// The search text, edited at its tail only.
    pub input: Vec<char>,
    /// The catalog, immutable after start-up.
    pub app_list: Vec<AppEntry>,
    /// The filter view: positions into `app_list` of the entries matching
    /// `input`, in catalog order.
    pub shown: Vec<usize>,
    /// The selection cursor: a position into `shown` when it is non-empty,
    /// pinned to 0 when it is empty.
    pub index: usize,
    /// The current interaction mode.
    pub mode: InputMode,
}

impl Tmenu {
    /// Well-formed state: the filter view belongs to the current catalog and
    /// search text, and the cursor is in range.
    pub open spec fn wf(self) -> bool {
        &&& self.shown@.map_values(|u: usize| u as int) == filter_view(
            self.app_list@,
            self.input@,
        )
        &&& (self.index < self.shown@.len() || (self.shown@.len() == 0 && self.index == 0))
    }

    /// The fresh state: no catalog, no search text, cursor at the start,
    /// browsing.
    pub fn default() -> (t: Tmenu)
        ensures
            t.wf(),
            t.input@ == Seq::<char>::empty(),
            t.app_list@ == Seq::<AppEntry>::empty(),
            t.shown@ == Seq::<usize>::empty(),
            t.index == 0,
            t.mode == InputMode::Browsing,
    {
        let t = Tmenu {
            input: Vec::new(),
            app_list: Vec::new(),
            shown: Vec::new(),
            index: 0,
            mode: InputMode::Browsing,
        };
        proof {
            assert(t.shown@.map_values(|u: usize| u as int) =~= filter_view(
                t.app_list@,
                t.input@,
            ));
        }
        t
    }

    /// The start state over the catalog `apps`: empty search text, so the
    /// full catalog is shown, cursor on the first entry, browsing.
    pub fn new(apps: Vec<AppEntry>) -> (t: Tmenu)
        ensures
            t.wf(),
            t.input@ == Seq::<char>::empty(),
            t.app_list == apps,
            t.shown@.map_values(|u: usize| u as int) == filter_view(apps@, Seq::<char>::empty()),
            t.index == 0,
            t.mode == InputMode::Browsing,
    {
        let input: Vec<char> = Vec::new();
        let shown = filter(&apps, &input);
        Tmenu { input, app_list: apps, shown, index: 0, mode: InputMode::Browsing }
    }

    /// Move the cursor to the next shown entry, wrapping past the last to
    /// the first; with nothing shown, leave everything unchanged.
    pub fn next(&mut self)
        requires
            old(self).wf(),
        ensures
            final(self).wf(),
            final(self).input == old(self).input,
            final(self).app_list == old(self).app_list,
            final(self).shown == old(self).shown,
            final(self).mode == old(self).mode,
            old(self).shown@.len() == 0 ==> final(self).index == old(self).index,
            old(self).shown@.len() > 0 ==> final(self).index as int == next_index(
                old(self).index as int,
                old(self).shown@.len() as int,
            ),
    {
        let n = self.shown.len();
        if n > 0 {
            if self.index + 1 < n {
                self.index = self.index + 1;
            } else {
                self.index = 0;
            }
        }
    }

    /// Move the cursor to the previous shown entry, wrapping past the first
    /// to the last; with nothing shown, leave everything unchanged.
    pub fn previous(&mut self)
        requires
            old(self).wf(),
        ensures
            final(self).wf(),
            final(self).input == old(self).input,
            final(self).app_list == old(self).app_list,
            final(self).shown == old(self).shown,
            final(self).mode == old(self).mode,
            old(self).shown@.len() == 0 ==> final(self).index == old(self).index,
            old(self).shown@.len() > 0 ==> final(self).index as int == prev_index(
                old(self).index as int,
                old(self).shown@.len() as int,
            ),
    {
        let n = self.shown.len();
        if n > 0 {
            if self.index > 0 {
                self.index = self.index - 1;
            } else {
                self.index = n - 1;
            }
        }
    }

    /// Recompute the filter view for the current search text and re-derive
    /// the cursor, modulo the new view length.
    fn refilter(&mut self)
        ensures
            final(self).wf(),
            final(self).input == old(self).input,
            final(self).app_list == old(self).app_list,
            final(self).mode == old(self).mode,
            final(self).shown@.map_values(|u: usize| u as int) == filter_view(
                old(self).app_list@,
                old(self).input@,
            ),
            final(self).index as int == clamp_index(
                old(self).index as int,
                final(self).shown@.len() as int,
            ),
    {
        self.shown = filter(&self.app_list, &self.input);
        let n = self.shown.len();
        if n == 0 {
            self.index = 0;
        } else {
            self.index = self.index % n;
        }
    }

    /// Handle one keyboard event: mutate mode, search text and cursor as the
    /// state-machine table [`key_step`] says, and return what the event loop
    /// must do next. A returned launch position is in catalog bounds and
    /// names an entry matching the search text.
    pub fn handle_key(&mut self, k: Key) -> (a: Action)
        requires
            old(self).wf(),
        ensures
            final(self).wf(),
            key_step(*old(self), k, *final(self), a),
            a matches Action::Launch(ci)
                ==> ci < final(self).app_list@.len()
                && entry_matches(final(self).app_list@[ci as int], final(self).input@),
    {
        match self.mode {
            InputMode::Browsing => match k {
                Key::Up => {
                    self.previous();
                    Action::Continue
                },
                Key::Down => {
                    self.next();
                    Action::Continue
                },
                Key::Enter => {
                    if self.shown.len() > 0 {
                        proof {
                            lemma_filter_view_is_subsequence(self.app_list@, self.input@);
                            assert(self.shown@.map_values(|u: usize| u as int)[self.index as int]
                                == self.shown@[self.index as int] as int);
                        }
                        Action::Launch(self.shown[self.index])
                    } else {
                        Action::Continue
                    }
                },
                Key::Esc => Action::Quit,
                Key::Char(c) => {
                    if c == '/' {
                        self.mode = InputMode::Editing;
                    }
                    Action::Continue
                },
                _ => Action::Continue,
            },
            InputMode::Editing => match k {
                Key::Char(c) => {
                    self.input.push(c);
                    self.refilter();
                    Action::Continue
                },
                Key::Backspace => {
                    self.input.pop();
                    self.refilter();
                    Action::Continue
                },
                Key::Esc => {
                    self.mode = InputMode::Browsing;
                    Action::Continue
                },
                Key::Enter => {
                    // Confirming returns to browsing, so the confirmed text
                    // stays the active filter and the arrow keys work at
                    // once; staying in the editing mode here would leave
                    // enter with no visible effect.
                    self.mode = InputMode::Browsing;
                    Action::Continue
                },
                _ => Action::Continue,
            },
        }
    }
}

/// Nothing changed: neither text, view, cursor nor mode.
pub open spec fn state_unchanged(pre: Tmenu, post: Tmenu) -> bool {
    &&& post.input == pre.input
    &&& post.shown == pre.shown
    &&& post.index == pre.index
    &&& post.mode == pre.mode
}

/// Only the mode changed, to `m`.
pub open spec fn mode_set(pre: Tmenu, post: Tmenu, m: InputMode) -> bool {
    &&& post.input == pre.input
    &&& post.shown == pre.shown
    &&& post.index == pre.index
    &&& post.mode == m
}

/// Only the cursor changed, to `i`.
pub open spec fn cursor_set(pre: Tmenu, post: Tmenu, i: int) -> bool {
    &&& post.input == pre.input
    &&& post.shown == pre.shown
    &&& post.index as int == i
    &&& post.mode == pre.mode
}

/// The cursor re-derived against a view of length `n`: pinned to 0 when the
/// view is empty, otherwise the old position modulo `n`.
pub open spec fn clamp_index(i: int, n: int) -> int {
    if n == 0 {
        0
    } else {
        i % n
    }
}

/// The search text became `s`: the filter view is recomputed over it, the
/// cursor is re-derived modulo the new view length, and the mode stays
/// editing.
pub open spec fn text_edited(pre: Tmenu, post: Tmenu, s: Seq<char>) -> bool {
    &&& post.input@ == s
    &&& post.shown@.map_values(|u: usize| u as int) == filter_view(pre.app_list@, s)
    &&& post.index as int == clamp_index(pre.index as int, post.shown@.len() as int)
    &&& post.mode == InputMode::Editing
}

/// The state-machine table: handling key `k` in state `pre` yields state
/// `post` and action `a`. The catalog never changes; which of the remaining
/// fields move depends on the mode and the key alone.
pub open spec fn key_step(pre: Tmenu, k: Key, post: Tmenu, a: Action) -> bool {
    &&& post.app_list == pre.app_list
    &&& match (pre.mode, k) {
        (InputMode::Browsing, Key::Up) => {
            &&& cursor_set(
                pre,
                post,
                if pre.shown@.len() == 0 {
                    pre.index as int
                } else {
                    prev_index(pre.index as int, pre.shown@.len() as int)
                },
            )
            &&& a == Action::Continue
        },
        (InputMode::Browsing, Key::Down) => {
            &&& cursor_set(
                pre,
                post,
                if pre.shown@.len() == 0 {
                    pre.index as int
                } else {
                    next_index(pre.index as int, pre.shown@.len() as int)
                },
            )
            &&& a == Action::Continue
        },
        (InputMode::Browsing, Key::Enter) => {
            &&& state_unchanged(pre, post)
            &&& a == if pre.shown@.len() > 0 {
                Action::Launch(pre.shown@[pre.index as int])
            } else {
                Action::Continue
            }
        },
        (InputMode::Browsing, Key::Esc) => {
            &&& state_unchanged(pre, post)
            &&& a == Action::Quit
        },
        (InputMode::Browsing, Key::Char(c)) => {
            &&& if c == '/' {
                mode_set(pre, post, InputMode::Editing)
            } else {
                state_unchanged(pre, post)
            }
            &&& a == Action::Continue
        },
        (InputMode::Editing, Key::Char(c)) => {
            &&& text_edited(pre, post, pre.input@.push(c))
            &&& a == Action::Continue
        },
        (InputMode::Editing, Key::Backspace) => {
            &&& text_edited(
                pre,
                post,
                if pre.input@.len() > 0 {
                    pre.input@.drop_last()
                } else {
                    pre.input@
                },
            )
            &&& a == Action::Continue
        },
        (InputMode::Editing, Key::Esc) => {
            &&& mode_set(pre, post, InputMode::Browsing)
            &&& a == Action::Continue
        },
        (InputMode::Editing, Key::Enter) => {
            &&& mode_set(pre, post, InputMode::Browsing)
            &&& a == Action::Continue
        },
        _ => {
            &&& state_unchanged(pre, post)
            &&& a == Action::Continue
        },
    }
}

/// After `k` forward steps from `i` in a view of length `n`, the cursor
/// stands at `(i + k) - n` once wrapped, at `i + k` before.
proof fn lemma_iter_next_value(i: int, n: int, k: nat)
    requires
        0 <= i < n,
        k <= n,
    ensures
        iter_next(i, n, k) == if i + k < n {
            i + k
        } else {
            i + k - n
        },
    decreases k,
{
    if k > 0 {
        lemma_iter_next_value(i, n, (k - 1) as nat);
    }
}

/// After `k` backward steps from `i` in a view of length `n`, the cursor
/// stands at `i - k` while that is in range, at `i - k + n` once wrapped.
proof fn lemma_iter_prev_value(i: int, n: int, k: nat)
    requires
        0 <= i < n,
        k <= n,
    ensures
        iter_prev(i, n, k) == if k <= i {
            i - k
        } else {
            i - k + n
        },
    decreases k,
{
    if k > 0 {
        lemma_iter_prev_value(i, n, (k - 1) as nat);
    }
}

/// In a non-empty view of length `n`, stepping the cursor forward `n` times
/// returns it to where it started.
pub proof fn lemma_next_full_cycle(i: int, n: int)
    requires
        0 <= i < n,
    ensures
        iter_next(i, n, n as nat) == i,
{
    lemma_iter_next_value(i, n, n as nat);
}

/// In a non-empty view of length `n`, stepping the cursor backward `n` times
/// returns it to where it started.
pub proof fn lemma_prev_full_cycle(i: int, n: int)
    requires
        0 <= i < n,
    ensures
        iter_prev(i, n, n as nat) == i,
{
    lemma_iter_prev_value(i, n, n as nat);
}

} // verus!
