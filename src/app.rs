use vstd::prelude::*;

use crate::event::Event;
use crate::feed::{urls, Feed};
use crate::store::{load, parse_feeds};
use crate::keys::Key;

verus! {

/// The pane that keyboard input is directed to.
pub enum Block {
    Feeds,
    Content,
}

/// What the loop that drives the application has to do after an event.
#[derive(PartialEq, Eq, Structural)]
pub enum Action {
    /// Nothing beyond drawing the next frame.
    Continue,
    /// Write the feed list to the feed file.
    Persist,
    /// Read the feed file and hand its feeds to `App::reload`.
    Reload,
    /// Restore the terminal and stop.
    Quit,
}

/// The state of the application: its feeds, the highlighted one and the
/// number of ticks seen.
pub struct App {
    pub feeds: Vec<Feed>,
    pub tick_count: u64,
    pub active_block: Block,
    pub selected: Option<usize>,
}

/// A selection is valid for a list of `n` entries when it names one of them,
/// and is `None` exactly when the list is empty.
pub open spec fn valid_selection(sel: Option<usize>, n: int) -> bool {
    match sel {
        None => n == 0,
        Some(i) => i < n,
    }
}

/// The selection after moving down a list of `n` entries, wrapping from the
/// last entry to the first.
pub open spec fn step_down(sel: Option<usize>, n: int) -> Option<usize> {
    match sel {
        None => if n > 0 {
            Some(0usize)
        } else {
            None
        },
        Some(i) => if i + 1 >= n {
            Some(0usize)
        } else {
            Some((i + 1) as usize)
        },
    }
}

/// The selection after moving up a list of `n` entries, wrapping from the
/// first entry to the last.
pub open spec fn step_up(sel: Option<usize>, n: int) -> Option<usize> {
    match sel {
        None => if n > 0 {
            Some(0usize)
        } else {
            None
        },
        Some(i) => if i == 0 {
            Some((n - 1) as usize)
        } else {
            Some((i - 1) as usize)
        },
    }
}

/// The selection after `k` moves down.
pub open spec fn steps_down(sel: Option<usize>, n: int, k: nat) -> Option<usize>
    decreases k,
{
    if k == 0 {
        sel
    } else {
        step_down(steps_down(sel, n, (k - 1) as nat), n)
    }
}

/// The selection once the entry at `i` has been removed, leaving `n` entries.
pub open spec fn after_delete(i: int, n: int) -> Option<usize> {
    if n == 0 {
        None
    } else if i >= n {
        Some((n - 1) as usize)
    } else {
        Some(i as usize)
    }
}

/// The selection once the list has been replaced by one of `n` entries.
pub open spec fn after_reload(sel: Option<usize>, n: int) -> Option<usize> {
    if n == 0 {
        None
    } else {
        match sel {
            None => Some(0usize),
            Some(i) => if i >= n {
                Some((n - 1) as usize)
            } else {
                Some(i)
            },
        }
    }
}

/// Two states that hold the same feeds, selection and tick count.
pub open spec fn same_state(a: App, b: App) -> bool {
    &&& a.feeds@ == b.feeds@
    &&& a.selected == b.selected
    &&& a.tick_count == b.tick_count
}

/// The tick counter after one tick: one more, wrapping at the largest `u64`.
pub open spec fn next_tick(t: u64) -> u64 {
    if t == u64::MAX {
        0
    } else {
        (t + 1) as u64
    }
}

proof fn lemma_steps_down_add(sel: Option<usize>, n: int, a: nat, b: nat)
    ensures
        steps_down(sel, n, a + b) == steps_down(steps_down(sel, n, a), n, b),
    decreases b,
{
    if b > 0 {
        lemma_steps_down_add(sel, n, a, (b - 1) as nat);
        assert((a + b - 1) as nat == a + (b - 1) as nat);
    }
}

proof fn lemma_steps_down_run(j: int, n: int, k: nat)
    requires
        0 <= j,
        j + k < n,
        n <= usize::MAX + 1,
    ensures
        steps_down(Some(j as usize), n, k) == Some((j + k) as usize),
    decreases k,
{
    if k > 0 {
        lemma_steps_down_run(j, n, (k - 1) as nat);
    }
}

/// On a list of `n > 0` entries, moving down `n` times comes back to the
/// entry that was selected.
pub proof fn lemma_move_down_cycle(sel: Option<usize>, n: int)
    requires
        0 < n <= usize::MAX,
        valid_selection(sel, n),
    ensures
        steps_down(sel, n, n as nat) == sel,
{
    reveal_with_fuel(steps_down, 2);
    let i = sel->0 as int;
    let a = (n - 1 - i) as nat;
    let b = i as nat;
    lemma_steps_down_add(sel, n, a, (1 + b) as nat);
    lemma_steps_down_add(steps_down(sel, n, a), n, 1, b);
    lemma_steps_down_run(i, n, a);
    assert(steps_down(Some((n - 1) as usize), n, 1) == Some(0usize));
    lemma_steps_down_run(0, n, b);
    assert(a + (1 + b) as nat == n as nat);
}

/// On a list of `n > 0` entries, moving up undoes moving down.
pub proof fn lemma_move_up_undoes_down(sel: Option<usize>, n: int)
    requires
        0 < n <= usize::MAX,
        valid_selection(sel, n),
    ensures
        step_up(step_down(sel, n), n) == sel,
{
}

impl App {
    /// The application's invariant: the selection is valid for the feeds.
    pub open spec fn wf(&self) -> bool {
        valid_selection(self.selected, self.feeds@.len() as int)
    }

    /// An application with no feeds, no selection and no ticks yet.
    pub fn new() -> (app: App)
        ensures
            app.wf(),
            app.feeds@.len() == 0,
            app.tick_count == 0,
            app.active_block == Block::Feeds,
            app.selected is None,
    {
        App { feeds: Vec::new(), tick_count: 0, active_block: Block::Feeds, selected: None }
    }

    /// An application over the given feeds, with the first one selected.
    pub fn with_feeds(feeds: Vec<Feed>) -> (app: App)
        ensures
            app.wf(),
            app.feeds@ == feeds@,
            app.tick_count == 0,
            app.active_block == Block::Feeds,
            app.selected == after_reload(None, feeds@.len() as int),
    {
        let selected = if feeds.len() == 0 {
            None
        } else {
            Some(0)
        };
        App { feeds, tick_count: 0, active_block: Block::Feeds, selected }
    }

    /// The application at start-up over the text of the feed file (empty
    /// when there is no file): one feed for each line that is not blank,
    /// trimmed, in file order, and the first one selected.
    pub fn load(text: &str) -> (app: App)
        ensures
            app.wf(),
            urls(app.feeds@) == load(text@),
            forall|k: int| 0 <= k < app.feeds@.len() ==> (#[trigger] app.feeds@[k]).channel is None,
            app.tick_count == 0,
            app.active_block == Block::Feeds,
            app.selected == after_reload(None, app.feeds@.len() as int),
    {
        App::with_feeds(parse_feeds(text))
    }

    /// Whether the selection is valid for the feeds.
    pub fn selection_is_valid(&self) -> (r: bool)
        ensures
            r == self.wf(),
    {
        match self.selected {
            None => self.feeds.len() == 0,
            Some(i) => i < self.feeds.len(),
        }
    }

    /// Counts one tick.
    pub fn tick(&mut self)
        ensures
            final(self).tick_count == next_tick(old(self).tick_count),
            final(self).feeds@ == old(self).feeds@,
            final(self).selected == old(self).selected,
            final(self).active_block == old(self).active_block,
    {
        self.tick_count = self.tick_count.wrapping_add(1);
    }

    /// Selects the next feed, wrapping from the last to the first.
    pub fn move_down(&mut self)
        requires
            old(self).wf(),
        ensures
            final(self).wf(),
            final(self).selected == step_down(old(self).selected, old(self).feeds@.len() as int),
            final(self).feeds@ == old(self).feeds@,
            final(self).tick_count == old(self).tick_count,
            final(self).active_block == old(self).active_block,
    {
        let n = self.feeds.len();
        self.selected = match self.selected {
            None => if n > 0 {
                Some(0)
            } else {
                None
            },
            Some(i) => if i + 1 >= n {
                Some(0)
            } else {
                Some(i + 1)
            },
        };
    }

    /// Selects the previous feed, wrapping from the first to the last.
    pub fn move_up(&mut self)
        requires
            old(self).wf(),
        ensures
            final(self).wf(),
            final(self).selected == step_up(old(self).selected, old(self).feeds@.len() as int),
            final(self).feeds@ == old(self).feeds@,
            final(self).tick_count == old(self).tick_count,
            final(self).active_block == old(self).active_block,
    {
        let n = self.feeds.len();
        self.selected = match self.selected {
            None => if n > 0 {
                Some(0)
            } else {
                None
            },
            Some(i) => if i == 0 {
                Some(n - 1)
            } else {
                Some(i - 1)
            },
        };
    }

    /// Removes the selected feed, if any, and reports whether one was removed.
    /// The selection then stays on the same position, moves to the new last
    /// feed when the last one was removed, and is `None` once no feed is left.
    pub fn delete_selected(&mut self) -> (removed: bool)
        requires
            old(self).wf(),
        ensures
            final(self).wf(),
            removed == old(self).selected is Some,
            removed ==> final(self).feeds@ == old(self).feeds@.remove(
                old(self).selected->0 as int,
            ),
            removed ==> final(self).selected == after_delete(
                old(self).selected->0 as int,
                final(self).feeds@.len() as int,
            ),
            !removed ==> final(self).feeds@ == old(self).feeds@ && final(self).selected
                == old(self).selected,
            final(self).tick_count == old(self).tick_count,
            final(self).active_block == old(self).active_block,
    {
        match self.selected {
            None => false,
            Some(i) => {
                self.feeds.remove(i);
                let n = self.feeds.len();
                self.selected = if n == 0 {
                    None
                } else if i >= n {
                    Some(n - 1)
                } else {
                    Some(i)
                };
                true
            },
        }
    }

    /// Replaces the feeds with those read anew, keeping the selection where
    /// it still names a feed: it moves to the last feed when it is past the
    /// end, to the first when there was none, and is `None` for no feeds.
    pub fn reload(&mut self, feeds: Vec<Feed>)
        requires
            old(self).wf(),
        ensures
            final(self).wf(),
            final(self).feeds@ == feeds@,
            final(self).selected == after_reload(old(self).selected, feeds@.len() as int),
            final(self).tick_count == old(self).tick_count,
            final(self).active_block == old(self).active_block,
    {
        let n = feeds.len();
        self.feeds = feeds;
        self.selected = if n == 0 {
            None
        } else {
            match self.selected {
                None => Some(0),
                Some(i) => if i >= n {
                    Some(n - 1)
                } else {
                    Some(i)
                },
            }
        };
    }

    /// Handles one event and says what is left to do: `j` and `k` move the
    /// selection down and up, `d` removes the selected feed (to be written
    /// out), `r` asks for the feed file to be read again, `q` quits, and a
    /// tick is counted. Any other key changes nothing.
    pub fn handle(&mut self, event: Event<Key>) -> (action: Action)
        requires
            old(self).wf(),
        ensures
            final(self).wf(),
            final(self).active_block == old(self).active_block,
            ({
                let o = *old(self);
                let f = *final(self);
                let n = o.feeds@.len() as int;
                match event {
                    Event::Tick => action == Action::Continue && f.tick_count == next_tick(
                        o.tick_count,
                    ) && f.feeds@ == o.feeds@ && f.selected == o.selected,
                    Event::Input(Key::Char('j')) => action == Action::Continue && f.selected
                        == step_down(o.selected, n) && f.feeds@ == o.feeds@ && f.tick_count
                        == o.tick_count,
                    Event::Input(Key::Char('k')) => action == Action::Continue && f.selected
                        == step_up(o.selected, n) && f.feeds@ == o.feeds@ && f.tick_count
                        == o.tick_count,
                    Event::Input(Key::Char('d')) => match o.selected {
                        Some(i) => action == Action::Persist && f.feeds@ == o.feeds@.remove(
                            i as int,
                        ) && f.selected == after_delete(i as int, n - 1) && f.tick_count
                            == o.tick_count,
                        None => action == Action::Continue && same_state(f, o),
                    },
                    Event::Input(Key::Char('r')) => action == Action::Reload && same_state(f, o),
                    Event::Input(Key::Char('q')) => action == Action::Quit && same_state(f, o),
                    _ => action == Action::Continue && same_state(f, o),
                }
            }),
    {
        match event {
            Event::Tick => {
                self.tick();
                Action::Continue
            },
            Event::Input(Key::Char('j')) => {
                self.move_down();
                Action::Continue
            },
            Event::Input(Key::Char('k')) => {
                self.move_up();
                Action::Continue
            },
            Event::Input(Key::Char('d')) => {
                if self.delete_selected() {
                    Action::Persist
                } else {
                    Action::Continue
                }
            },
            Event::Input(Key::Char('r')) => Action::Reload,
            Event::Input(Key::Char('q')) => Action::Quit,
            _ => Action::Continue,
        }
    }
}

} // verus!
