//! The message log: what happened, oldest first.

use vstd::prelude::*;

verus! {

/// One message. A name is absent where the entity it speaks of carries none.
#[derive(Clone, Debug, PartialEq, Eq)]
pub enum LogEntry {
    Welcome,
    /// A creature died and was removed.
    Dead { name: String },
    /// An attack that did no damage.
    NoEffect { attacker: Option<String>, target: Option<String> },
    /// An attack that did `damage`.
    Hit { attacker: Option<String>, target: Option<String>, damage: i32 },
    /// The player put an item into the backpack.
    PickedUp { item: Option<String> },
    /// The player's item healed a target.
    Healed { item: Option<String>, amount: i32 },
    /// The player's item hurt a target.
    Hurt { item: Option<String>, target: Option<String>, damage: i32 },
    /// The player's item confused a target.
    Confused { item: Option<String>, target: Option<String>, turns: i32 },
    NothingToPickUp,
    NoWayDown,
    Descended,
}

pub struct GameLog {
    pub entries: Vec<LogEntry>,
}

impl View for GameLog {
    type V = Seq<LogEntry>;

    open spec fn view(&self) -> Seq<LogEntry> {
        self.entries@
    }
}

impl GameLog {
    pub fn new() -> (log: GameLog)
        ensures
            log@.len() == 0,
    {
        GameLog { entries: Vec::new() }
    }

    /// The `count` newest messages, or all there are if they are fewer, the
    /// newest first.
    pub fn recent(&self, count: usize) -> (shown: Vec<&LogEntry>)
        ensures
            shown@.len() == (if count <= self@.len() {
                count as int
            } else {
                self@.len() as int
            }),
            forall|i: int| 0 <= i < shown@.len() ==> *(#[trigger] shown@[i]) == self@[self@.len() - 1 - i],
    {
        let n = self.entries.len();
        let mut shown: Vec<&LogEntry> = Vec::new();
        let mut i: usize = 0;
        while i < count && i < n
            invariant
                n == self@.len(),
                i <= count,
                i <= n,
                shown@.len() == i,
                forall|j: int| 0 <= j < i ==> *(#[trigger] shown@[j]) == self@[n - 1 - j],
            decreases n - i,
        {
            shown.push(&self.entries[n - 1 - i]);
            i += 1;
        }
        shown
    }

    pub fn push(&mut self, entry: LogEntry)
        ensures
            final(self)@ == old(self)@.push(entry),
    {
        self.entries.push(entry);
    }
}

} // verus!
