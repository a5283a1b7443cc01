use vstd::prelude::*;

verus! {

/// The messages shown to the player, oldest first.
pub struct GameLog {
    pub entries: Vec<String>,
}

impl GameLog {
    /// The messages as plain text, oldest first.
    pub open spec fn view(&self) -> Seq<Seq<char>> {
        self.entries@.map_values(|s: String| s@)
    }

    /// A log that holds the one message `first`.
    pub fn new(first: &str) -> (log: GameLog)
        ensures
            log@ == seq![first@],
    {
        let mut entries: Vec<String> = Vec::new();
        entries.push(first.to_string());
        let log = GameLog { entries };
        assert(log@ =~= seq![first@]);
        log
    }

    /// The places in the log of the `count` latest messages, the latest
    /// first; of all messages where there are fewer.
    pub fn latest(&self, count: usize) -> (lines: Vec<usize>)
        ensures
            lines.len() == if count <= self.entries.len() { count } else { self.entries.len() },
            forall|i: int| 0 <= i < lines.len() ==> #[trigger] lines@[i] == self.entries.len() - 1 - i,
    {
        let mut lines: Vec<usize> = Vec::new();
        let n = self.entries.len();
        let mut i: usize = 0;
        while i < count && i < n
            invariant
                n == self.entries.len(),
                i <= count,
                i <= n,
                lines.len() == i,
                forall|k: int| 0 <= k < i ==> #[trigger] lines@[k] == n - 1 - k,
            decreases n - i,
        {
            lines.push(n - 1 - i);
            i = i + 1;
        }
        lines
    }

    /// Appends `message`; nothing that was logged before changes.
    pub fn push(&mut self, message: &str)
        ensures
            final(self)@ == old(self)@.push(message@),
    {
        self.entries.push(message.to_string());
        assert(self@ =~= old(self)@.push(message@));
    }
}

} // verus!
