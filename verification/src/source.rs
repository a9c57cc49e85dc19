//! The ordered, one-shot source of command lines.

use vstd::prelude::*;

verus! {

/// Mathematical model of a [`WorkSource`]: the whole command list and how
/// many of its entries have been handed out.
pub struct SourceView {
    pub commands: Seq<Seq<char>>,
    pub position: nat,
}

impl SourceView {
    /// The cursor never runs past the end of the list.
    pub open spec fn wf(self) -> bool {
        self.position <= self.commands.len()
    }

    /// Nothing is left to hand out.
    pub open spec fn exhausted(self) -> bool {
        self.position >= self.commands.len()
    }

    /// The command the next call hands out, if any.
    pub open spec fn peek(self) -> Option<Seq<char>> {
        if self.exhausted() {
            None
        } else {
            Some(self.commands[self.position as int])
        }
    }

    /// The source after one call of `next`: the cursor moves by one while
    /// commands remain and stays put afterwards.
    pub open spec fn advance(self) -> SourceView {
        if self.exhausted() {
            self
        } else {
            SourceView { commands: self.commands, position: self.position + 1 }
        }
    }

    /// The source after `count` calls of `next`.
    pub open spec fn advance_times(self, count: nat) -> SourceView
        decreases count,
    {
        if count == 0 {
            self
        } else {
            self.advance_times((count - 1) as nat).advance()
        }
    }
}

/// A single-owner cursor over an ordered list of command lines.
pub struct WorkSource {
    items: Vec<String>,
    cursor: usize,
}

impl View for WorkSource {
    type V = SourceView;

    closed spec fn view(&self) -> SourceView {
        SourceView { commands: self.items.deep_view(), position: self.cursor as nat }
    }
}

impl WorkSource {
    /// Holds of every source at all times.
    #[verifier::type_invariant]
    pub open spec fn inv(self) -> bool {
        self@.wf()
    }

    /// A source positioned before the first of `items`.
    pub fn new(items: Vec<String>) -> (s: WorkSource)
        ensures
            s@.commands == items.deep_view(),
            s@.position == 0,
    {
        WorkSource { items, cursor: 0 }
    }

    /// Hands out the next command in arrival order, or `None` once the list
    /// is used up; after the first `None` every later call gives `None`.
    pub fn next(&mut self) -> (r: Option<String>)
        ensures
            r.deep_view() == old(self)@.peek(),
            final(self)@ == old(self)@.advance(),
    {
        proof {
            use_type_invariant(&*self);
        }
        if self.cursor < self.items.len() {
            let command = self.items[self.cursor].clone();
            self.cursor = self.cursor + 1;
            Some(command)
        } else {
            None
        }
    }

    /// Whether every command has been handed out.
    pub fn is_exhausted(&self) -> (r: bool)
        ensures
            r == self@.exhausted(),
    {
        self.cursor >= self.items.len()
    }

    /// Number of commands in the list.
    pub fn len(&self) -> (r: usize)
        ensures
            r == self@.commands.len(),
    {
        self.items.len()
    }

    /// Number of commands handed out so far.
    pub fn position(&self) -> (r: usize)
        ensures
            r == self@.position,
    {
        self.cursor
    }
}

/// The cursor only moves forward, one command per call and in source order,
/// and exhaustion is for good: call number `count` (counting from zero) on a
/// fresh source over `commands` hands out `commands[count]` while
/// `count < commands.len()`, and every later call hands out nothing.
pub proof fn lemma_calls_follow_source_order(commands: Seq<Seq<char>>, count: nat)
    ensures
        ({
            let fresh = SourceView { commands, position: 0 };
            let s = fresh.advance_times(count);
            &&& s.wf()
            &&& s.commands == commands
            &&& s.position == if count <= commands.len() {
                count
            } else {
                commands.len()
            }
            &&& s.peek() == if count < commands.len() {
                Some(commands[count as int])
            } else {
                None
            }
        }),
    decreases count,
{
    if count > 0 {
        lemma_calls_follow_source_order(commands, (count - 1) as nat);
    }
}

} // verus!
