//! Collecting what two streams have ready, in one batch per wake-up.

use vstd::prelude::*;

verus! {

/// The most items taken from each stream in one batch.
pub const POLL_BATCH_LIMIT: usize = 100;

/// The items gathered in one poll of two streams: at most `POLL_BATCH_LIMIT` from
/// each, in the order each stream yielded them.
pub struct NextEitherBatch<A, B> {
    left: Vec<A>,
    right: Vec<B>,
}

impl<A, B> NextEitherBatch<A, B> {
    /// The items taken from the first stream.
    pub closed spec fn left_items(&self) -> Seq<A> {
        self.left@
    }

    /// The items taken from the second stream.
    pub closed spec fn right_items(&self) -> Seq<B> {
        self.right@
    }

    /// A batch with nothing in it.
    pub fn new() -> (b: Self)
        ensures
            b.left_items() == Seq::<A>::empty(),
            b.right_items() == Seq::<B>::empty(),
    {
        NextEitherBatch { left: Vec::new(), right: Vec::new() }
    }

    /// Whether the first stream should be polled again.
    pub fn wants_left(&self) -> (b: bool)
        ensures
            b == (self.left_items().len() < POLL_BATCH_LIMIT),
    {
        self.left.len() < POLL_BATCH_LIMIT
    }

    /// Whether the second stream should be polled again.
    pub fn wants_right(&self) -> (b: bool)
        ensures
            b == (self.right_items().len() < POLL_BATCH_LIMIT),
    {
        self.right.len() < POLL_BATCH_LIMIT
    }

    /// Adds an item that the first stream yielded.
    pub fn push_left(&mut self, item: A)
        ensures
            final(self).left_items() == old(self).left_items().push(item),
            final(self).right_items() == old(self).right_items(),
    {
        self.left.push(item);
    }

    /// Adds an item that the second stream yielded.
    pub fn push_right(&mut self, item: B)
        ensures
            final(self).left_items() == old(self).left_items(),
            final(self).right_items() == old(self).right_items().push(item),
    {
        self.right.push(item);
    }

    /// The batch, or `None` where neither stream had anything ready (the poll is
    /// then pending).
    pub fn finish(self) -> (r: Option<(Vec<A>, Vec<B>)>)
        ensures
            match r {
                Some((l, rr)) => l@ == self.left_items() && rr@ == self.right_items()
                    && (l@.len() > 0 || rr@.len() > 0),
                None => self.left_items().len() == 0 && self.right_items().len() == 0,
            },
    {
        if self.left.len() == 0 && self.right.len() == 0 {
            None
        } else {
            Some((self.left, self.right))
        }
    }
}

} // verus!
