//! The event store: a capped log of every message sent through the bus.
use vstd::prelude::*;
use super::queue::Item;

verus! {

/// Log of messages, keeping at most `cap` of them.
#[derive(Debug)]
pub struct Store {
    /// Messages in the order recorded.
    pub items: Vec<Item>,
    /// Most messages kept.
    pub cap: usize,
    /// Padding.
    pub pad: [u8; 48],
}

impl Store {
    /// An empty log keeping at most `cap` messages.
    pub fn new(cap: usize) -> (r: Self)
        ensures
            r.items@.len() == 0,
            r.cap == cap,
    {
        Self { items: Vec::new(), cap, pad: [0; 48] }
    }

    /// Appends `item` unless the log is full.
    pub fn record(&mut self, item: Item)
        ensures
            final(self).cap == old(self).cap,
            old(self).items@.len() < old(self).cap ==> final(self).items@ == old(self).items@.push(item),
            old(self).items@.len() >= old(self).cap ==> final(self).items@ == old(self).items@,
    {
        if self.items.len() < self.cap {
            self.items.push(item);
        }
    }

    /// A copy of the log.
    pub fn fetch(&self) -> (r: Vec<Item>)
        ensures
            r@ == self.items@,
    {
        let mut out: Vec<Item> = Vec::new();
        let mut i: usize = 0;
        while i < self.items.len()
            invariant
                i <= self.items@.len(),
                out@ == self.items@.subrange(0, i as int),
            decreases self.items@.len() - i,
        {
            out.push(self.items[i].clone());
            i += 1;
        }
        assert(out@ =~= self.items@);
        out
    }

    /// Empties the log.
    pub fn clear(&mut self)
        ensures
            final(self).items@.len() == 0,
            final(self).cap == old(self).cap,
    {
        self.items.clear();
    }

    /// Number of messages logged.
    pub fn len(&self) -> (r: usize)
        ensures
            r == self.items@.len(),
    {
        self.items.len()
    }
}

} // verus!
