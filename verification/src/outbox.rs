//! An ordered queue of values that wait to be sent by whoever owns the channel.

use vstd::prelude::*;

verus! {

/// Values in the order they were sent, and whether the receiving end still listens.
#[derive(Debug)]
pub struct Outbox<T> {
    items: Vec<T>,
    open: bool,
}

/// The mathematical value of an [`Outbox`].
#[verifier::ext_equal]
pub struct OutboxView<T> {
    pub items: Seq<T>,
    pub open: bool,
}

impl<T> OutboxView<T> {
    /// With `item` sent, where the receiving end listens.
    pub open spec fn send(self, item: T) -> OutboxView<T> {
        if self.open {
            OutboxView { items: self.items.push(item), open: true }
        } else {
            self
        }
    }
}

impl<T> View for Outbox<T> {
    type V = OutboxView<T>;

    closed spec fn view(&self) -> OutboxView<T> {
        OutboxView { items: self.items@, open: self.open }
    }
}

impl<T> Outbox<T> {
    /// An open outbox with nothing in it.
    pub fn new() -> (outbox: Self)
        ensures
            outbox@ == (OutboxView::<T> { items: Seq::empty(), open: true }),
    {
        Outbox { items: Vec::new(), open: true }
    }

    /// Queues `item`; false when the receiving end is gone, and then nothing is queued.
    pub fn send(&mut self, item: T) -> (sent: bool)
        ensures
            sent == old(self)@.open,
            final(self)@ == old(self)@.send(item),
    {
        if self.open {
            self.items.push(item);
            true
        } else {
            false
        }
    }

    /// Takes everything that was queued, oldest first.
    pub fn drain(&mut self) -> (items: Vec<T>)
        ensures
            items@ == old(self)@.items,
            final(self)@ == (OutboxView::<T> { items: Seq::empty(), open: old(self)@.open }),
    {
        let mut items: Vec<T> = Vec::new();
        std::mem::swap(&mut items, &mut self.items);
        items
    }

    /// Marks the receiving end as gone.
    pub fn close(&mut self)
        ensures
            final(self)@ == (OutboxView::<T> { items: old(self)@.items, open: false }),
    {
        self.open = false;
    }

    /// Whether the receiving end is gone.
    pub fn is_closed(&self) -> (closed: bool)
        ensures
            closed == !self@.open,
    {
        !self.open
    }

    /// What is queued, oldest first.
    pub fn items(&self) -> (items: &[T])
        ensures
            items@ == self@.items,
    {
        self.items.as_slice()
    }
}

} // verus!
