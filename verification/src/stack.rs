use vstd::prelude::*;

verus! {

/// A last-in, first-out container with a fixed capacity: a push onto a full
/// stack is turned away instead of growing it.
#[derive(Debug)]
pub struct Stack<I> {
    capacity: usize,
    items: Vec<I>,
}

impl<I> View for Stack<I> {
    type V = Seq<I>;

    /// The items, bottom first.
    closed spec fn view(&self) -> Seq<I> {
        self.items@
    }
}

impl<I> Stack<I> {
    /// How many items the stack will accept at most.
    pub closed spec fn spec_capacity(self) -> usize {
        self.capacity
    }

    /// An empty stack that will hold at most `capacity` items.
    pub fn of(capacity: usize) -> (r: Self)
        ensures
            r@ == Seq::<I>::empty(),
            r.spec_capacity() == capacity,
    {
        Stack { capacity, items: Vec::with_capacity(capacity) }
    }

    pub fn is_empty(&self) -> (r: bool)
        ensures
            r <==> self@.len() == 0,
    {
        self.items.is_empty()
    }

    /// The top item, the one a pop would remove.
    pub fn peek(&self) -> (r: Option<&I>)
        ensures
            match r {
                Some(item) => self@.len() > 0 && *item == self@.last(),
                None => self@.len() == 0,
            },
    {
        if self.items.len() == 0 {
            None
        } else {
            Some(&self.items[self.items.len() - 1])
        }
    }

    /// Removes and returns the top item; on an empty stack, nothing.
    pub fn pop(&mut self) -> (r: Option<I>)
        ensures
            final(self).spec_capacity() == old(self).spec_capacity(),
            old(self)@.len() == 0 ==> r is None && final(self)@ == old(self)@,
            old(self)@.len() > 0 ==> r == Some(old(self)@.last())
                && final(self)@ == old(self)@.drop_last(),
    {
        self.items.pop()
    }

    /// Puts `item` on top and reports whether there was room: a stack already
    /// filled to its capacity turns the item away unchanged.
    pub fn push(&mut self, item: I) -> (r: bool)
        ensures
            final(self).spec_capacity() == old(self).spec_capacity(),
            old(self)@.len() == old(self).spec_capacity() ==> r == false
                && final(self)@ == old(self)@,
            old(self)@.len() != old(self).spec_capacity() ==> r == true
                && final(self)@ == old(self)@.push(item),
    {
        if self.items.len() == self.capacity {
            return false;
        }
        self.items.push(item);
        true
    }

    pub fn size(&self) -> (r: usize)
        ensures
            r == self@.len(),
    {
        self.items.len()
    }
}

impl<I> Default for Stack<I> {
    /// As `of(128)`.
    fn default() -> (r: Self)
        ensures
            r@ == Seq::<I>::empty(),
            r.spec_capacity() == 128,
    {
        Stack::of(128usize)
    }
}

} // verus!
