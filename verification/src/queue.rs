use vstd::prelude::*;

verus! {

/// A first-in, first-out container.
#[derive(Debug)]
pub struct Queue<T> {
    items: Vec<T>,
}

impl<T> View for Queue<T> {
    type V = Seq<T>;

    /// The items, oldest first.
    closed spec fn view(&self) -> Seq<T> {
        self.items@
    }
}

impl<T> Queue<T> {
    /// A queue holding nothing.
    pub fn new() -> (r: Self)
        ensures
            r@ == Seq::<T>::empty(),
    {
        Queue { items: Vec::new() }
    }

    pub fn is_empty(&self) -> (r: bool)
        ensures
            r <==> self@.len() == 0,
    {
        self.items.is_empty()
    }

    /// Appends `item` at the back.
    pub fn enqueue(&mut self, item: T)
        ensures
            final(self)@ == old(self)@.push(item),
    {
        self.items.push(item);
    }

    /// Removes and returns the oldest item; on an empty queue, nothing.
    pub fn dequeue(&mut self) -> (r: Option<T>)
        ensures
            old(self)@.len() == 0 ==> r is None && final(self)@ == old(self)@,
            old(self)@.len() > 0 ==> r == Some(old(self)@[0])
                && final(self)@ == old(self)@.remove(0),
    {
        match self.is_empty() {
            false => Some(self.items.remove(0)),
            true => None,
        }
    }

    /// The oldest item, the one a dequeue would remove.
    pub fn peek(&self) -> (r: Option<&T>)
        ensures
            match r {
                Some(item) => self@.len() > 0 && *item == self@[0],
                None => self@.len() == 0,
            },
    {
        if self.items.len() == 0 {
            None
        } else {
            Some(&self.items[0])
        }
    }

    pub fn size(&self) -> (r: usize)
        ensures
            r == self@.len(),
    {
        self.items.len()
    }
}

impl<T> Default for Queue<T> {
    /// As `new`: a queue holding nothing.
    fn default() -> (r: Self)
        ensures
            r@ == Seq::<T>::empty(),
    {
        Queue::new()
    }
}

} // verus!
