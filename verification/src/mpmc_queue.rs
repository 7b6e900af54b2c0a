use vstd::prelude::*;
use std::collections::VecDeque;

verus! {

/// A first-in, first-out queue of work items. Producers push at the back,
/// consumers pop at the front; the blocking and the sharing between threads
/// are the caller's.
pub struct MpmcQueue<T> {
    data: VecDeque<T>,
}

impl<T> View for MpmcQueue<T> {
    type V = Seq<T>;

    closed spec fn view(&self) -> Seq<T> {
        self.data@
    }
}

impl<T> MpmcQueue<T> {
    pub fn new() -> (r: MpmcQueue<T>)
        ensures
            r@ == Seq::<T>::empty(),
    {
        MpmcQueue { data: VecDeque::new() }
    }

    /// Takes the oldest item, if there is one.
    pub fn pop(&mut self) -> (r: Option<T>)
        ensures
            old(self)@.len() == 0 ==> r is None && final(self)@ == old(self)@,
            old(self)@.len() > 0 ==> r == Some(old(self)@[0]) && final(self)@ == old(self)@.drop_first(),
    {
        self.data.pop_front()
    }

    /// Adds an item after all the others.
    pub fn push(&mut self, element: T)
        ensures
            final(self)@ == old(self)@.push(element),
    {
        self.data.push_back(element);
    }

    /// How many items wait.
    pub fn len(&self) -> (r: usize)
        ensures
            r == self@.len(),
    {
        self.data.len()
    }

    /// Whether no item waits.
    pub fn is_empty(&self) -> (r: bool)
        ensures
            r == (self@.len() == 0),
    {
        self.data.len() == 0
    }
}

/// First in, first out: pushing `x` then `y` on an empty queue and popping
/// twice gives `x`, then `y`; more generally a pop takes the front of what
/// the pushes appended.
pub proof fn lemma_fifo<T>(items: Seq<T>, x: T)
    ensures
        items.push(x).len() > 0,
        items.len() == 0 ==> items.push(x)[0] == x && items.push(x).drop_first() == Seq::<T>::empty(),
        items.len() > 0 ==> items.push(x)[0] == items[0] && items.push(x).drop_first() == items.drop_first().push(x),
{
    if items.len() > 0 {
        assert(items.push(x).drop_first() =~= items.drop_first().push(x));
    } else {
        assert(items.push(x).drop_first() =~= Seq::<T>::empty());
    }
}

} // verus!
