use vstd::prelude::*;

verus! {

/// The capacity of a unit's activation history.
pub const HISTORY_CAPACITY: usize = 100;

/// A bounded first-in first-out buffer: once full, each insertion evicts
/// the oldest entry first.
pub struct History<T> {
    items: Vec<T>,
    capacity: usize,
}

impl<T> History<T> {
    /// The entries, oldest first.
    pub closed spec fn view(&self) -> Seq<T> {
        self.items@
    }

    pub closed spec fn cap(&self) -> nat {
        self.capacity as nat
    }

    pub closed spec fn wf(&self) -> bool {
        self.items@.len() <= self.capacity
    }

    /// An empty history that keeps at most `capacity` entries.
    pub fn with_capacity(capacity: usize) -> (r: Self)
        ensures
            r.wf(),
            r@ == Seq::<T>::empty(),
            r.cap() == capacity,
    {
        History { items: Vec::new(), capacity }
    }

    /// An empty history of the capacity used for activation histories.
    pub fn new() -> (r: Self)
        ensures
            r.wf(),
            r@ == Seq::<T>::empty(),
            r.cap() == HISTORY_CAPACITY,
    {
        Self::with_capacity(HISTORY_CAPACITY)
    }

    pub fn capacity(&self) -> (r: usize)
        ensures
            r == self.cap(),
    {
        self.capacity
    }

    pub fn len(&self) -> (r: usize)
        requires
            self.wf(),
        ensures
            r == self@.len(),
            r <= self.cap(),
    {
        self.items.len()
    }

    pub fn is_empty(&self) -> (r: bool)
        ensures
            r == (self@.len() == 0),
    {
        self.items.len() == 0
    }

    /// The entry at position `i`, counted from the oldest.
    pub fn get(&self, i: usize) -> (r: &T)
        requires
            i < self@.len(),
        ensures
            *r == self@[i as int],
    {
        &self.items[i]
    }

    /// The newest entry, if any.
    pub fn last(&self) -> (r: Option<&T>)
        ensures
            self@.len() == 0 ==> r.is_none(),
            self@.len() > 0 ==> r == Some(&self@.last()),
    {
        let n = self.items.len();
        if n == 0 {
            None
        } else {
            Some(&self.items[n - 1])
        }
    }

    /// Appends `x` as the newest entry, first dropping the oldest entry when the
    /// history is full. A history of capacity zero keeps nothing.
    pub fn push(&mut self, x: T)
        requires
            old(self).wf(),
        ensures
            final(self).wf(),
            final(self).cap() == old(self).cap(),
            final(self)@.len() <= final(self).cap(),
            final(self)@ == pushed(old(self)@, x, old(self).cap()),
    {
        if self.capacity == 0 {
            return;
        }
        if self.items.len() >= self.capacity {
            self.items.remove(0);
        }
        self.items.push(x);
    }
}

/// What a history of capacity `cap` holds after `x` is appended to `s`.
pub open spec fn pushed<T>(s: Seq<T>, x: T, cap: nat) -> Seq<T> {
    if cap == 0 {
        s
    } else if s.len() >= cap {
        s.drop_first().push(x)
    } else {
        s.push(x)
    }
}

/// What a history of capacity `cap` holding `s` holds after each of `xs` is
/// appended, in order.
pub open spec fn pushed_all<T>(s: Seq<T>, xs: Seq<T>, cap: nat) -> Seq<T>
    decreases xs.len(),
{
    if xs.len() == 0 {
        s
    } else {
        pushed(pushed_all(s, xs.drop_last(), cap), xs.last(), cap)
    }
}

/// However many entries are appended, a history never holds more than its
/// capacity, and once it has been filled it stays full.
pub proof fn lemma_history_bounded<T>(s: Seq<T>, xs: Seq<T>, cap: nat)
    requires
        s.len() <= cap,
    ensures
        pushed_all(s, xs, cap).len() <= cap,
        cap > 0 && s.len() + xs.len() >= cap ==> pushed_all(s, xs, cap).len() == cap,
        s.len() + xs.len() <= cap ==> pushed_all(s, xs, cap) == s + xs,
    decreases xs.len(),
{
    if xs.len() > 0 {
        lemma_history_bounded(s, xs.drop_last(), cap);
        if s.len() + xs.len() <= cap {
            assert(s + xs =~= (s + xs.drop_last()).push(xs.last()));
        }
    } else {
        assert(s + xs =~= s);
    }
}

} // verus!
