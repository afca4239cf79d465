//! The transaction slot table: open transactions addressed by small integer
//! handles, with freed slots reused lowest index first.
use vstd::prelude::*;

verus! {

/// Index of the first empty slot of `s`, or `s.len()` when every slot is taken.
pub open spec fn first_empty<T>(s: Seq<Option<T>>) -> int
    decreases s.len(),
{
    if s.len() == 0 {
        0
    } else if s[0] is None {
        0
    } else {
        1 + first_empty(s.subrange(1, s.len() as int))
    }
}

/// What `begin` does to the slots: the transaction lands in the first empty
/// slot, or in a new slot at the end.
pub open spec fn occupy<T>(s: Seq<Option<T>>, t: T) -> Seq<Option<T>> {
    if first_empty(s) < s.len() {
        s.update(first_empty(s), Some(t))
    } else {
        s.push(Some(t))
    }
}

/// What a handle names in the table.
#[derive(Debug, Clone, Copy, PartialEq, Eq, Structural)]
pub enum HandleState {
    /// The handle names an open transaction.
    Open,
    /// The handle is past the end of the table: it was never issued.
    OutOfRange,
    /// The handle's slot is empty: its transaction was committed or rolled back.
    Closed,
}

/// A growable table of optional open transactions, indexed by handle.
pub struct SlotTable<T> {
    pub slots: Vec<Option<T>>,
}

impl<T> View for SlotTable<T> {
    type V = Seq<Option<T>>;

    open spec fn view(&self) -> Seq<Option<T>> {
        self.slots@
    }
}

impl<T> SlotTable<T> {
    /// Whether handle `h` names an open transaction.
    pub open spec fn is_open(&self, h: int) -> bool {
        0 <= h < self@.len() && self@[h] is Some
    }

    pub fn new() -> (r: Self)
        ensures
            r@ == Seq::<Option<T>>::empty(),
    {
        SlotTable { slots: Vec::new() }
    }

    pub fn len(&self) -> (r: usize)
        ensures
            r == self@.len(),
    {
        self.slots.len()
    }

    /// Whether handle `h` names an open transaction.
    pub fn is_handle_open(&self, h: usize) -> (r: bool)
        ensures
            r == self.is_open(h as int),
    {
        h < self.slots.len() && self.slots[h].is_some()
    }

    /// What handle `h` names. Only an `Open` handle may be used; the other two
    /// are caller misuse, to be refused before any work is done.
    pub fn handle_state(&self, h: usize) -> (r: HandleState)
        ensures
            r == HandleState::Open <==> self.is_open(h as int),
            r == HandleState::OutOfRange <==> h >= self@.len(),
            r == HandleState::Closed <==> h < self@.len() && self@[h as int] is None,
    {
        if h >= self.slots.len() {
            HandleState::OutOfRange
        } else if self.slots[h].is_none() {
            HandleState::Closed
        } else {
            HandleState::Open
        }
    }

    /// Stores a freshly opened transaction in the first empty slot, or in a new
    /// slot at the end when none is empty, and returns its handle.
    pub fn begin(&mut self, t: T) -> (h: usize)
        requires
            old(self)@.len() < usize::MAX,
        ensures
            h as int == first_empty(old(self)@),
            final(self)@ == occupy(old(self)@, t),
            final(self).is_open(h as int),
    {
        let n = self.slots.len();
        let mut i: usize = 0;
        while i < n
            invariant
                n == self.slots@.len(),
                self.slots@ == old(self)@,
                0 <= i <= n,
                forall|j: int| 0 <= j < i ==> self.slots@[j] is Some,
            decreases n - i,
        {
            if self.slots[i].is_none() {
                proof {
                    lemma_first_empty_at(self.slots@, i as int);
                }
                self.slots[i] = Some(t);
                return i;
            }
            i = i + 1;
        }
        proof {
            lemma_first_empty_full(self.slots@);
        }
        self.slots.push(Some(t));
        n
    }

    /// The open transaction under handle `h`, lent out for one operation.
    pub fn transaction_mut(&mut self, h: usize) -> (t: &mut T)
        requires
            old(self).is_open(h as int),
        ensures
            old(self)@[h as int] == Some(*t),
            final(self)@ == old(self)@.update(h as int, Some(*final(t))),
    {
        match &mut self.slots[h] {
            Some(t) => t,
            None => vstd::pervasive::unreached(),
        }
    }

    /// Removes the open transaction under handle `h`, leaving its slot empty
    /// for reuse, and hands it back for its commit or rollback.
    pub fn retire(&mut self, h: usize) -> (t: T)
        requires
            old(self).is_open(h as int),
        ensures
            old(self)@[h as int] == Some(t),
            final(self)@ == old(self)@.update(h as int, None),
    {
        let mut slot: Option<T> = None;
        std::mem::swap(&mut slot, &mut self.slots[h]);
        match slot {
            Some(t) => t,
            None => vstd::pervasive::unreached(),
        }
    }
}

/// On a table with no slots, `begin` hands out handle 0; and once the
/// transaction in slot 0 is retired, the next `begin` hands out 0 again.
pub proof fn lemma_lowest_slot_reused<T>(s: Seq<Option<T>>, t: T)
    ensures
        first_empty(Seq::<Option<T>>::empty()) == 0,
        s.len() > 0 ==> first_empty(s.update(0, None)) == 0,
        first_empty(occupy(Seq::<Option<T>>::empty(), t).update(0, None)) == 0,
{
}

/// Two `begin` calls in a row, with no retirement between them, never hand out
/// the same handle: afterwards both handles are open, each on the transaction
/// its call stored.
pub proof fn lemma_begin_handles_distinct<T>(s: Seq<Option<T>>, t1: T, t2: T)
    ensures
        first_empty(occupy(s, t1)) != first_empty(s),
        occupy(occupy(s, t1), t2)[first_empty(s)] == Some(t1),
        occupy(occupy(s, t1), t2)[first_empty(occupy(s, t1))] == Some(t2),
{
    lemma_first_empty_bounds(s);
    let h = first_empty(s);
    let s1 = occupy(s, t1);
    lemma_first_empty_bounds(s1);
    if first_empty(s1) == h {
        lemma_first_empty_is_empty(s1);
    }
    if h < s.len() {
        lemma_first_empty_is_empty(s);
    }
}

/// A retired handle names no open transaction: `handle_state` reports it
/// `Closed`, and the `requires` of `transaction_mut` and `retire` refuse it,
/// so a statement sent on it can never quietly do nothing.
pub proof fn lemma_retired_handle_closed<T>(before: SlotTable<T>, after: SlotTable<T>, h: int)
    requires
        before.is_open(h),
        after@ == before@.update(h, None),
    ensures
        !after.is_open(h),
        h < after@.len() && after@[h] is None,
{
}

proof fn lemma_first_empty_bounds<T>(s: Seq<Option<T>>)
    ensures
        0 <= first_empty(s) <= s.len(),
        forall|j: int| 0 <= j < first_empty(s) ==> s[j] is Some,
    decreases s.len(),
{
    if s.len() > 0 && s[0] is Some {
        let r = s.subrange(1, s.len() as int);
        lemma_first_empty_bounds(r);
        assert forall|j: int| 0 <= j < first_empty(s) implies s[j] is Some by {
            if j > 0 {
                assert(s[j] == r[j - 1]);
            }
        }
    }
}

proof fn lemma_first_empty_is_empty<T>(s: Seq<Option<T>>)
    requires
        first_empty(s) < s.len(),
    ensures
        0 <= first_empty(s),
        s[first_empty(s)] is None,
    decreases s.len(),
{
    lemma_first_empty_bounds(s);
    if s.len() > 0 && s[0] is Some {
        let r = s.subrange(1, s.len() as int);
        lemma_first_empty_bounds(r);
        lemma_first_empty_is_empty(r);
        assert(s[first_empty(s)] == r[first_empty(r)]);
    }
}

proof fn lemma_first_empty_at<T>(s: Seq<Option<T>>, i: int)
    requires
        0 <= i < s.len(),
        s[i] is None,
        forall|j: int| 0 <= j < i ==> s[j] is Some,
    ensures
        first_empty(s) == i,
    decreases i,
{
    if i > 0 {
        lemma_first_empty_at(s.subrange(1, s.len() as int), i - 1);
    }
}

proof fn lemma_first_empty_full<T>(s: Seq<Option<T>>)
    requires
        forall|j: int| 0 <= j < s.len() ==> s[j] is Some,
    ensures
        first_empty(s) == s.len(),
    decreases s.len(),
{
    if s.len() > 0 {
        lemma_first_empty_full(s.subrange(1, s.len() as int));
    }
}

} // verus!
