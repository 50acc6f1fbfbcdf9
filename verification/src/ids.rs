//! The allocation of object ids.

use vstd::prelude::*;
use crate::objects::Id;

verus! {

/// What the allocator keeps from one run to the next.
#[derive(Debug, Clone, Copy, PartialEq, Eq, Structural)]
pub struct AppDatabaseState {
    pub id_gen: u32,
}

impl Default for AppDatabaseState {
    fn default() -> (s: AppDatabaseState)
        ensures
            s.id_gen == 0,
    {
        AppDatabaseState { id_gen: 0 }
    }
}

/// The source of object ids: a counter that hands out its value and moves
/// on by one, and starts again at zero behind the largest id.
///
/// Within a run no id is handed out twice until the counter has gone
/// round. From one run to the next the counter goes by the state that was
/// kept last: ids handed out after that are not known to the next run, which
/// may hand them out again.
#[derive(Debug)]
pub struct IdAllocator {
    next: u32,
}

/// The `k`-th id handed out by an allocator that starts at `start`,
/// counted from zero.
pub open spec fn nth_id(start: u32, k: int) -> int {
    (start + k) % 0x1_0000_0000
}

/// Ids handed out one after the other differ, as long as there are no more
/// of them than there are ids.
pub proof fn lemma_ids_distinct(start: u32, a: int, b: int)
    requires
        0 <= a < b < 0x1_0000_0000,
    ensures
        nth_id(start, a) != nth_id(start, b),
        0 <= nth_id(start, a) < 0x1_0000_0000,
{
    let m = 0x1_0000_0000int;
    let x = start + a;
    let y = start + b;
    if x % m == y % m {
        assert(x == m * (x / m) + x % m) by (nonlinear_arith)
            requires
                m > 0,
        ;
        assert(y == m * (y / m) + y % m) by (nonlinear_arith)
            requires
                m > 0,
        ;
        assert(y - x == m * (y / m - x / m)) by (nonlinear_arith)
            requires
                x == m * (x / m) + x % m,
                y == m * (y / m) + y % m,
                x % m == y % m,
        ;
        let d = y / m - x / m;
        assert(d >= 1 ==> m * d >= m) by (nonlinear_arith)
            requires
                m > 0,
        ;
        assert(d <= 0 ==> m * d <= 0) by (nonlinear_arith)
            requires
                m > 0,
        ;
    }
}

/// Counting on from the `k`-th id gives the ids that follow it.
pub proof fn lemma_nth_id_step(start: u32, k: int, j: int)
    requires
        0 <= k,
        0 <= j,
    ensures
        0 <= nth_id(start, k) < 0x1_0000_0000,
        nth_id(nth_id(start, k) as u32, j) == nth_id(start, k + j),
{
    let m = 0x1_0000_0000int;
    let x = start + k;
    assert(x == m * (x / m) + x % m) by (nonlinear_arith)
        requires
            m > 0,
    ;
    assert(0 <= x % m < m) by (nonlinear_arith)
        requires
            m > 0,
            x >= 0,
    ;
    let r = x % m;
    assert((r + j) % m == (x + j) % m) by {
        vstd::arithmetic::div_mod::lemma_mod_multiples_vanish(x / m, r + j, m);
        assert(m * (x / m) + (r + j) == x + j);
    }
}

impl IdAllocator {
    /// The id that the allocator hands out next.
    pub closed spec fn next_id(self) -> Id {
        self.next
    }

    /// An allocator that starts at zero.
    pub fn new() -> (a: IdAllocator)
        ensures
            a.next_id() == 0,
    {
        IdAllocator { next: 0 }
    }

    /// An allocator that goes on where an earlier one stood when `state`
    /// was taken from it.
    pub fn restored(state: AppDatabaseState) -> (a: IdAllocator)
        ensures
            a.next_id() == state.id_gen,
    {
        IdAllocator { next: state.id_gen }
    }

    /// Hands out an id. The next one is larger by one, or zero behind the
    /// largest id.
    pub fn new_id(&mut self) -> (id: Id)
        ensures
            id == old(self).next_id(),
            final(self).next_id() == nth_id(old(self).next_id(), 1),
    {
        let id = self.next;
        self.next = if id == u32::MAX {
            0
        } else {
            id + 1
        };
        id
    }

    /// What is to be kept for the next run.
    pub fn get_state(&self) -> (s: AppDatabaseState)
        ensures
            s.id_gen == self.next_id(),
    {
        AppDatabaseState { id_gen: self.next }
    }

    /// Goes on where an earlier allocator stood when `state` was taken from
    /// it.
    pub fn update_state(&mut self, state: AppDatabaseState)
        ensures
            final(self).next_id() == state.id_gen,
    {
        self.next = state.id_gen;
    }
}

} // verus!
