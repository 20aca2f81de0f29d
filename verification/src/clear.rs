//! What a clear of the screen does to what was drawn: things drawn before the
//! clear are hidden for as long as they are kept alive, then despawned.

use vstd::prelude::*;

verus! {

/// Counts draws; it wraps around, and notes when it passes zero.
#[derive(Debug)]
pub struct DrawCounter {
    pub counter: usize,
    pub overflowed: bool,
}

impl DrawCounter {
    /// A counter that starts at `initial`.
    pub fn new(initial: usize) -> (r: DrawCounter)
        ensures
            r.counter == initial,
            !r.overflowed,
    {
        DrawCounter { counter: initial, overflowed: false }
    }

    /// A counter that starts at 1.
    pub fn default() -> (r: DrawCounter)
        ensures
            r.counter == 1,
            !r.overflowed,
    {
        DrawCounter::new(1)
    }

    /// Count a draw: the count before it, which is zero only when the counter
    /// has wrapped around (or started at zero), and then it is noted.
    pub fn increment(&mut self) -> (r: usize)
        ensures
            r == old(self).counter,
            final(self).counter == if old(self).counter == usize::MAX {
                0
            } else {
                old(self).counter + 1
            },
            final(self).overflowed == (old(self).overflowed || r == 0),
    {
        let r = self.counter;
        self.counter = self.counter.wrapping_add(1);
        if r == 0 {
            self.overflowed = true;
        }
        r
    }

    /// Has the counter passed zero since the note was last reset?
    pub fn overflowed(&self) -> (r: bool)
        ensures
            r == self.overflowed,
    {
        self.overflowed
    }

    /// Reset the note of passing zero.
    pub fn reset_overflowed(&mut self)
        ensures
            !final(self).overflowed,
            final(self).counter == old(self).counter,
    {
        self.overflowed = false;
    }

    /// The count.
    pub fn get(&self) -> (r: usize)
        ensures
            r == self.counter,
    {
        self.counter
    }

    /// Set the count.
    pub fn set(&mut self, value: usize)
        ensures
            final(self).counter == value,
            final(self).overflowed == old(self).overflowed,
    {
        self.counter = value;
    }
}

/// Something drawn that a clear removes: when it was drawn, how many clears
/// it survives hidden, and the hash it is cached by.
#[derive(Debug, Clone, Copy, PartialEq, Eq, Structural)]
pub struct Clearable {
    pub draw_count: usize,
    pub time_to_live: u8,
    pub hash: Option<u64>,
}

impl Clearable {
    /// Something drawn now that survives `time_to_live` clears.
    pub fn new(time_to_live: u8, counter: &mut DrawCounter) -> (r: Clearable)
        ensures
            r.draw_count == old(counter).counter,
            r.time_to_live == time_to_live,
            r.hash is None,
            final(counter).counter == if old(counter).counter == usize::MAX {
                0
            } else {
                old(counter).counter + 1
            },
            final(counter).overflowed == (old(counter).overflowed || old(counter).counter == 0),
    {
        Clearable { draw_count: counter.increment(), time_to_live, hash: None }
    }

    /// This, cached by `hash`.
    pub fn with_hash(self, hash: u64) -> (r: Clearable)
        ensures
            r == (Clearable { hash: Some(hash), ..self }),
    {
        Clearable { hash: Some(hash), ..self }
    }

    /// Drawn again now.
    pub fn update(&mut self, counter: &mut DrawCounter)
        ensures
            final(self).draw_count == old(counter).counter,
            final(self).time_to_live == old(self).time_to_live,
            final(self).hash == old(self).hash,
            final(counter).counter == if old(counter).counter == usize::MAX {
                0
            } else {
                old(counter).counter + 1
            },
            final(counter).overflowed == (old(counter).overflowed || old(counter).counter == 0),
    {
        self.draw_count = counter.increment();
    }
}

/// What a clear does to one drawn thing.
#[derive(Debug, Clone, Copy, PartialEq, Eq, Structural)]
pub enum ClearAction {
    /// It is gone.
    Despawn,
    /// It is hidden, and survives one clear fewer.
    Hide { time_to_live: u8 },
    /// It was drawn after the clear and stays; its draw count restarts.
    Keep,
}

/// What a clear that came at draw `ceiling` does to `c`.
pub open spec fn clear_action(c: Clearable, ceiling: usize) -> ClearAction {
    if c.draw_count < ceiling {
        if c.time_to_live == 0 {
            ClearAction::Despawn
        } else {
            ClearAction::Hide { time_to_live: (c.time_to_live - 1) as u8 }
        }
    } else {
        ClearAction::Keep
    }
}

/// The latest of the clears of a frame, if there were any.
pub fn latest_clear(ceilings: &[usize]) -> (r: Option<usize>)
    ensures
        ceilings@.len() == 0 ==> r is None,
        ceilings@.len() > 0 ==> (r matches Some(m) && ceilings@.contains(m) && forall|i: int|
            0 <= i < ceilings@.len() ==> ceilings@[i] <= m),
{
    if ceilings.len() == 0 {
        return None;
    }
    let mut m = ceilings[0];
    let mut i: usize = 1;
    while i < ceilings.len()
        invariant
            1 <= i <= ceilings@.len(),
            ceilings@.contains(m),
            forall|j: int| 0 <= j < i ==> ceilings@[j] <= m,
        decreases ceilings@.len() - i,
    {
        if ceilings[i] > m {
            m = ceilings[i];
        }
        i = i + 1;
    }
    Some(m)
}

/// What a clear that came at draw `ceiling` does to each drawn thing.
pub fn clear_plan(drawn: &[Clearable], ceiling: usize) -> (r: Vec<ClearAction>)
    ensures
        r@.len() == drawn@.len(),
        forall|i: int| 0 <= i < drawn@.len() ==> #[trigger] r@[i] == clear_action(drawn@[i], ceiling),
{
    let mut out: Vec<ClearAction> = Vec::new();
    let mut i: usize = 0;
    while i < drawn.len()
        invariant
            i <= drawn@.len(),
            out@.len() == i,
            forall|j: int| 0 <= j < i ==> #[trigger] out@[j] == clear_action(drawn@[j], ceiling),
        decreases drawn@.len() - i,
    {
        let c = drawn[i];
        let a = if c.draw_count < ceiling {
            if c.time_to_live == 0 {
                ClearAction::Despawn
            } else {
                ClearAction::Hide { time_to_live: c.time_to_live - 1 }
            }
        } else {
            ClearAction::Keep
        };
        out.push(a);
        i = i + 1;
    }
    out
}

/// A thing drawn before a clear is never kept by it, and one drawn after it always is.
pub proof fn lemma_clear_keeps_only_later_draws(c: Clearable, ceiling: usize)
    ensures
        (clear_action(c, ceiling) == ClearAction::Keep) <==> c.draw_count >= ceiling,
        c.draw_count < ceiling && c.time_to_live > 0 ==> (clear_action(c, ceiling) matches ClearAction::Hide { time_to_live } && time_to_live < c.time_to_live),
{
}

} // verus!
