//! The history ring buffer: the last few machine states, for rewinding.
//!
//! To the outside a buffer is the sequence of snapshots that can still be
//! restored, oldest first, and a capacity that bounds it. Inside it is a
//! slot array with a write pointer and a depth counter.

use crate::numeral::{parsed_usize, usize_from_str_radix};
use vstd::prelude::*;

verus! {

/// The newest `capacity` of `all`, or all of them where there are fewer.
pub open spec fn newest<T>(all: Seq<T>, capacity: nat) -> Seq<T> {
    if all.len() <= capacity {
        all
    } else {
        all.skip(all.len() - capacity)
    }
}

/// The history after `snapshot` is recorded: the new snapshot comes last,
/// and where that makes more than `capacity`, the oldest leave.
pub open spec fn pushed<T>(history: Seq<T>, capacity: nat, snapshot: T) -> Seq<T> {
    newest(history.push(snapshot), capacity)
}

/// The history after each of `snapshots` is recorded in turn.
pub open spec fn pushed_all<T>(history: Seq<T>, capacity: nat, snapshots: Seq<T>) -> Seq<T>
    decreases snapshots.len(),
{
    if snapshots.len() == 0 {
        history
    } else {
        pushed(pushed_all(history, capacity, snapshots.drop_last()), capacity, snapshots.last())
    }
}

/// Whether `n` instructions can be undone: at least one, and no more than
/// the history holds.
pub open spec fn can_undo<T>(history: Seq<T>, n: nat) -> bool {
    1 <= n <= history.len()
}

/// The snapshot that undoing `n` instructions restores: the state from just
/// before the `n`-th most recent one.
pub open spec fn restored<T>(history: Seq<T>, n: nat) -> T {
    history[history.len() - n]
}

/// The history that undoing `n` instructions leaves: the restored snapshot
/// and all later ones are gone.
pub open spec fn undone<T>(history: Seq<T>, n: nat) -> Seq<T> {
    history.take(history.len() - n)
}

/// The history after `n` single undos.
pub open spec fn undone_one_by_one<T>(history: Seq<T>, n: nat) -> Seq<T>
    decreases n,
{
    if n == 0 {
        history
    } else {
        undone(undone_one_by_one(history, (n - 1) as nat), 1)
    }
}

/// The slot that holds the `k`-th oldest of `depth` snapshots, in an array
/// of `len` slots whose write pointer stands at `ptr`.
pub open spec fn slot_of(ptr: int, depth: int, len: int, k: int) -> int {
    let i = ptr - depth + k;
    if i >= 0 {
        i
    } else {
        i + len
    }
}

/// A fixed-capacity ring of snapshots.
pub struct UndoBuffer<T> {
    buf: Vec<Option<T>>,
    capacity: usize,
    size: usize,
    ptr: usize,
}

impl<T> View for UndoBuffer<T> {
    type V = Seq<T>;

    /// The snapshots that can be restored, oldest first.
    closed spec fn view(&self) -> Seq<T> {
        Seq::new(
            self.size as nat,
            |k: int| self.buf@[slot_of(self.ptr as int, self.size as int, self.buf@.len() as int, k)]->0,
        )
    }
}

impl<T> UndoBuffer<T> {
    /// The representation invariant: the slot array has not outgrown the
    /// capacity, the write pointer stands inside it, and each of the `size`
    /// slots behind the pointer holds a snapshot.
    pub closed spec fn wf(&self) -> bool {
        &&& self.buf@.len() <= self.capacity
        &&& self.ptr <= self.buf@.len()
        &&& (self.capacity > 0 ==> self.ptr < self.capacity)
        &&& self.size <= self.buf@.len()
        &&& (self.buf@.len() < self.capacity ==> self.size <= self.ptr)
        &&& forall|k: int|
            0 <= k < self.size ==> self.buf@[#[trigger] slot_of(
                self.ptr as int,
                self.size as int,
                self.buf@.len() as int,
                k,
            )] is Some
    }

    /// The number of snapshots the buffer can hold.
    pub closed spec fn spec_capacity(&self) -> usize {
        self.capacity
    }

    /// A well-formed buffer never holds more than its capacity.
    pub proof fn lemma_depth_bounded(&self)
        requires
            self.wf(),
        ensures
            self@.len() <= self.capacity(),
    {
    }

    /// An empty buffer for up to `size` snapshots.
    pub fn new(size: usize) -> (buffer: UndoBuffer<T>)
        ensures
            buffer.wf(),
            buffer@ == Seq::<T>::empty(),
            buffer.capacity() == size,
    {
        let mut buf: Vec<Option<T>> = Vec::new();
        let _ = buf.try_reserve(size);
        UndoBuffer { buf, capacity: size, size: 0, ptr: 0 }
    }

    /// The number of snapshots the buffer can hold.
    #[verifier::when_used_as_spec(spec_capacity)]
    pub fn capacity(&self) -> (c: usize)
        ensures
            c == self.capacity(),
    {
        self.capacity
    }

    /// The number of instructions that can be undone now.
    pub fn depth(&self) -> (d: usize)
        ensures
            d == self@.len(),
    {
        self.size
    }

    /// Records `snapshot` as the newest state. A full buffer gives up its
    /// oldest snapshot for it; a buffer of capacity zero keeps nothing.
    pub fn push(&mut self, snapshot: T)
        requires
            old(self).wf(),
        ensures
            final(self).wf(),
            final(self).capacity() == old(self).capacity(),
            final(self)@ == pushed(old(self)@, old(self).capacity() as nat, snapshot),
            final(self)@.len() == if old(self)@.len() < old(self).capacity() {
                old(self)@.len() + 1
            } else {
                old(self).capacity() as nat
            },
    {
        if self.capacity == 0 {
            return ;
        }
        let ghost before = *self;
        let ghost len = self.buf@.len() as int;
        if self.buf.len() == self.ptr {
            self.buf.push(Some(snapshot));
        } else {
            self.buf[self.ptr] = Some(snapshot);
        }
        self.ptr += 1;
        if self.size < self.capacity {
            self.size += 1;
        }
        if self.ptr == self.capacity {
            self.ptr = 0;
        }
        proof {
            let p = before.ptr as int;
            let d = before.size as int;
            let now_len = self.buf@.len() as int;
            let now_p = self.ptr as int;
            let now_d = self.size as int;
            // Each slot of the new history is the slot written now or a slot of the old one.
            assert forall|k: int| 0 <= k < now_d implies {
                let slot = #[trigger] slot_of(now_p, now_d, now_len, k);
                if k == now_d - 1 {
                    slot == p
                } else if d < before.capacity {
                    slot == slot_of(p, d, len, k)
                } else {
                    slot == slot_of(p, d, len, k + 1)
                }
            } by {}
        }
    }

    /// Takes back the last `n` instructions: returns the machine state from
    /// just before the `n`-th most recent one and forgets it and all later
    /// snapshots.
    ///
    /// Fails, changing nothing, when `n` is zero or more than the depth;
    /// the error is the depth, which is the most that can be undone.
    pub fn undo(&mut self, n: usize) -> (r: Result<T, usize>)
        requires
            old(self).wf(),
        ensures
            final(self).wf(),
            final(self).capacity() == old(self).capacity(),
            match r {
                Ok(snapshot) => {
                    &&& can_undo(old(self)@, n as nat)
                    &&& snapshot == restored(old(self)@, n as nat)
                    &&& final(self)@ == undone(old(self)@, n as nat)
                },
                Err(depth) => {
                    &&& !can_undo(old(self)@, n as nat)
                    &&& depth == old(self)@.len()
                    &&& final(self)@ == old(self)@
                },
            },
    {
        if n == 0 || self.size < n {
            return Err(self.size);
        }
        let ghost before = *self;
        let ghost len = self.buf@.len() as int;
        let ghost p = self.ptr as int;
        let ghost d = self.size as int;
        assert(slot_of(p, d, len, d - n) == if p >= n {
            p - n
        } else {
            p + len - n
        });
        self.size -= n;
        self.ptr = if self.ptr >= n {
            self.ptr - n
        } else {
            self.buf.len() - (n - self.ptr)
        };
        let slot: Option<T> = self.buf[self.ptr].take();
        proof {
            let now_p = self.ptr as int;
            let now_d = self.size as int;
            // What stays keeps its slot, and none of them is the slot just emptied.
            assert forall|k: int| 0 <= k < now_d implies {
                let slot = #[trigger] slot_of(now_p, now_d, len, k);
                slot == slot_of(p, d, len, k) && slot != now_p
            } by {}
        }
        Ok(slot.unwrap())
    }

    /// Rewinds `machine` by `n` instructions: on success `machine` holds the
    /// state from just before the `n`-th most recent instruction. On failure
    /// neither the machine nor the buffer changes, and the error is the most
    /// that can be undone.
    pub fn undo_command(&mut self, machine: &mut T, n: usize) -> (r: Result<(), usize>)
        requires
            old(self).wf(),
        ensures
            final(self).wf(),
            final(self).capacity() == old(self).capacity(),
            match r {
                Ok(_) => {
                    &&& can_undo(old(self)@, n as nat)
                    &&& *final(machine) == restored(old(self)@, n as nat)
                    &&& final(self)@ == undone(old(self)@, n as nat)
                },
                Err(depth) => {
                    &&& !can_undo(old(self)@, n as nat)
                    &&& depth == old(self)@.len()
                    &&& *final(machine) == *old(machine)
                    &&& final(self)@ == old(self)@
                },
            },
    {
        match self.undo(n) {
            Ok(snapshot) => {
                *machine = snapshot;
                Ok(())
            },
            Err(depth) => Err(depth),
        }
    }
}

/// What configuring the history with `capacity` leaves, whatever history
/// `current` there was: none for capacity zero, else an empty buffer of
/// that capacity. No snapshot of `current` survives.
pub fn reconfigure<T>(current: Option<UndoBuffer<T>>, capacity: usize) -> (r: Option<UndoBuffer<T>>)
    ensures
        capacity == 0 <==> r is None,
        r matches Some(buffer) ==> buffer.wf() && buffer@ == Seq::<T>::empty() && buffer.capacity()
            == capacity,
{
    let _ = current;
    if capacity == 0 {
        None
    } else {
        Some(UndoBuffer::new(capacity))
    }
}

/// The number of instructions that an undo command asks for: one without
/// an argument, else the decimal number it holds.
pub open spec fn undo_count_of(body: Option<&str>) -> Option<usize> {
    match body {
        None => Some(1),
        Some(text) => parsed_usize(text@, 10),
    }
}

/// Reads the count of an undo command.
pub fn parse_undo_count(body: Option<&str>) -> (r: Result<usize, std::num::ParseIntError>)
    ensures
        match r {
            Ok(n) => undo_count_of(body) == Some(n),
            Err(_) => undo_count_of(body) is None,
        },
{
    match body {
        None => Ok(1),
        Some(text) => usize_from_str_radix(text, 10),
    }
}

/// Why the argument of a buffer command was refused.
#[derive(Debug)]
pub enum CapacityError {
    /// The command names no capacity.
    Missing,
    /// What it names is no number.
    Malformed(std::num::ParseIntError),
}

/// Reads the capacity of a buffer command: the non-negative decimal number
/// that its argument holds. Zero is a capacity; it asks for no buffer.
pub fn parse_capacity(body: Option<&str>) -> (r: Result<usize, CapacityError>)
    ensures
        match r {
            Ok(capacity) => body matches Some(text) && parsed_usize(text@, 10) == Some(capacity),
            Err(CapacityError::Missing) => body is None,
            Err(CapacityError::Malformed(_)) => body matches Some(text) && parsed_usize(text@, 10)
                is None,
        },
{
    match body {
        None => Err(CapacityError::Missing),
        Some(text) => match usize_from_str_radix(text, 10) {
            Ok(capacity) => Ok(capacity),
            Err(e) => Err(CapacityError::Malformed(e)),
        },
    }
}

/// The storage, in bytes, that a buffer of `capacity` slots commits when a
/// slot takes `slot_bytes`.
pub open spec fn committed_bytes(capacity: usize, slot_bytes: usize) -> nat {
    (capacity as nat) * (slot_bytes as nat)
}

/// The threshold above which a buffer is only allocated after the user has
/// confirmed it: 100 MiB.
pub const CONFIRM_ABOVE_BYTES: usize = 104_857_600;

/// Whether a buffer of `capacity` slots of `slot_bytes` each commits more
/// than `threshold` bytes, so that the user has to confirm it first.
pub fn needs_confirmation(capacity: usize, slot_bytes: usize, threshold: usize) -> (ask: bool)
    ensures
        ask == (committed_bytes(capacity, slot_bytes) > threshold),
{
    let wide: u128 = capacity as u128;
    let each: u128 = slot_bytes as u128;
    assert(wide * each <= 0xFFFF_FFFF_FFFF_FFFF * 0xFFFF_FFFF_FFFF_FFFF) by (nonlinear_arith)
        requires
            0 <= wide <= 0xFFFF_FFFF_FFFF_FFFF,
            0 <= each <= 0xFFFF_FFFF_FFFF_FFFF,
    ;
    wide * each > threshold as u128
}

/// The newest of what follows the newest of `all` is the newest of it all.
pub proof fn lemma_newest_append<T>(all: Seq<T>, capacity: nat, more: Seq<T>)
    ensures
        newest(newest(all, capacity) + more, capacity) == newest(all + more, capacity),
{
}

/// After any number of recordings the history is the newest `capacity` of
/// everything it ever held: what was there at the start, then what was
/// recorded, in order.
pub proof fn lemma_history_is_newest<T>(history: Seq<T>, capacity: nat, snapshots: Seq<T>)
    requires
        history.len() <= capacity,
    ensures
        pushed_all(history, capacity, snapshots) == newest(history + snapshots, capacity),
    decreases snapshots.len(),
{
    if snapshots.len() > 0 {
        let earlier = snapshots.drop_last();
        lemma_history_is_newest(history, capacity, earlier);
        lemma_newest_append(history + earlier, capacity, seq![snapshots.last()]);
    }
}

/// Undoing one instruction `n` times is undoing `n` at once.
pub proof fn lemma_undone_one_by_one<T>(history: Seq<T>, n: nat)
    requires
        n <= history.len(),
    ensures
        undone_one_by_one(history, n) == undone(history, n),
    decreases n,
{
    if n > 0 {
        lemma_undone_one_by_one(history, (n - 1) as nat);
    }
}

/// Undo is the inverse of recording. After `snapshots`, no more of them
/// than the buffer holds, have been recorded in order, the `j`-th single
/// undo in a row succeeds and restores the `j`-th newest of them: the first
/// undo the last recorded, and so on back to the first recorded.
pub proof fn lemma_undo_inverts_push<T>(
    history: Seq<T>,
    capacity: nat,
    snapshots: Seq<T>,
    j: nat,
)
    requires
        history.len() <= capacity,
        snapshots.len() <= capacity,
        1 <= j <= snapshots.len(),
    ensures
        can_undo(undone_one_by_one(pushed_all(history, capacity, snapshots), (j - 1) as nat), 1),
        restored(undone_one_by_one(pushed_all(history, capacity, snapshots), (j - 1) as nat), 1)
            == snapshots[snapshots.len() - j],
{
    let full = pushed_all(history, capacity, snapshots);
    lemma_history_is_newest(history, capacity, snapshots);
    lemma_undone_one_by_one(full, (j - 1) as nat);
}

/// Once every snapshot recorded into an empty buffer has been undone, the
/// buffer is empty again, and a further undo fails: nothing can be undone
/// at depth zero.
pub proof fn lemma_undo_exhausts<T>(capacity: nat, snapshots: Seq<T>)
    requires
        snapshots.len() <= capacity,
    ensures
        undone_one_by_one(
            pushed_all(Seq::<T>::empty(), capacity, snapshots),
            snapshots.len(),
        ) == Seq::<T>::empty(),
        !can_undo(Seq::<T>::empty(), 1),
{
    let full = pushed_all(Seq::<T>::empty(), capacity, snapshots);
    lemma_history_is_newest(Seq::<T>::empty(), capacity, snapshots);
    lemma_undone_one_by_one(full, snapshots.len());
}

/// Wraparound. Recording one snapshot more than the buffer holds evicts the
/// first of them: the history is then the others, and undoing as far as
/// the capacity allows restores the second recorded, not the first.
pub proof fn lemma_wraparound_evicts_oldest<T>(history: Seq<T>, capacity: nat, snapshots: Seq<T>)
    requires
        history.len() <= capacity,
        capacity >= 1,
        snapshots.len() == capacity + 1,
    ensures
        pushed_all(history, capacity, snapshots) == snapshots.skip(1),
        can_undo(pushed_all(history, capacity, snapshots), capacity),
        !can_undo(pushed_all(history, capacity, snapshots), capacity + 1),
        restored(pushed_all(history, capacity, snapshots), capacity) == snapshots[1],
{
    lemma_history_is_newest(history, capacity, snapshots);
}

} // verus!
