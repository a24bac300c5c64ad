use vstd::prelude::*;

verus! {

/// The five advisory lock levels, strictly ordered
/// `Unlocked < Shared < Reserved < Pending < Exclusive`.
///
/// Shared permits concurrent readers; Reserved announces a future writer
/// while readers go on; Pending is the waiting room of a writer draining
/// readers; Exclusive admits no other lock of any kind.
#[derive(Clone, Copy, Debug, PartialEq, Eq, Structural)]
pub enum LockKind {
    /// No lock held; the level of a fresh handle.
    Unlocked,
    /// Read lock, held by any number of handles at once.
    Shared,
    /// Write intent that still admits readers.
    Reserved,
    /// Write intent waiting for the reader count to drain.
    Pending,
    /// Sole access for writing.
    Exclusive,
}

/// The position of a level in the order.
pub open spec fn rank(l: LockKind) -> int {
    match l {
        LockKind::Unlocked => 0,
        LockKind::Shared => 1,
        LockKind::Reserved => 2,
        LockKind::Pending => 3,
        LockKind::Exclusive => 4,
    }
}

/// Executable counterpart of `rank`.
pub fn level_rank(l: LockKind) -> (r: u8)
    ensures
        r as int == rank(l),
{
    match l {
        LockKind::Unlocked => 0,
        LockKind::Shared => 1,
        LockKind::Reserved => 2,
        LockKind::Pending => 3,
        LockKind::Exclusive => 4,
    }
}

/// Shared lock bookkeeping for one store: how many handles currently hold
/// Shared, and whether some handle holds a write intent — `Some(false)` for
/// a Reserved holder, `Some(true)` for a Pending or Exclusive one.
#[derive(Clone, Copy, Debug, PartialEq, Eq, Structural)]
pub struct LockCoordinator {
    /// Number of handles currently at Shared level.
    pub shared_count: u64,
    /// The write intent, if any handle holds a level above Shared.
    pub write_intent: Option<bool>,
}

/// How many Shared holders remain once the requesting handle, currently at
/// `cur`, gives up its own Shared contribution.
pub open spec fn shared_after_release(c: LockCoordinator, cur: LockKind) -> int {
    c.shared_count - (if cur == LockKind::Shared {
        1int
    } else {
        0int
    })
}

/// Whether a request by a handle at level `cur` for level `to` is granted
/// under coordinator state `c`. Requesting the level already held is a
/// trivial success; Pending can never be requested directly; an Exclusive
/// request that passes the intent check but still finds readers records its
/// intent yet is reported as denied.
pub open spec fn lock_granted(c: LockCoordinator, cur: LockKind, to: LockKind) -> bool {
    if cur == to {
        true
    } else {
        match to {
            LockKind::Unlocked => true,
            LockKind::Shared => !(c.write_intent == Some(true) && rank(cur) <= 1),
            LockKind::Reserved => c.write_intent is None && cur == LockKind::Shared,
            LockKind::Pending => false,
            LockKind::Exclusive => !(c.write_intent is Some && rank(cur) <= 1)
                && shared_after_release(c, cur) == 0,
        }
    }
}

/// The coordinator state after a request by a handle at `cur` for `to`.
/// A denied request leaves the state unchanged, with one exception: a
/// blocked Exclusive request that passed the intent check records the write
/// intent, so that new Shared requests are refused while the readers drain.
pub open spec fn coordinator_after(c: LockCoordinator, cur: LockKind, to: LockKind)
    -> LockCoordinator {
    if cur == to {
        c
    } else {
        match to {
            LockKind::Unlocked => LockCoordinator {
                shared_count: if cur == LockKind::Shared {
                    (c.shared_count - 1) as u64
                } else {
                    c.shared_count
                },
                write_intent: if rank(cur) > 1 {
                    None
                } else {
                    c.write_intent
                },
            },
            LockKind::Shared => if lock_granted(c, cur, to) {
                LockCoordinator {
                    shared_count: (c.shared_count + 1) as u64,
                    write_intent: if rank(cur) > 1 {
                        None
                    } else {
                        c.write_intent
                    },
                }
            } else {
                c
            },
            LockKind::Reserved => if lock_granted(c, cur, to) {
                LockCoordinator {
                    shared_count: (c.shared_count - 1) as u64,
                    write_intent: Some(false),
                }
            } else {
                c
            },
            LockKind::Pending => c,
            LockKind::Exclusive => if !(c.write_intent is Some && rank(cur) <= 1) {
                LockCoordinator {
                    shared_count: shared_after_release(c, cur) as u64,
                    write_intent: Some(true),
                }
            } else {
                c
            },
        }
    }
}

/// The requesting handle's level after the request: the target when granted,
/// unchanged when denied — except that a blocked Exclusive request that
/// recorded its intent moves the handle to Pending.
pub open spec fn level_after(c: LockCoordinator, cur: LockKind, to: LockKind) -> LockKind {
    if cur == to {
        cur
    } else {
        match to {
            LockKind::Unlocked => LockKind::Unlocked,
            LockKind::Shared => if lock_granted(c, cur, to) {
                LockKind::Shared
            } else {
                cur
            },
            LockKind::Reserved => if lock_granted(c, cur, to) {
                LockKind::Reserved
            } else {
                cur
            },
            LockKind::Pending => cur,
            LockKind::Exclusive => if !(c.write_intent is Some && rank(cur) <= 1) {
                if shared_after_release(c, cur) == 0 {
                    LockKind::Exclusive
                } else {
                    LockKind::Pending
                }
            } else {
                cur
            },
        }
    }
}

/// What one handle's level tells of the shared counters: the per-handle part
/// of the coordinator invariant, enough for a transition not to underflow.
pub open spec fn level_compatible(c: LockCoordinator, cur: LockKind) -> bool {
    &&& (cur == LockKind::Shared ==> c.shared_count >= 1)
    &&& (cur == LockKind::Reserved ==> c.write_intent == Some(false))
    &&& ((cur == LockKind::Pending || cur == LockKind::Exclusive) ==> c.write_intent == Some(
        true,
    ))
    &&& (cur == LockKind::Exclusive ==> c.shared_count == 0)
}

impl LockCoordinator {
    /// A coordinator with no reader and no write intent.
    pub fn new() -> (r: LockCoordinator)
        ensures
            r.shared_count == 0,
            r.write_intent is None,
    {
        LockCoordinator { shared_count: 0, write_intent: None }
    }

    /// Decides one lock request by a handle at level `cur` for level `to`:
    /// mutates the counters atomically with the decision and returns whether
    /// the request was granted together with the handle's new level. Never
    /// blocks: a denied request returns at once so the caller can retry.
    pub fn request(&mut self, cur: LockKind, to: LockKind) -> (r: (bool, LockKind))
        requires
            level_compatible(*old(self), cur),
            (to == LockKind::Shared && cur != LockKind::Shared) ==> old(self).shared_count
                < u64::MAX,
        ensures
            r.0 == lock_granted(*old(self), cur, to),
            r.1 == level_after(*old(self), cur, to),
            *final(self) == coordinator_after(*old(self), cur, to),
    {
        if cur == to {
            return (true, cur);
        }
        match to {
            LockKind::Unlocked => {
                if cur == LockKind::Shared {
                    self.shared_count = self.shared_count - 1;
                } else if level_rank(cur) > 1 {
                    self.write_intent = None;
                }
                (true, LockKind::Unlocked)
            },
            LockKind::Shared => {
                let blocked = match self.write_intent {
                    Some(true) => level_rank(cur) <= 1,
                    _ => false,
                };
                if blocked {
                    (false, cur)
                } else {
                    self.shared_count = self.shared_count + 1;
                    if level_rank(cur) > 1 {
                        self.write_intent = None;
                    }
                    (true, LockKind::Shared)
                }
            },
            LockKind::Reserved => {
                let free = match self.write_intent {
                    None => true,
                    Some(_) => false,
                };
                if free && cur == LockKind::Shared {
                    self.shared_count = self.shared_count - 1;
                    self.write_intent = Some(false);
                    (true, LockKind::Reserved)
                } else {
                    (false, cur)
                }
            },
            LockKind::Pending => (false, cur),
            LockKind::Exclusive => {
                let blocked = match self.write_intent {
                    Some(_) => level_rank(cur) <= 1,
                    None => false,
                };
                if blocked {
                    (false, cur)
                } else {
                    if cur == LockKind::Shared {
                        self.shared_count = self.shared_count - 1;
                    }
                    self.write_intent = Some(true);
                    if self.shared_count == 0 {
                        (true, LockKind::Exclusive)
                    } else {
                        (false, LockKind::Pending)
                    }
                }
            },
        }
    }
}

/// How many entries of `s` are exactly the level `l`.
pub open spec fn count_level(s: Seq<LockKind>, l: LockKind) -> int
    decreases s.len(),
{
    if s.len() == 0 {
        0
    } else {
        count_level(s.drop_last(), l) + (if s.last() == l {
            1int
        } else {
            0int
        })
    }
}

/// How many entries of `s` hold a level above Shared.
pub open spec fn writer_count(s: Seq<LockKind>) -> int {
    count_level(s, LockKind::Reserved) + count_level(s, LockKind::Pending) + count_level(
        s,
        LockKind::Exclusive,
    )
}

/// The coordinator invariant over the levels of all handles of one store:
/// `shared_count` counts the Shared holders exactly; a write intent, when
/// present, is held by exactly one handle — `Some(false)` by a Reserved one,
/// `Some(true)` by a Pending or Exclusive one; and an Exclusive holder
/// coexists with no reader.
pub open spec fn coordinator_inv(c: LockCoordinator, levels: Seq<LockKind>) -> bool {
    &&& c.shared_count as int == count_level(levels, LockKind::Shared)
    &&& (c.write_intent is None ==> writer_count(levels) == 0)
    &&& (c.write_intent == Some(false) ==> count_level(levels, LockKind::Reserved) == 1
        && count_level(levels, LockKind::Pending) == 0 && count_level(
        levels,
        LockKind::Exclusive,
    ) == 0)
    &&& (c.write_intent == Some(true) ==> count_level(levels, LockKind::Reserved) == 0
        && count_level(levels, LockKind::Pending) + count_level(levels, LockKind::Exclusive)
        == 1)
    &&& (count_level(levels, LockKind::Exclusive) >= 1 ==> c.shared_count == 0)
}

/// The count of any level lies between 0 and the sequence length.
pub proof fn lemma_count_bounds(s: Seq<LockKind>, l: LockKind)
    ensures
        0 <= count_level(s, l) <= s.len(),
    decreases s.len(),
{
    if s.len() > 0 {
        lemma_count_bounds(s.drop_last(), l);
    }
}

/// A level held at some index is counted at least once.
pub proof fn lemma_count_at_index(s: Seq<LockKind>, i: int)
    requires
        0 <= i < s.len(),
    ensures
        count_level(s, s[i]) >= 1,
    decreases s.len(),
{
    if i == s.len() - 1 {
        lemma_count_bounds(s.drop_last(), s[i]);
    } else {
        lemma_count_at_index(s.drop_last(), i);
        assert(s.drop_last()[i] == s[i]);
    }
}

/// A level not held at some index is counted at most `len - 1` times.
pub proof fn lemma_count_excluding_index(s: Seq<LockKind>, i: int, l: LockKind)
    requires
        0 <= i < s.len(),
        s[i] != l,
    ensures
        count_level(s, l) <= s.len() - 1,
    decreases s.len(),
{
    if i == s.len() - 1 {
        lemma_count_bounds(s.drop_last(), l);
    } else {
        lemma_count_excluding_index(s.drop_last(), i, l);
        assert(s.drop_last()[i] == s[i]);
    }
}

/// Updating one entry moves the counts by exactly the entry exchanged.
pub proof fn lemma_count_update(s: Seq<LockKind>, i: int, v: LockKind, l: LockKind)
    requires
        0 <= i < s.len(),
    ensures
        count_level(s.update(i, v), l) == count_level(s, l) - (if s[i] == l {
            1int
        } else {
            0int
        }) + (if v == l {
            1int
        } else {
            0int
        }),
    decreases s.len(),
{
    let t = s.update(i, v);
    if i == s.len() - 1 {
        assert(t.drop_last() =~= s.drop_last());
    } else {
        assert(t.drop_last() =~= s.drop_last().update(i, v));
        lemma_count_update(s.drop_last(), i, v, l);
        assert(s.drop_last()[i] == s[i]);
    }
}

/// Appending one entry raises exactly that entry's count by one.
pub proof fn lemma_count_push(s: Seq<LockKind>, v: LockKind, l: LockKind)
    ensures
        count_level(s.push(v), l) == count_level(s, l) + (if v == l {
            1int
        } else {
            0int
        }),
{
    assert(s.push(v).drop_last() =~= s);
}

/// Law: under the coordinator invariant, each handle's own level agrees with
/// the shared counters.
pub proof fn lemma_inv_compatible(c: LockCoordinator, levels: Seq<LockKind>, i: int)
    requires
        coordinator_inv(c, levels),
        0 <= i < levels.len(),
    ensures
        level_compatible(c, levels[i]),
{
    lemma_count_at_index(levels, i);
    lemma_count_bounds(levels, LockKind::Reserved);
    lemma_count_bounds(levels, LockKind::Pending);
    lemma_count_bounds(levels, LockKind::Exclusive);
    match levels[i] {
        LockKind::Unlocked => {},
        LockKind::Shared => {},
        LockKind::Reserved => {
            assert(count_level(levels, LockKind::Reserved) >= 1);
            match c.write_intent {
                None => {
                    assert(false);
                },
                Some(b) => {
                    if b {
                        assert(false);
                    }
                },
            }
        },
        LockKind::Pending => {
            assert(count_level(levels, LockKind::Pending) >= 1);
            match c.write_intent {
                None => {
                    assert(false);
                },
                Some(b) => {
                    if !b {
                        assert(false);
                    }
                },
            }
        },
        LockKind::Exclusive => {
            assert(count_level(levels, LockKind::Exclusive) >= 1);
            match c.write_intent {
                None => {
                    assert(false);
                },
                Some(b) => {
                    if !b {
                        assert(false);
                    }
                },
            }
        },
    }
}

/// Law: every transition of the lock state machine preserves the coordinator
/// invariant, whatever level is requested. (The length bound is a machine
/// limit: the shared count is a 64-bit integer.)
pub proof fn lemma_request_preserves_inv(
    c: LockCoordinator,
    levels: Seq<LockKind>,
    i: int,
    to: LockKind,
)
    requires
        coordinator_inv(c, levels),
        0 <= i < levels.len(),
        to == LockKind::Shared ==> levels.len() <= u64::MAX as int,
    ensures
        coordinator_inv(
            coordinator_after(c, levels[i], to),
            levels.update(i, level_after(c, levels[i], to)),
        ),
{
    let cur = levels[i];
    let v = level_after(c, cur, to);
    let t = levels.update(i, v);
    lemma_inv_compatible(c, levels, i);
    lemma_count_at_index(levels, i);
    lemma_count_update(levels, i, v, LockKind::Shared);
    lemma_count_update(levels, i, v, LockKind::Reserved);
    lemma_count_update(levels, i, v, LockKind::Pending);
    lemma_count_update(levels, i, v, LockKind::Exclusive);
    lemma_count_bounds(levels, LockKind::Shared);
    lemma_count_bounds(levels, LockKind::Reserved);
    lemma_count_bounds(levels, LockKind::Pending);
    lemma_count_bounds(levels, LockKind::Exclusive);
    if v == cur {
        assert(t =~= levels);
    }
    if cur != to && to == LockKind::Shared {
        lemma_count_excluding_index(levels, i, LockKind::Shared);
        match c.write_intent {
            None => {},
            Some(b) => {},
        }
    }
    if cur != to && to == LockKind::Exclusive && !(c.write_intent is Some && rank(cur) <= 1) {
        match c.write_intent {
            None => {},
            Some(b) => {},
        }
    }
}

/// Law: while no Exclusive intent stands, a fresh handle acquires Shared
/// even though another handle already holds Shared: readers coexist.
pub proof fn lemma_shared_granted_alongside_reader(
    c: LockCoordinator,
    levels: Seq<LockKind>,
    i: int,
    j: int,
)
    requires
        coordinator_inv(c, levels),
        0 <= i < levels.len(),
        0 <= j < levels.len(),
        i != j,
        levels[i] == LockKind::Shared,
        levels[j] == LockKind::Unlocked,
        c.write_intent != Some(true),
    ensures
        lock_granted(c, levels[j], LockKind::Shared),
{
}

/// Law: while any handle holds Shared, no handle at or below Shared obtains
/// Exclusive.
pub proof fn lemma_exclusive_blocked_by_reader(
    c: LockCoordinator,
    levels: Seq<LockKind>,
    i: int,
    j: int,
)
    requires
        coordinator_inv(c, levels),
        0 <= i < levels.len(),
        0 <= j < levels.len(),
        i != j,
        levels[i] == LockKind::Shared,
        rank(levels[j]) <= 1,
    ensures
        !lock_granted(c, levels[j], LockKind::Exclusive),
{
    lemma_count_at_index(levels, i);
    if levels[j] == LockKind::Shared {
        let t = levels.update(i, LockKind::Unlocked);
        lemma_count_update(levels, i, LockKind::Unlocked, LockKind::Shared);
        lemma_count_at_index(t, j);
    }
}

/// Law: once no reader remains and no writer intent stands, a handle with no
/// lock obtains Exclusive at once.
pub proof fn lemma_exclusive_granted_after_drain(
    c: LockCoordinator,
    levels: Seq<LockKind>,
    j: int,
)
    requires
        coordinator_inv(c, levels),
        0 <= j < levels.len(),
        levels[j] == LockKind::Unlocked,
        count_level(levels, LockKind::Shared) == 0,
        writer_count(levels) == 0,
    ensures
        lock_granted(c, levels[j], LockKind::Exclusive),
{
    lemma_count_bounds(levels, LockKind::Reserved);
    lemma_count_bounds(levels, LockKind::Pending);
    lemma_count_bounds(levels, LockKind::Exclusive);
    match c.write_intent {
        None => {},
        Some(b) => {
            assert(false);
        },
    }
}

/// Law: a Reserved holder leaves new Shared acquisitions unblocked, but
/// blocks every other handle's Reserved or Exclusive request.
pub proof fn lemma_reserved_semantics(
    c: LockCoordinator,
    levels: Seq<LockKind>,
    i: int,
    j: int,
)
    requires
        coordinator_inv(c, levels),
        0 <= i < levels.len(),
        0 <= j < levels.len(),
        i != j,
        levels[i] == LockKind::Reserved,
        rank(levels[j]) <= 1,
    ensures
        lock_granted(c, levels[j], LockKind::Shared),
        !lock_granted(c, levels[j], LockKind::Reserved),
        !lock_granted(c, levels[j], LockKind::Exclusive),
{
    lemma_inv_compatible(c, levels, i);
}

/// Law: releasing an Exclusive holder down to Unlocked always succeeds,
/// clears the write intent, and lets a fresh handle obtain Exclusive at
/// once: a dropped handle never leaks its lock.
pub proof fn lemma_release_frees_exclusive(
    c: LockCoordinator,
    levels: Seq<LockKind>,
    i: int,
    j: int,
)
    requires
        coordinator_inv(c, levels),
        0 <= i < levels.len(),
        0 <= j < levels.len(),
        i != j,
        levels[i] == LockKind::Exclusive,
        levels[j] == LockKind::Unlocked,
    ensures
        lock_granted(c, levels[i], LockKind::Unlocked),
        coordinator_after(c, levels[i], LockKind::Unlocked).write_intent is None,
        lock_granted(
            coordinator_after(c, levels[i], LockKind::Unlocked),
            levels[j],
            LockKind::Exclusive,
        ),
{
    lemma_inv_compatible(c, levels, i);
}

} // verus!
