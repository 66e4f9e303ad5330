//! Texture residency across the four hardware texture slots.
//!
//! Each slot holds the id of the texture resident there (0 for empty).
//! When a draw needs a texture that is not resident, the slot named by
//! `next_replace` is reassigned and the pointer advances round-robin, so
//! with at most four distinct textures in use nothing is ever evicted.

use vstd::prelude::*;
use vstd::set_lib::lemma_len_subset;

verus! {

/// Number of hardware texture slots.
pub const SLOT_COUNT: usize = 4;

/// First slot holding `id`, or -1 when `id` is not resident.
pub open spec fn slot_of(slots: Seq<u32>, id: u32) -> int
    recommends
        slots.len() == 4,
{
    if slots[0] == id {
        0
    } else if slots[1] == id {
        1
    } else if slots[2] == id {
        2
    } else if slots[3] == id {
        3
    } else {
        -1
    }
}

/// One draw against texture `id`: an already resident texture keeps its
/// slot; otherwise `id` takes the slot under the round-robin pointer.
pub open spec fn table_after(slots: Seq<u32>, next: int, id: u32) -> (Seq<u32>, int)
    recommends
        slots.len() == 4,
        0 <= next < 4,
{
    if slot_of(slots, id) >= 0 {
        (slots, next)
    } else {
        (slots.update(next, id), (next + 1) % 4)
    }
}

/// The table after a whole run of draws, oldest first.
pub open spec fn table_after_draws(slots: Seq<u32>, next: int, ids: Seq<u32>) -> (Seq<u32>, int)
    decreases ids.len(),
{
    if ids.len() == 0 {
        (slots, next)
    } else {
        let stepped = table_after(slots, next, ids.first());
        table_after_draws(stepped.0, stepped.1, ids.drop_first())
    }
}

/// The four-slot residency table with its round-robin replacement pointer.
pub struct ResidencyTable {
    slots: [u32; 4],
    next_replace: u8,
}

impl ResidencyTable {
    pub closed spec fn spec_slots(self) -> Seq<u32> {
        self.slots@
    }

    pub closed spec fn spec_next(self) -> int {
        self.next_replace as int
    }

    pub open spec fn wf(self) -> bool {
        0 <= self.spec_next() < 4 && self.spec_slots().len() == 4
    }

    /// All slots empty, replacement starting at slot 0.
    pub fn new() -> (t: Self)
        ensures
            t.wf(),
            t.spec_slots() =~= seq![0u32, 0u32, 0u32, 0u32],
            t.spec_next() == 0,
    {
        ResidencyTable { slots: [0, 0, 0, 0], next_replace: 0 }
    }

    /// The id resident in `slot`, 0 for empty.
    pub fn slot_id(&self, slot: usize) -> (r: u32)
        requires
            slot < 4,
        ensures
            r == self.spec_slots()[slot as int],
    {
        self.slots[slot]
    }

    /// Pick the slot for one draw against texture `id`: its current slot if
    /// resident (`fresh` false), else the round-robin victim, which is
    /// reassigned to `id` (`fresh` true).
    pub fn acquire(&mut self, id: u32) -> (r: (u8, bool))
        requires
            old(self).wf(),
            id != 0,
        ensures
            final(self).wf(),
            (final(self).spec_slots(), final(self).spec_next()) == table_after(
                old(self).spec_slots(),
                old(self).spec_next(),
                id,
            ),
            r.0 < 4,
            r.1 == (slot_of(old(self).spec_slots(), id) < 0),
            !r.1 ==> r.0 == slot_of(old(self).spec_slots(), id),
            r.1 ==> r.0 == old(self).spec_next(),
            final(self).spec_slots()[r.0 as int] == id,
    {
        if self.slots[0] == id {
            (0, false)
        } else if self.slots[1] == id {
            (1, false)
        } else if self.slots[2] == id {
            (2, false)
        } else if self.slots[3] == id {
            (3, false)
        } else {
            let slot = self.next_replace;
            self.slots[slot as usize] = id;
            self.next_replace = (slot + 1) % 4;
            (slot, true)
        }
    }
}

/// The invariant tying a table to the set of distinct ids drawn so far:
/// the ids seen occupy the first `seen.len()` slots, the rest are empty,
/// and the round-robin pointer stands just past them.
pub open spec fn table_inv(slots: Seq<u32>, next: int, seen: Set<u32>) -> bool {
    &&& slots.len() == 4
    &&& seen.finite()
    &&& seen.len() <= 4
    &&& !seen.contains(0)
    &&& next == seen.len() as int % 4
    &&& forall|j: int| seen.len() <= j < 4 ==> slots[j] == 0
    &&& forall|j: int| 0 <= j < seen.len() ==> seen.contains(#[trigger] slots[j])
    &&& forall|id: u32| seen.contains(id) ==> 0 <= #[trigger] slot_of(slots, id) < seen.len()
}

proof fn lemma_residency_step(slots: Seq<u32>, next: int, seen: Set<u32>, ids: Seq<u32>)
    requires
        table_inv(slots, next, seen),
        forall|i: int| 0 <= i < ids.len() ==> ids[i] != 0,
        seen.union(ids.to_set()).len() <= 4,
        seen.union(ids.to_set()).finite(),
    ensures
        ({
            let end = table_after_draws(slots, next, ids);
            forall|id: u32| seen.union(ids.to_set()).contains(id) ==> 0 <= #[trigger] slot_of(
                end.0,
                id,
            ) < 4
        }),
    decreases ids.len(),
{
    broadcast use vstd::seq_lib::seq_to_set_is_finite;

    if ids.len() == 0 {
        assert(ids.to_set() =~= Set::<u32>::empty());
        assert(seen.union(ids.to_set()) =~= seen);
    } else {
        let id = ids.first();
        let rest = ids.drop_first();
        assert(ids[0] == id);
        assert(ids.to_set().contains(id));
        assert forall|a: u32| ids.to_set().contains(a) implies rest.to_set().insert(id).contains(
            a,
        ) by {
            let i = choose|i: int| 0 <= i < ids.len() && ids[i] == a;
            if i > 0 {
                assert(rest[i - 1] == a);
                assert(rest.to_set().contains(a));
            }
        }
        assert forall|a: u32| rest.to_set().insert(id).contains(a) implies ids.to_set().contains(
            a,
        ) by {
            if a == id {
                assert(ids[0] == a);
            } else {
                assert(rest.to_set().contains(a));
                let i = choose|i: int| 0 <= i < rest.len() && rest[i] == a;
                assert(ids[i + 1] == a);
            }
        }
        assert(ids.to_set() =~= rest.to_set().insert(id));
        assert forall|i: int| 0 <= i < rest.len() implies rest[i] != 0 by {
            assert(ids[i + 1] != 0);
        }
        let stepped = table_after(slots, next, id);
        let seen2 = seen.insert(id);
        assert(seen2.union(rest.to_set()) =~= seen.union(ids.to_set()));
        if slot_of(slots, id) >= 0 {
            // already resident: the state is unchanged and id was seen before
            assert(seen.contains(id)) by {
                if !seen.contains(id) {
                    assert(forall|j: int| 0 <= j < seen.len() ==> slots[j] != id);
                    assert(forall|j: int| seen.len() <= j < 4 ==> slots[j] == 0);
                    assert(slot_of(slots, id) < 0);
                }
            }
            assert(seen2 =~= seen);
            assert(table_inv(stepped.0, stepped.1, seen2));
        } else {
            // not resident: id is new and takes the slot under the pointer
            assert(!seen.contains(id));
            assert(seen2.len() == seen.len() + 1);
            assert(seen2.subset_of(seen.union(ids.to_set())));
            lemma_len_subset(seen2, seen.union(ids.to_set()));
            assert(seen.len() < 4);
            assert(next == seen.len() as int);
            let slots2 = slots.update(next, id);
            assert(stepped.0 == slots2);
            assert(table_inv(slots2, stepped.1, seen2)) by {
                assert(forall|j: int| seen2.len() <= j < 4 ==> slots2[j] == 0);
                assert(forall|j: int| 0 <= j < seen2.len() ==> seen2.contains(
                    #[trigger] slots2[j],
                ));
                assert forall|id2: u32| seen2.contains(id2) implies 0 <= #[trigger] slot_of(
                    slots2,
                    id2,
                ) < seen2.len() by {
                    if id2 == id {
                        assert(forall|j: int| 0 <= j < next ==> slots2[j] != id);
                        assert(slots2[next] == id);
                    } else {
                        assert(seen.contains(id2));
                        assert(0 <= slot_of(slots, id2) < seen.len());
                    }
                }
            }
        }
        lemma_residency_step(stepped.0, stepped.1, seen2, rest);
        let end2 = table_after_draws(stepped.0, stepped.1, rest);
        assert(table_after_draws(slots, next, ids) == end2);
        assert forall|a: u32| seen.union(ids.to_set()).contains(a) implies 0 <= #[trigger] slot_of(
            table_after_draws(slots, next, ids).0,
            a,
        ) < 4 by {
            assert(seen2.union(rest.to_set()).contains(a));
            assert(0 <= slot_of(end2.0, a) < 4);
        }
    }
}

/// Law: starting from an empty table, any run of draws that touches at most
/// four distinct (nonzero) texture ids leaves every one of those ids
/// resident — the round-robin replacement never evicts a live texture.
pub proof fn lemma_residency_bounded(ids: Seq<u32>)
    requires
        forall|i: int| 0 <= i < ids.len() ==> ids[i] != 0,
        ids.to_set().len() <= 4,
    ensures
        ({
            let end = table_after_draws(seq![0u32, 0u32, 0u32, 0u32], 0, ids);
            forall|i: int| 0 <= i < ids.len() ==> 0 <= #[trigger] slot_of(end.0, ids[i]) < 4
        }),
{
    broadcast use vstd::seq_lib::seq_to_set_is_finite;

    let slots0 = seq![0u32, 0u32, 0u32, 0u32];
    let seen0 = Set::<u32>::empty();
    assert(ids.to_set().finite());
    assert(seen0.union(ids.to_set()) =~= ids.to_set());
    assert(table_inv(slots0, 0, seen0));
    lemma_residency_step(slots0, 0, seen0, ids);
    let end = table_after_draws(slots0, 0, ids);
    assert forall|i: int| 0 <= i < ids.len() implies 0 <= #[trigger] slot_of(end.0, ids[i])
        < 4 by {
        assert(ids.to_set().contains(ids[i]));
        assert(seen0.union(ids.to_set()).contains(ids[i]));
    }
}

} // verus!
