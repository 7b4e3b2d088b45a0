//! The staging factory: a per-render-state registry of named staging belts,
//! and the short-lived write sessions (stagers) that lease them. A belt is
//! registered once, then cycles every frame between idle and fetched; a
//! stager holds the exclusive lease on one belt while writes are staged
//! through it. Acquisition never blocks: a belt that is already leased is a
//! re-entrant use within one frame, reported as an error at once. The
//! contracts carry the frame discipline: every staging area a stager
//! created must be released back to it, every stager returned to the
//! factory, before `submit_all` closes the belts' write batches into the
//! command stream; then the queue is submitted, and `recall_all` reclaims
//! the belts' chunks once the device is done, without blocking.

use vstd::map::*;
use vstd::prelude::*;

use crate::gpu::{
    belt_closed, belt_drop_view, belt_finish, belt_id, belt_new, belt_recall, belt_staged,
    belt_views, belt_write_buffer, buffer_len, device_clone, device_poll, encoder_copies,
    encoder_id, str_eq, view_belt, view_bytes, view_dst, view_dst_offset, view_encoder,
    view_write, RecordedCopy,
};

verus! {

/// Why a staging operation was refused. Every variant reports a violated
/// caller contract; the surrounding application treats them as fatal.
#[derive(Clone, Copy, Debug, PartialEq, Eq, Structural)]
pub enum StagingError {
    /// Registering a belt under a name that is already registered.
    DuplicateBelt,
    /// Naming a belt that was never registered.
    UnknownBelt,
    /// Fetching a belt whose lease is already out this frame.
    BeltAlreadyLeased,
    /// Returning a stager for a belt that is not leased.
    BeltNotLeased,
    /// Submitting or recalling while a stager has not been returned.
    BeltStillLeased,
    /// A staged write of zero bytes is meaningless.
    ZeroSizeWrite,
}

/// The abstract state of one registered belt: the chunk size it allocates
/// staging memory in, and whether a stager currently holds its lease.
#[derive(Clone, Copy, Debug, PartialEq, Eq, Structural)]
pub struct BeltInfo {
    pub chunk_size: u64,
    pub leased: bool,
}

/// One registry entry: the belt's name and chunk size, and the belt itself,
/// absent while a stager holds the lease.
struct BeltSlot {
    name: String,
    chunk_size: u64,
    belt: Option<wgpu::util::StagingBelt>,
}

/// The abstract state of a slot.
spec fn slot_info(s: BeltSlot) -> BeltInfo {
    BeltInfo { chunk_size: s.chunk_size, leased: s.belt is None }
}

/// Some slot carries this name.
spec fn has_name(slots: Seq<BeltSlot>, name: Seq<char>) -> bool {
    exists|i: int| 0 <= i < slots.len() && slots[i].name@ == name
}

/// The index of the slot carrying this name (meaningful when `has_name`).
spec fn name_index(slots: Seq<BeltSlot>, name: Seq<char>) -> int {
    choose|i: int| 0 <= i < slots.len() && slots[i].name@ == name
}

/// The registry a slot sequence denotes: a map from belt name to belt state.
spec fn slots_map(slots: Seq<BeltSlot>) -> Map<Seq<char>, BeltInfo> {
    Map::new(
        |name: Seq<char>| has_name(slots, name),
        |name: Seq<char>| slot_info(slots[name_index(slots, name)]),
    )
}

/// No two slots share a name.
spec fn unique_names(slots: Seq<BeltSlot>) -> bool {
    forall|i: int, j: int|
        0 <= i < j < slots.len() ==> (#[trigger] slots[i].name@) != (#[trigger] slots[j].name@)
}

/// A stored belt has no CPU-writable views out.
spec fn slot_views_zero(s: BeltSlot) -> bool {
    s.belt matches Some(b) ==> belt_views(b) == 0
}

/// Every stored belt has no views out.
spec fn slots_views_zero(slots: Seq<BeltSlot>) -> bool {
    forall|i: int| 0 <= i < slots.len() ==> slot_views_zero(#[trigger] slots[i])
}

/// A stored belt's open write batch is empty.
spec fn slot_batch_closed(s: BeltSlot) -> bool {
    s.belt matches Some(b) ==> belt_staged(b) == 0
}

/// A stored belt has no closed chunks awaiting reclaim.
spec fn slot_reclaimed(s: BeltSlot) -> bool {
    s.belt matches Some(b) ==> belt_closed(b) == 0
}

/// Two slots agree on everything the registry view reads: name, chunk size,
/// and whether the belt is in place.
spec fn like_slot(a: BeltSlot, b: BeltSlot) -> bool {
    &&& b.name@ == a.name@
    &&& b.chunk_size == a.chunk_size
    &&& ((b.belt is Some) <==> (a.belt is Some))
}

/// Pointwise slot agreement.
spec fn like_slots(a: Seq<BeltSlot>, b: Seq<BeltSlot>) -> bool {
    &&& a.len() == b.len()
    &&& forall|j: int| 0 <= j < a.len() ==> like_slot(a[j], #[trigger] b[j])
}

/// Replacing one slot by a like slot keeps pointwise agreement.
proof fn lemma_like_slots_update(a: Seq<BeltSlot>, pre: Seq<BeltSlot>, i: int, s1: BeltSlot)
    requires
        like_slots(a, pre),
        0 <= i < pre.len(),
        like_slot(a[i], s1),
    ensures
        like_slots(a, pre.update(i, s1)),
{
}

/// With unique names, the map agrees with every slot.
proof fn lemma_slots_map_at(slots: Seq<BeltSlot>, i: int)
    requires
        unique_names(slots),
        0 <= i < slots.len(),
    ensures
        slots_map(slots).contains_key(slots[i].name@),
        slots_map(slots)[slots[i].name@] == slot_info(slots[i]),
{
    let name = slots[i].name@;
    assert(has_name(slots, name));
    let j = name_index(slots, name);
    assert(0 <= j < slots.len() && slots[j].name@ == name);
    if i < j {
        assert(slots[i].name@ != slots[j].name@);
    } else if j < i {
        assert(slots[j].name@ != slots[i].name@);
    }
}

/// Replacing a slot by one of the same name updates exactly that name's
/// entry.
proof fn lemma_slots_map_update(slots: Seq<BeltSlot>, i: int, slot2: BeltSlot)
    requires
        unique_names(slots),
        0 <= i < slots.len(),
        slot2.name@ == slots[i].name@,
    ensures
        unique_names(slots.update(i, slot2)),
        slots_map(slots.update(i, slot2)) == slots_map(slots).insert(
            slots[i].name@,
            slot_info(slot2),
        ),
{
    let s2 = slots.update(i, slot2);
    assert(forall|k: int| 0 <= k < slots.len() ==> (#[trigger] s2[k].name@) == slots[k].name@);
    assert(unique_names(s2));
    assert_maps_equal!(slots_map(s2), slots_map(slots).insert(slots[i].name@, slot_info(slot2)), name => {
        if has_name(s2, name) || has_name(slots, name) {
            if name == slots[i].name@ {
                lemma_slots_map_at(s2, i);
                lemma_slots_map_at(slots, i);
            } else {
                let k = if has_name(s2, name) { name_index(s2, name) } else { name_index(slots, name) };
                assert(s2[k].name@ == slots[k].name@);
                lemma_slots_map_at(s2, k);
                lemma_slots_map_at(slots, k);
                assert(s2[k] == slots[k]);
            }
        }
    });
}

/// Appending a slot with a fresh name adds exactly that name's entry.
proof fn lemma_slots_map_push(slots: Seq<BeltSlot>, slot2: BeltSlot)
    requires
        unique_names(slots),
        !has_name(slots, slot2.name@),
    ensures
        unique_names(slots.push(slot2)),
        slots_map(slots.push(slot2)) == slots_map(slots).insert(slot2.name@, slot_info(slot2)),
{
    let s2 = slots.push(slot2);
    assert(forall|k: int| 0 <= k < slots.len() ==> (#[trigger] s2[k]) == slots[k]);
    assert(s2[slots.len() as int] == slot2);
    assert(unique_names(s2)) by {
        assert forall|i: int, j: int| 0 <= i < j < s2.len() implies (#[trigger] s2[i].name@) != (
        #[trigger] s2[j].name@) by {
            if j == slots.len() {
                assert(has_name(slots, slots[i].name@));
            }
        }
    }
    assert_maps_equal!(slots_map(s2), slots_map(slots).insert(slot2.name@, slot_info(slot2)), name => {
        if name == slot2.name@ {
            lemma_slots_map_at(s2, slots.len() as int);
        } else if has_name(s2, name) || has_name(slots, name) {
            let k = if has_name(s2, name) { name_index(s2, name) } else { name_index(slots, name) };
            assert(0 <= k < slots.len());
            lemma_slots_map_at(s2, k);
            lemma_slots_map_at(slots, k);
        }
    });
}

/// A slot without its belt makes the registry's no-lease claim false.
proof fn lemma_some_leased(slots: Seq<BeltSlot>, i: int)
    requires
        unique_names(slots),
        0 <= i < slots.len(),
        slots[i].belt is None,
    ensures
        !(forall|n: Seq<char>|
            slots_map(slots).contains_key(n) ==> !(#[trigger] slots_map(slots)[n]).leased),
{
    lemma_slots_map_at(slots, i);
    assert(slots_map(slots).contains_key(slots[i].name@) && slots_map(
        slots,
    )[slots[i].name@].leased);
}

/// When every slot holds its belt, no entry of the map is leased.
proof fn lemma_all_idle(slots: Seq<BeltSlot>)
    requires
        unique_names(slots),
        forall|i: int| 0 <= i < slots.len() ==> (#[trigger] slots[i].belt) is Some,
    ensures
        forall|n: Seq<char>|
            slots_map(slots).contains_key(n) ==> !(#[trigger] slots_map(slots)[n]).leased,
{
    assert forall|n: Seq<char>|
        slots_map(slots).contains_key(n) implies !(#[trigger] slots_map(slots)[n]).leased by {
        let k = name_index(slots, n);
        assert(0 <= k < slots.len() && slots[k].name@ == n);
        lemma_slots_map_at(slots, k);
    }
}

/// The factory: a registry of named staging belts plus the shared device
/// handle the belts allocate from. Its abstract view is a map from belt
/// name to `BeltInfo`.
pub struct StagingFactory {
    belts: Vec<BeltSlot>,
    device: wgpu::Device,
}

impl View for StagingFactory {
    type V = Map<Seq<char>, BeltInfo>;

    closed spec fn view(&self) -> Map<Seq<char>, BeltInfo> {
        slots_map(self.belts@)
    }
}

/// A per-belt write session: the exclusive lease on one registered belt,
/// together with the device handle needed to allocate staging chunks. It is
/// created by `StagingFactory::fetch_stager` and must be given back with
/// `StagingFactory::return_stager` before the frame's `submit_all`.
pub struct Stager {
    name: String,
    belt: wgpu::util::StagingBelt,
    device: wgpu::Device,
}

impl StagingFactory {
    /// Belt names are unique keys, and no stored belt has a CPU-writable
    /// view still out (a stager must release every staging area it created
    /// before it can be returned, so belts come back quiescent).
    pub closed spec fn wf(self) -> bool {
        &&& unique_names(self.belts@)
        &&& slots_views_zero(self.belts@)
    }

    /// Every registered belt that is in place has an empty open write
    /// batch: all copies recorded this frame have been closed into the
    /// command stream by `submit_all`.
    pub closed spec fn batches_closed(self) -> bool {
        forall|i: int| 0 <= i < self.belts@.len() ==> slot_batch_closed(#[trigger] self.belts@[i])
    }

    /// Every registered belt that is in place has no closed staging chunks
    /// awaiting reclaim: `recall_all` has scheduled them all.
    pub closed spec fn chunks_reclaimed(self) -> bool {
        forall|i: int| 0 <= i < self.belts@.len() ==> slot_reclaimed(#[trigger] self.belts@[i])
    }

    /// A fresh factory with no registered belts.
    pub fn new(device: &wgpu::Device) -> (r: StagingFactory)
        ensures
            r.wf(),
            r@ == Map::<Seq<char>, BeltInfo>::empty(),
            r.batches_closed(),
            r.chunks_reclaimed(),
    {
        let r = StagingFactory { belts: Vec::new(), device: device_clone(device) };
        proof {
            assert_maps_equal!(slots_map(r.belts@), Map::<Seq<char>, BeltInfo>::empty());
        }
        r
    }

    /// The index of the slot named `name`, if any.
    fn find_index(&self, name: &str) -> (r: Option<usize>)
        ensures
            match r {
                Some(i) => i < self.belts@.len() && self.belts@[i as int].name@ == name@,
                None => !has_name(self.belts@, name@),
            },
    {
        let mut i: usize = 0;
        while i < self.belts.len()
            invariant
                0 <= i <= self.belts@.len(),
                forall|j: int| 0 <= j < i ==> (#[trigger] self.belts@[j].name@) != name@,
            decreases self.belts@.len() - i,
        {
            if str_eq(self.belts[i].name.as_str(), name) {
                return Some(i);
            }
            i = i + 1;
        }
        None
    }

    /// Register a belt under `name`, allocating staging memory in chunks of
    /// `chunk_size` bytes. Registration happens once, at setup time:
    /// registering a name twice is a programming error, excluded for
    /// verified callers; an unverified caller doing so is refused at once
    /// and the registry is left unchanged.
    pub fn create_stager(&mut self, name: String, chunk_size: u64) -> (r: Result<
        (),
        StagingError,
    >)
        requires
            old(self).wf(),
            !old(self)@.contains_key(name@),
        ensures
            final(self).wf(),
            r is Ok <==> !old(self)@.contains_key(name@),
            r is Ok ==> final(self)@ == old(self)@.insert(
                name@,
                BeltInfo { chunk_size, leased: false },
            ),
            r is Err ==> final(self)@ == old(self)@ && r == Err::<(), StagingError>(
                StagingError::DuplicateBelt,
            ),
            old(self).batches_closed() ==> final(self).batches_closed(),
            old(self).chunks_reclaimed() ==> final(self).chunks_reclaimed(),
    {
        match self.find_index(name.as_str()) {
            Some(_) => {
                proof {
                    let k = name_index(self.belts@, name@);
                    lemma_slots_map_at(self.belts@, k);
                }
                Err(StagingError::DuplicateBelt)
            },
            None => {
                let belt = belt_new(&self.device, chunk_size);
                let ghost old_slots = self.belts@;
                let slot = BeltSlot { name, chunk_size, belt: Some(belt) };
                proof {
                    lemma_slots_map_push(old_slots, slot);
                }
                self.belts.push(slot);
                proof {
                    assert(forall|k: int|
                        0 <= k < old_slots.len() ==> (#[trigger] self.belts@[k]) == old_slots[k]);
                    assert(slot_views_zero(self.belts@[old_slots.len() as int]));
                    assert(slot_batch_closed(self.belts@[old_slots.len() as int]));
                    assert(slot_reclaimed(self.belts@[old_slots.len() as int]));
                }
                Ok(())
            },
        }
    }

    /// Fetch the belt registered under `name`, taking its exclusive lease
    /// for one write session. Fetching an unknown name, or a belt whose
    /// lease is already out this frame, is a programming error, excluded
    /// for verified callers; an unverified caller doing so is refused at
    /// once — never blocked — and the registry is left unchanged.
    pub fn fetch_stager(&mut self, name: &str) -> (r: Result<Stager, StagingError>)
        requires
            old(self).wf(),
            old(self)@.contains_key(name@),
            !old(self)@[name@].leased,
        ensures
            final(self).wf(),
            r is Ok <==> old(self)@.contains_key(name@) && !old(self)@[name@].leased,
            r matches Ok(s) ==> s.spec_name() == name@ && s.spec_views() == 0 && final(self)@
                == old(self)@.insert(
                name@,
                BeltInfo { chunk_size: old(self)@[name@].chunk_size, leased: true },
            ),
            r is Err ==> final(self)@ == old(self)@,
            !old(self)@.contains_key(name@) ==> r == Err::<Stager, StagingError>(
                StagingError::UnknownBelt,
            ),
            old(self)@.contains_key(name@) && old(self)@[name@].leased ==> r == Err::<
                Stager,
                StagingError,
            >(StagingError::BeltAlreadyLeased),
            old(self).batches_closed() ==> final(self).batches_closed(),
            old(self).chunks_reclaimed() ==> final(self).chunks_reclaimed(),
    {
        match self.find_index(name) {
            None => Err(StagingError::UnknownBelt),
            Some(i) => {
                let ghost old_slots = self.belts@;
                proof {
                    lemma_slots_map_at(old_slots, i as int);
                }
                let mut slot = self.belts.remove(i);
                match slot.belt.take() {
                    None => {
                        proof {
                            lemma_slots_map_update(old_slots, i as int, slot);
                            assert(old_slots.update(i as int, slot) =~= old_slots);
                            assert(slots_map(old_slots).insert(
                                name@,
                                slot_info(slot),
                            ) =~= slots_map(old_slots));
                        }
                        self.belts.insert(i, slot);
                        proof {
                            assert(self.belts@ =~= old_slots.update(i as int, slot));
                        }
                        Err(StagingError::BeltAlreadyLeased)
                    },
                    Some(belt) => {
                        let stager_name = slot.name.clone();
                        let ghost slot1 = slot;
                        proof {
                            lemma_slots_map_update(old_slots, i as int, slot);
                        }
                        self.belts.insert(i, slot);
                        proof {
                            assert(self.belts@ =~= old_slots.update(i as int, slot1));
                            assert(forall|k: int|
                                0 <= k < old_slots.len() && k != i ==> (#[trigger] self.belts@[k])
                                    == old_slots[k]);
                            assert(self.belts@[i as int].belt is None);
                        }
                        Ok(Stager { name: stager_name, belt, device: device_clone(&self.device) })
                    },
                }
            },
        }
    }

    /// Give a stager's belt back to the registry, releasing its lease.
    /// Every staging area the session created must have been released
    /// first. The session must have come from this factory: a name that is
    /// unknown here, or whose belt is not out on lease, is refused, the
    /// registry is left unchanged, and the refused stager is destroyed with
    /// its belt (the original design released such a lease when the
    /// session's guard was dropped; here the belt travels with the session,
    /// so a session refused by the wrong registry cannot restore it).
    pub fn return_stager(&mut self, stager: Stager) -> (r: Result<(), StagingError>)
        requires
            old(self).wf(),
            stager.spec_views() == 0,
            old(self)@.contains_key(stager.spec_name()),
            old(self)@[stager.spec_name()].leased,
        ensures
            final(self).wf(),
            r is Ok <==> old(self)@.contains_key(stager.spec_name()) && old(
                self,
            )@[stager.spec_name()].leased,
            r is Ok ==> final(self)@ == old(self)@.insert(
                stager.spec_name(),
                BeltInfo { chunk_size: old(self)@[stager.spec_name()].chunk_size, leased: false },
            ),
            r is Err ==> final(self)@ == old(self)@,
            !old(self)@.contains_key(stager.spec_name()) ==> r == Err::<(), StagingError>(
                StagingError::UnknownBelt,
            ),
            old(self)@.contains_key(stager.spec_name()) && !old(
                self,
            )@[stager.spec_name()].leased ==> r == Err::<(), StagingError>(
                StagingError::BeltNotLeased,
            ),
    {
        let Stager { name, belt, device: _ } = stager;
        match self.find_index(name.as_str()) {
            None => Err(StagingError::UnknownBelt),
            Some(i) => {
                let ghost old_slots = self.belts@;
                proof {
                    lemma_slots_map_at(old_slots, i as int);
                }
                let mut slot = self.belts.remove(i);
                if slot.belt.is_some() {
                    proof {
                        lemma_slots_map_update(old_slots, i as int, slot);
                        assert(old_slots.update(i as int, slot) =~= old_slots);
                        assert(slots_map(old_slots).insert(
                            name@,
                            slot_info(slot),
                        ) =~= slots_map(old_slots));
                    }
                    self.belts.insert(i, slot);
                    proof {
                        assert(self.belts@ =~= old_slots.update(i as int, slot));
                    }
                    Err(StagingError::BeltNotLeased)
                } else {
                    slot.belt = Some(belt);
                    let ghost slot1 = slot;
                    proof {
                        lemma_slots_map_update(old_slots, i as int, slot);
                    }
                    self.belts.insert(i, slot);
                    proof {
                        assert(self.belts@ =~= old_slots.update(i as int, slot1));
                        assert(forall|k: int|
                            0 <= k < old_slots.len() && k != i ==> (#[trigger] self.belts@[k])
                                == old_slots[k]);
                        assert(slot_views_zero(slot1));
                    }
                    Ok(())
                }
            },
        }
    }

    /// Whether any belt's lease is still out.
    fn any_leased(&self) -> (r: bool)
        requires
            self.wf(),
        ensures
            r <==> exists|i: int|
                0 <= i < self.belts@.len() && (#[trigger] self.belts@[i].belt) is None,
    {
        let mut i: usize = 0;
        while i < self.belts.len()
            invariant
                0 <= i <= self.belts@.len(),
                forall|j: int| 0 <= j < i ==> (#[trigger] self.belts@[j].belt) is Some,
            decreases self.belts@.len() - i,
        {
            if self.belts[i].belt.is_none() {
                return true;
            }
            i = i + 1;
        }
        false
    }

    /// Close every belt's current write batch, so the copy commands recorded
    /// this frame become part of the command stream about to be submitted.
    /// Must run after every stager of the frame has been returned and before
    /// the command buffer reaches the queue: a lease still out is a
    /// programming error, excluded for verified callers; an unverified
    /// caller in that state is refused with nothing closed. On success
    /// every belt's open batch is empty. Belts that staged nothing this
    /// frame are unaffected, and the registry reads the same afterwards.
    pub fn submit_all(&mut self) -> (r: Result<(), StagingError>)
        requires
            old(self).wf(),
            forall|n: Seq<char>|
                old(self)@.contains_key(n) ==> !(#[trigger] old(self)@[n]).leased,
        ensures
            final(self).wf(),
            final(self)@ == old(self)@,
            r is Ok <==> (forall|n: Seq<char>|
                old(self)@.contains_key(n) ==> !(#[trigger] old(self)@[n]).leased),
            r is Ok ==> final(self).batches_closed(),
            r is Err ==> r == Err::<(), StagingError>(StagingError::BeltStillLeased),
    {
        if self.any_leased() {
            proof {
                let i = choose|i: int|
                    0 <= i < self.belts@.len() && (#[trigger] self.belts@[i].belt) is None;
                lemma_some_leased(self.belts@, i);
            }
            return Err(StagingError::BeltStillLeased);
        }
        proof {
            lemma_all_idle(self.belts@);
        }
        let ghost old_slots = self.belts@;
        let mut i: usize = 0;
        while i < self.belts.len()
            invariant
                0 <= i <= self.belts@.len(),
                unique_names(old_slots),
                like_slots(old_slots, self.belts@),
                slots_views_zero(self.belts@),
                forall|j: int| 0 <= j < i ==> slot_batch_closed(#[trigger] self.belts@[j]),
            decreases self.belts@.len() - i,
        {
            let ghost pre_slots = self.belts@;
            let mut slot = self.belts.remove(i);
            let ghost slot0 = slot;
            match slot.belt.take() {
                Some(mut b) => {
                    belt_finish(&mut b);
                    slot.belt = Some(b);
                },
                None => {},
            }
            let ghost slot1 = slot;
            self.belts.insert(i, slot);
            proof {
                assert(slot0 == pre_slots[i as int]);
                assert(like_slot(old_slots[i as int], slot1));
                assert(self.belts@ =~= pre_slots.update(i as int, slot1));
                lemma_like_slots_update(old_slots, pre_slots, i as int, slot1);
                assert(slot_views_zero(slot1) && slot_batch_closed(slot1));
                assert forall|j: int|
                    0 <= j < self.belts@.len() implies slot_views_zero(
                    #[trigger] self.belts@[j],
                ) by {
                    if j != i {
                        assert(self.belts@[j] == pre_slots[j]);
                    }
                }
                assert forall|j: int| 0 <= j < i + 1 implies slot_batch_closed(
                    #[trigger] self.belts@[j],
                ) by {
                    if j != i {
                        assert(self.belts@[j] == pre_slots[j]);
                    }
                }
            }
            i = i + 1;
        }
        proof {
            lemma_map_of_like_slots(old_slots, self.belts@);
        }
        Ok(())
    }

    /// Reclaim every belt's staging chunks once the device signals that the
    /// batch submitted after the previous `submit_all` is done: on success
    /// no belt has a closed chunk awaiting reclaim. Runs strictly after
    /// `submit_all` closed the frame's batches, checks the device once
    /// without ever blocking on it, and leaves no reclamation work pending
    /// past the call; belts that staged nothing this frame are unaffected.
    /// A lease still out is a programming error, excluded for verified
    /// callers; an unverified caller in that state is refused with nothing
    /// touched. The registry reads the same afterwards.
    pub fn recall_all(&mut self) -> (r: Result<(), StagingError>)
        requires
            old(self).wf(),
            old(self).batches_closed(),
            forall|n: Seq<char>|
                old(self)@.contains_key(n) ==> !(#[trigger] old(self)@[n]).leased,
        ensures
            final(self).wf(),
            final(self)@ == old(self)@,
            r is Ok <==> (forall|n: Seq<char>|
                old(self)@.contains_key(n) ==> !(#[trigger] old(self)@[n]).leased),
            r is Ok ==> final(self).chunks_reclaimed() && final(self).batches_closed(),
            r is Err ==> r == Err::<(), StagingError>(StagingError::BeltStillLeased),
    {
        if self.any_leased() {
            proof {
                let i = choose|i: int|
                    0 <= i < self.belts@.len() && (#[trigger] self.belts@[i].belt) is None;
                lemma_some_leased(self.belts@, i);
            }
            return Err(StagingError::BeltStillLeased);
        }
        proof {
            lemma_all_idle(self.belts@);
        }
        let ghost old_slots = self.belts@;
        let mut i: usize = 0;
        while i < self.belts.len()
            invariant
                0 <= i <= self.belts@.len(),
                unique_names(old_slots),
                like_slots(old_slots, self.belts@),
                slots_views_zero(self.belts@),
                forall|j: int| 0 <= j < self.belts@.len() ==> slot_batch_closed(
                    #[trigger] self.belts@[j],
                ),
                forall|j: int| 0 <= j < i ==> slot_reclaimed(#[trigger] self.belts@[j]),
            decreases self.belts@.len() - i,
        {
            let ghost pre_slots = self.belts@;
            let mut slot = self.belts.remove(i);
            let ghost slot0 = slot;
            match slot.belt.take() {
                Some(mut b) => {
                    belt_recall(&mut b);
                    slot.belt = Some(b);
                },
                None => {},
            }
            let ghost slot1 = slot;
            self.belts.insert(i, slot);
            proof {
                assert(slot0 == pre_slots[i as int]);
                assert(like_slot(old_slots[i as int], slot1));
                assert(self.belts@ =~= pre_slots.update(i as int, slot1));
                lemma_like_slots_update(old_slots, pre_slots, i as int, slot1);
                assert(slot_views_zero(slot1) && slot_batch_closed(slot1) && slot_reclaimed(
                    slot1,
                ));
                assert forall|j: int|
                    0 <= j < self.belts@.len() implies slot_views_zero(#[trigger] self.belts@[j])
                    && slot_batch_closed(self.belts@[j]) by {
                    if j != i {
                        assert(self.belts@[j] == pre_slots[j]);
                    }
                }
                assert forall|j: int| 0 <= j < i + 1 implies slot_reclaimed(
                    #[trigger] self.belts@[j],
                ) by {
                    if j != i {
                        assert(self.belts@[j] == pre_slots[j]);
                    }
                }
            }
            i = i + 1;
        }
        device_poll(&self.device);
        proof {
            lemma_map_of_like_slots(old_slots, self.belts@);
        }
        Ok(())
    }
}

/// Slot sequences in pointwise agreement denote the same registry.
proof fn lemma_map_of_like_slots(a: Seq<BeltSlot>, b: Seq<BeltSlot>)
    requires
        unique_names(a),
        like_slots(a, b),
    ensures
        unique_names(b),
        slots_map(b) == slots_map(a),
{
    assert(unique_names(b));
    assert_maps_equal!(slots_map(b), slots_map(a), name => {
        if has_name(a, name) || has_name(b, name) {
            let k = if has_name(a, name) { name_index(a, name) } else { name_index(b, name) };
            assert(0 <= k < a.len());
            lemma_slots_map_at(a, k);
            lemma_slots_map_at(b, k);
        }
    });
}

impl Stager {
    /// The name of the belt this session leases.
    pub closed spec fn spec_name(&self) -> Seq<char> {
        self.name@
    }

    /// The identity of the leased belt; staging areas carry it, and only
    /// they can be given back to this session.
    pub closed spec fn spec_belt_id(&self) -> int {
        belt_id(self.belt)
    }

    /// How many staging areas this session has created and not yet given
    /// back. All must be released before the session is returned.
    pub closed spec fn spec_views(&self) -> nat {
        belt_views(self.belt)
    }

    /// How many staging slices this session's belt has allocated in its
    /// open write batch.
    pub closed spec fn spec_staged(&self) -> nat {
        belt_staged(self.belt)
    }

    /// The name of the belt this session leases.
    pub fn name(&self) -> (r: &str)
        ensures
            r@ == self.spec_name(),
    {
        self.name.as_str()
    }

    /// Allocate a staging area of exactly `size` bytes, record into
    /// `encoder` the copy that will move it into `target` at `offset` when
    /// this frame's batch is submitted, and hand back the CPU-writable view
    /// for the caller to fill. A zero-size area is meaningless, a
    /// programming error excluded for verified callers and refused for
    /// unverified ones. The view must be given back with `release_area`
    /// before the stager is returned; the copy joins the encoder's carried
    /// copies, with the bytes then in the view, at that point. Offset and
    /// size follow the device's 4-byte copy alignment.
    pub fn create_staging_area(
        &mut self,
        encoder: &mut wgpu::CommandEncoder,
        target: &wgpu::Buffer,
        offset: u64,
        size: u64,
    ) -> (r: Result<wgpu::BufferViewMut, StagingError>)
        requires
            offset % 4 == 0,
            size % 4 == 0,
            size != 0,
            offset + size <= buffer_len(*target),
        ensures
            final(self).spec_name() == old(self).spec_name(),
            final(self).spec_belt_id() == old(self).spec_belt_id(),
            encoder_id(*final(encoder)) == encoder_id(*old(encoder)),
            encoder_copies(*final(encoder)) == encoder_copies(*old(encoder)),
            r is Ok <==> size != 0,
            r matches Ok(v) ==> {
                &&& view_bytes(v).len() == size
                &&& view_belt(v) == old(self).spec_belt_id()
                &&& view_dst(v) == *target
                &&& view_dst_offset(v) == offset
                &&& view_encoder(v) == encoder_id(*old(encoder))
                &&& final(self).spec_views() == old(self).spec_views() + 1
                &&& final(self).spec_staged() == old(self).spec_staged() + 1
            },
            r is Err ==> *final(self) == *old(self) && r == Err::<
                wgpu::BufferViewMut,
                StagingError,
            >(StagingError::ZeroSizeWrite),
    {
        if size == 0 {
            return Err(StagingError::ZeroSizeWrite);
        }
        Ok(belt_write_buffer(&mut self.belt, encoder, target, offset, size))
    }

    /// Give a staging area back after filling it: the staged copy's bytes
    /// are fixed, and the copy — destination, offset and exactly the bytes
    /// the view held — joins the carried copies of the encoder it was
    /// recorded into. The view must be one this session created, given
    /// back with that same encoder.
    pub fn release_area(&mut self, encoder: &mut wgpu::CommandEncoder, view: wgpu::BufferViewMut)
        requires
            view_belt(view) == old(self).spec_belt_id(),
            view_encoder(view) == encoder_id(*old(encoder)),
            old(self).spec_views() >= 1,
        ensures
            final(self).spec_name() == old(self).spec_name(),
            final(self).spec_belt_id() == old(self).spec_belt_id(),
            final(self).spec_views() == old(self).spec_views() - 1,
            final(self).spec_staged() == old(self).spec_staged(),
            encoder_id(*final(encoder)) == encoder_id(*old(encoder)),
            encoder_copies(*final(encoder)) == encoder_copies(*old(encoder)).push(
                RecordedCopy {
                    dst: view_dst(view),
                    dst_offset: view_dst_offset(view),
                    bytes: view_bytes(view),
                },
            ),
    {
        belt_drop_view(&mut self.belt, encoder, view)
    }

    /// Stage a write of `data` into `target` at `offset`: allocate a
    /// staging area of the data's size, fill it with exactly `data`, give
    /// it back, and leave the copy — carrying exactly `data` — among the
    /// encoder's carried copies. A zero-length write is a programming
    /// error, excluded for verified callers and refused for unverified
    /// ones, with nothing recorded. Offset and length follow the device's
    /// 4-byte copy alignment.
    pub fn write_buffer(
        &mut self,
        encoder: &mut wgpu::CommandEncoder,
        target: &wgpu::Buffer,
        offset: u64,
        data: &[u8],
    ) -> (r: Result<(), StagingError>)
        requires
            offset % 4 == 0,
            data@.len() % 4 == 0,
            data@.len() != 0,
            offset + data@.len() <= buffer_len(*target),
        ensures
            final(self).spec_name() == old(self).spec_name(),
            final(self).spec_belt_id() == old(self).spec_belt_id(),
            final(self).spec_views() == old(self).spec_views(),
            encoder_id(*final(encoder)) == encoder_id(*old(encoder)),
            r is Ok <==> data@.len() != 0,
            r is Ok ==> {
                &&& final(self).spec_staged() == old(self).spec_staged() + 1
                &&& encoder_copies(*final(encoder)) == encoder_copies(*old(encoder)).push(
                    RecordedCopy { dst: *target, dst_offset: offset, bytes: data@ },
                )
            },
            r is Err ==> *final(self) == *old(self) && *final(encoder) == *old(encoder) && r
                == Err::<(), StagingError>(StagingError::ZeroSizeWrite),
    {
        let n: usize = data.len();
        if n == 0 {
            return Err(StagingError::ZeroSizeWrite);
        }
        let mut view = belt_write_buffer(&mut self.belt, encoder, target, offset, n as u64);
        view_write(&mut view, 0, data);
        proof {
            assert(view_bytes(view) =~= data@);
        }
        belt_drop_view(&mut self.belt, encoder, view);
        Ok(())
    }
}

} // verus!
