//! Physical texture allocation.
//!
//! Every logical texture is live from the pass that creates it to the last
//! pass that reads it. Logical textures whose lifetimes follow one another
//! and whose formats agree are packed into one physical texture, first fit,
//! in the order in which the lifetimes are given.

use super::pipeline_specs::ScaleFactor;
use vstd::hash_map::StringHashMap;
use vstd::prelude::*;

verus! {

/// The lifetime of a logical texture in the pipeline
#[derive(Debug)]
pub struct TextureLifetime {
    /// Logical identifier for this texture
    pub logical_id: String,
    /// Number of color components
    pub components: u32,
    /// Scale factors relative to input dimensions
    pub scale_factor: (ScaleFactor, ScaleFactor),
    /// Pass index where this texture is created
    pub created_at: usize,
    /// Pass index where this texture is last used
    pub last_used_at: usize,
}

/// A physical texture that will be allocated in the GPU
#[derive(Debug, Clone, Copy, PartialEq, Eq)]
pub struct PhysicalTexture {
    /// Identifier: 0, 1, 2, ... for allocated textures, `u32::MAX` for the source
    pub id: u32,
    /// Number of color components
    pub components: u32,
    /// Scale factors relative to input dimensions
    pub scale_factor: (ScaleFactor, ScaleFactor),
    /// Whether this is the pipeline's source texture
    pub is_source: bool,
}

/// A `TextureLifetime` with its identifier as a character sequence.
pub ghost struct LifetimeView {
    pub logical_id: Seq<char>,
    pub components: u32,
    pub scale_factor: (ScaleFactor, ScaleFactor),
    pub created_at: usize,
    pub last_used_at: usize,
}

impl View for TextureLifetime {
    type V = LifetimeView;

    open spec fn view(&self) -> LifetimeView {
        LifetimeView {
            logical_id: self.logical_id@,
            components: self.components,
            scale_factor: self.scale_factor,
            created_at: self.created_at,
            last_used_at: self.last_used_at,
        }
    }
}

impl Clone for TextureLifetime {
    fn clone(&self) -> (out: Self)
        ensures
            out@ == self@,
    {
        TextureLifetime {
            logical_id: self.logical_id.clone(),
            components: self.components,
            scale_factor: self.scale_factor,
            created_at: self.created_at,
            last_used_at: self.last_used_at,
        }
    }
}

/// The views of a list of lifetimes.
pub open spec fn lifetime_views(lifetimes: Seq<TextureLifetime>) -> Seq<LifetimeView> {
    Seq::new(lifetimes.len(), |i: int| lifetimes[i]@)
}

/// What a physical texture slot remembers of the logical texture that took
/// it last.
#[derive(Clone, Copy)]
pub struct Occupant {
    /// Number of color components
    pub components: u32,
    /// Scale factors relative to input dimensions
    pub scale_factor: (ScaleFactor, ScaleFactor),
    /// Pass index where the occupant is last used
    pub last_used_at: usize,
}

/// The occupant that a lifetime makes.
pub open spec fn occupant_of(lifetime: LifetimeView) -> Occupant {
    Occupant {
        components: lifetime.components,
        scale_factor: lifetime.scale_factor,
        last_used_at: lifetime.last_used_at,
    }
}

/// Whether `next` may take the slot of `occupant`: the occupant is no longer
/// used when `next` is created, and both have the same component count and
/// the same scale factors, numerator for numerator.
pub open spec fn can_follow(occupant: Occupant, next: LifetimeView) -> bool {
    &&& occupant.last_used_at < next.created_at
    &&& occupant.components == next.components
    &&& occupant.scale_factor == next.scale_factor
}

/// The first slot at or after `from` that `next` may take, or the number of
/// slots where there is none.
pub open spec fn first_fit(slots: Seq<Occupant>, next: LifetimeView, from: int) -> int
    decreases slots.len() - from,
{
    if from >= slots.len() || can_follow(slots[from], next) {
        from
    } else {
        first_fit(slots, next, from + 1)
    }
}

/// The source texture: four components at scale 1/1 under the reserved
/// identifier `u32::MAX`.
pub open spec fn source_texture() -> PhysicalTexture {
    PhysicalTexture {
        id: u32::MAX,
        components: 4,
        scale_factor: (
            ScaleFactor { numerator: 1, denominator: 1 },
            ScaleFactor { numerator: 1, denominator: 1 },
        ),
        is_source: true,
    }
}

/// The outcome of an allocation: the occupant of every slot, the physical
/// textures, and the physical texture of every logical one.
pub ghost struct Allocation {
    pub slots: Seq<Occupant>,
    pub textures: Seq<PhysicalTexture>,
    pub assignments: Map<Seq<char>, u32>,
}

/// The allocation before the first lifetime: the source texture alone.
pub open spec fn empty_allocation() -> Allocation {
    Allocation {
        slots: Seq::empty(),
        textures: seq![source_texture()],
        assignments: Map::empty().insert("SOURCE"@, u32::MAX),
    }
}

/// The allocation after one more lifetime: it takes the first slot that it
/// may take; where there is none, a new slot and a new physical texture
/// are made for it.
pub open spec fn allocate_next(before: Allocation, next: LifetimeView) -> Allocation {
    let slot = first_fit(before.slots, next, 0);
    if slot < before.slots.len() {
        Allocation {
            slots: before.slots.update(slot, occupant_of(next)),
            textures: before.textures,
            assignments: before.assignments.insert(next.logical_id, slot as u32),
        }
    } else {
        Allocation {
            slots: before.slots.push(occupant_of(next)),
            textures: before.textures.push(
                PhysicalTexture {
                    id: slot as u32,
                    components: next.components,
                    scale_factor: next.scale_factor,
                    is_source: false,
                },
            ),
            assignments: before.assignments.insert(next.logical_id, slot as u32),
        }
    }
}

/// The allocation for a list of lifetimes, taken in order.
pub open spec fn allocation(lifetimes: Seq<LifetimeView>) -> Allocation
    decreases lifetimes.len(),
{
    if lifetimes.len() == 0 {
        empty_allocation()
    } else {
        allocate_next(allocation(lifetimes.drop_last()), lifetimes.last())
    }
}

/// The slot that lifetime `i` is given.
pub open spec fn slot_of(lifetimes: Seq<LifetimeView>, i: int) -> int {
    first_fit(allocation(lifetimes.take(i)).slots, lifetimes[i], 0)
}

/// Whether every lifetime ends no earlier than it begins.
pub open spec fn lifetimes_ordered(lifetimes: Seq<LifetimeView>) -> bool {
    forall|i: int|
        0 <= i < lifetimes.len() ==> (#[trigger] lifetimes[i]).created_at
            <= lifetimes[i].last_used_at
}

/// Whether every lifetime has an identifier of its own, none of them `SOURCE`.
pub open spec fn identifiers_distinct(lifetimes: Seq<LifetimeView>) -> bool {
    &&& forall|i: int|
        0 <= i < lifetimes.len() ==> (#[trigger] lifetimes[i]).logical_id != "SOURCE"@
    &&& forall|i: int, j: int|
        0 <= i < j < lifetimes.len() ==> (#[trigger] lifetimes[i]).logical_id != (
        #[trigger] lifetimes[j]).logical_id
}

/// Whether two lifetimes have a pass in common.
pub open spec fn overlapping(a: LifetimeView, b: LifetimeView) -> bool {
    a.created_at <= b.last_used_at && b.created_at <= a.last_used_at
}

/// The first fit is a slot that the lifetime may take, and no slot before
/// it is one.
pub proof fn lemma_first_fit(slots: Seq<Occupant>, next: LifetimeView, from: int)
    requires
        0 <= from <= slots.len(),
    ensures
        from <= first_fit(slots, next, from) <= slots.len(),
        first_fit(slots, next, from) < slots.len() ==> can_follow(
            slots[first_fit(slots, next, from)],
            next,
        ),
        forall|k: int| from <= k < first_fit(slots, next, from) ==> !can_follow(slots[k], next),
    decreases slots.len() - from,
{
    if from < slots.len() && !can_follow(slots[from], next) {
        lemma_first_fit(slots, next, from + 1);
    }
}

/// The shape of an allocation: one physical texture per slot after the
/// source texture, numbered in order, and never more slots than lifetimes.
pub proof fn lemma_allocation_shape(lifetimes: Seq<LifetimeView>)
    ensures
        allocation(lifetimes).slots.len() <= lifetimes.len(),
        allocation(lifetimes).textures.len() == allocation(lifetimes).slots.len() + 1,
        allocation(lifetimes).textures[0] == source_texture(),
        forall|k: int|
            0 <= k < allocation(lifetimes).slots.len() ==> (#[trigger] allocation(
                lifetimes,
            ).textures[k + 1]).id == k as u32 && !allocation(lifetimes).textures[k + 1].is_source,
        forall|k: int|
            0 <= k < allocation(lifetimes).slots.len() ==> (#[trigger] allocation(
                lifetimes,
            ).textures[k + 1]).components == allocation(lifetimes).slots[k].components
                && allocation(lifetimes).textures[k + 1].scale_factor == allocation(
                lifetimes,
            ).slots[k].scale_factor,
    decreases lifetimes.len(),
{
    if lifetimes.len() > 0 {
        let before = allocation(lifetimes.drop_last());
        lemma_allocation_shape(lifetimes.drop_last());
        lemma_first_fit(before.slots, lifetimes.last(), 0);
    }
}

/// No two physical textures have the same identifier, and without
/// lifetimes the source texture is the only one.
pub proof fn lemma_identifiers_unique(lifetimes: Seq<LifetimeView>)
    requires
        lifetimes.len() <= u32::MAX,
    ensures
        forall|a: int, b: int|
            0 <= a < b < allocation(lifetimes).textures.len() ==> allocation(
                lifetimes,
            ).textures[a].id != allocation(lifetimes).textures[b].id,
        lifetimes.len() == 0 ==> allocation(lifetimes).textures == seq![source_texture()],
{
    lemma_allocation_shape(lifetimes);
    let textures = allocation(lifetimes).textures;
    assert forall|a: int, b: int| 0 <= a < b < textures.len() implies textures[a].id
        != textures[b].id by {
        assert(textures[(b - 1) + 1].id == (b - 1) as u32);
        if a > 0 {
            assert(textures[(a - 1) + 1].id == (a - 1) as u32);
        }
    }
}

/// An allocation grows: slots are never removed.
pub proof fn lemma_slots_grow(lifetimes: Seq<LifetimeView>, n: int)
    requires
        0 <= n <= lifetimes.len(),
    ensures
        allocation(lifetimes.take(n)).slots.len() <= allocation(lifetimes).slots.len(),
    decreases lifetimes.len() - n,
{
    if n < lifetimes.len() {
        assert(lifetimes.take(n + 1).drop_last() =~= lifetimes.take(n));
        lemma_first_fit(allocation(lifetimes.take(n)).slots, lifetimes[n], 0);
        lemma_slots_grow(lifetimes, n + 1);
    } else {
        assert(lifetimes.take(n) =~= lifetimes);
    }
}

/// Every lifetime placed so far has the format of the occupant of its slot
/// and ends no later than that occupant.
pub proof fn lemma_occupants_cover(lifetimes: Seq<LifetimeView>, i: int)
    requires
        lifetimes_ordered(lifetimes),
        0 <= i < lifetimes.len(),
    ensures
        0 <= slot_of(lifetimes, i) < allocation(lifetimes).slots.len(),
        allocation(lifetimes).slots[slot_of(lifetimes, i)].components == lifetimes[i].components,
        allocation(lifetimes).slots[slot_of(lifetimes, i)].scale_factor
            == lifetimes[i].scale_factor,
        lifetimes[i].last_used_at <= allocation(lifetimes).slots[slot_of(
            lifetimes,
            i,
        )].last_used_at,
    decreases lifetimes.len(),
{
    let head = lifetimes.drop_last();
    let before = allocation(head);
    let last = lifetimes.last();
    lemma_first_fit(before.slots, last, 0);
    assert(lifetimes.take(lifetimes.len() - 1) =~= head);
    if i < lifetimes.len() - 1 {
        assert(head.take(i) =~= lifetimes.take(i));
        assert(head[i] == lifetimes[i]);
        assert(lifetimes_ordered(head)) by {
            assert forall|k: int| 0 <= k < head.len() implies (#[trigger] head[k]).created_at
                <= head[k].last_used_at by {
                assert(head[k] == lifetimes[k]);
            }
        }
        lemma_occupants_cover(head, i);
        assert(slot_of(head, i) == slot_of(lifetimes, i));
    }
}

/// Two lifetimes that are given the same slot follow one another, with no
/// pass in common, and have the same component count and scale factors.
pub proof fn lemma_shared_slot(lifetimes: Seq<LifetimeView>, i: int, j: int)
    requires
        lifetimes_ordered(lifetimes),
        0 <= i < j < lifetimes.len(),
        slot_of(lifetimes, i) == slot_of(lifetimes, j),
    ensures
        lifetimes[i].last_used_at < lifetimes[j].created_at,
        !overlapping(lifetimes[i], lifetimes[j]),
        lifetimes[i].components == lifetimes[j].components,
        lifetimes[i].scale_factor == lifetimes[j].scale_factor,
{
    let head = lifetimes.take(j);
    assert(lifetimes_ordered(head)) by {
        assert forall|k: int| 0 <= k < head.len() implies (#[trigger] head[k]).created_at
            <= head[k].last_used_at by {
            assert(head[k] == lifetimes[k]);
        }
    }
    assert(head.take(i) =~= lifetimes.take(i));
    assert(head[i] == lifetimes[i]);
    lemma_occupants_cover(head, i);
    assert(slot_of(head, i) == slot_of(lifetimes, i));
    lemma_first_fit(allocation(head).slots, lifetimes[j], 0);
}

/// Where the lifetimes have identifiers of their own, the assignment of
/// each is the slot that it was given.
pub proof fn lemma_assignment_is_slot(lifetimes: Seq<LifetimeView>, i: int)
    requires
        identifiers_distinct(lifetimes),
        lifetimes.len() <= u32::MAX,
        0 <= i < lifetimes.len(),
    ensures
        allocation(lifetimes).assignments.contains_key(lifetimes[i].logical_id),
        allocation(lifetimes).assignments[lifetimes[i].logical_id] == slot_of(lifetimes, i),
        allocation(lifetimes).assignments[lifetimes[i].logical_id] != u32::MAX,
        allocation(lifetimes).assignments.contains_key("SOURCE"@),
        allocation(lifetimes).assignments["SOURCE"@] == u32::MAX,
    decreases lifetimes.len(),
{
    let head = lifetimes.drop_last();
    let before = allocation(head);
    let last = lifetimes.last();
    lemma_first_fit(before.slots, last, 0);
    lemma_allocation_shape(head);
    assert(lifetimes.take(lifetimes.len() - 1) =~= head);
    assert(identifiers_distinct(head)) by {
        assert forall|k: int| 0 <= k < head.len() implies (#[trigger] head[k]).logical_id
            != "SOURCE"@ by {
            assert(head[k] == lifetimes[k]);
        }
        assert forall|a: int, b: int| 0 <= a < b < head.len() implies (
        #[trigger] head[a]).logical_id != (#[trigger] head[b]).logical_id by {
            assert(head[a] == lifetimes[a]);
            assert(head[b] == lifetimes[b]);
        }
    }
    if head.len() > 0 {
        lemma_assignment_is_slot(head, 0);
    }
    if i < lifetimes.len() - 1 {
        assert(head.take(i) =~= lifetimes.take(i));
        assert(head[i] == lifetimes[i]);
        lemma_assignment_is_slot(head, i);
        assert(slot_of(head, i) == slot_of(lifetimes, i));
        assert(lifetimes[i].logical_id != lifetimes[lifetimes.len() - 1].logical_id);
    }
}

/// Two logical textures that are assigned the same physical texture have no
/// pass in common, and have the same component count and scale factors.
pub proof fn lemma_shared_texture(lifetimes: Seq<LifetimeView>, i: int, j: int)
    requires
        lifetimes_ordered(lifetimes),
        identifiers_distinct(lifetimes),
        lifetimes.len() <= u32::MAX,
        0 <= i < lifetimes.len(),
        0 <= j < lifetimes.len(),
        i != j,
        allocation(lifetimes).assignments[lifetimes[i].logical_id] == allocation(
            lifetimes,
        ).assignments[lifetimes[j].logical_id],
    ensures
        !overlapping(lifetimes[i], lifetimes[j]),
        lifetimes[i].components == lifetimes[j].components,
        lifetimes[i].scale_factor == lifetimes[j].scale_factor,
{
    lemma_assignment_is_slot(lifetimes, i);
    lemma_assignment_is_slot(lifetimes, j);
    lemma_occupants_cover(lifetimes, i);
    lemma_occupants_cover(lifetimes, j);
    lemma_allocation_shape(lifetimes);
    if i < j {
        lemma_shared_slot(lifetimes, i, j);
    } else {
        lemma_shared_slot(lifetimes, j, i);
    }
}

/// Two logical textures with different component counts, different scale
/// factors or a pass in common are assigned different physical textures.
pub proof fn lemma_incompatible_apart(lifetimes: Seq<LifetimeView>, i: int, j: int)
    requires
        lifetimes_ordered(lifetimes),
        identifiers_distinct(lifetimes),
        lifetimes.len() <= u32::MAX,
        0 <= i < lifetimes.len(),
        0 <= j < lifetimes.len(),
        i != j,
        lifetimes[i].components != lifetimes[j].components || lifetimes[i].scale_factor
            != lifetimes[j].scale_factor || overlapping(lifetimes[i], lifetimes[j]),
    ensures
        allocation(lifetimes).assignments[lifetimes[i].logical_id] != allocation(
            lifetimes,
        ).assignments[lifetimes[j].logical_id],
{
    if allocation(lifetimes).assignments[lifetimes[i].logical_id] == allocation(
        lifetimes,
    ).assignments[lifetimes[j].logical_id] {
        lemma_shared_texture(lifetimes, i, j);
    }
}

/// The textures that have an assignment are `SOURCE` and those that have a
/// lifetime.
pub proof fn lemma_assigned_names(lifetimes: Seq<LifetimeView>, name: Seq<char>)
    ensures
        allocation(lifetimes).assignments.contains_key(name) <==> name == "SOURCE"@ || exists|
            j: int,
        |
            0 <= j < lifetimes.len() && (#[trigger] lifetimes[j]).logical_id == name,
    decreases lifetimes.len(),
{
    if lifetimes.len() > 0 {
        let head = lifetimes.drop_last();
        lemma_assigned_names(head, name);
        if exists|j: int| 0 <= j < head.len() && (#[trigger] head[j]).logical_id == name {
            let j = choose|j: int| 0 <= j < head.len() && (#[trigger] head[j]).logical_id == name;
            assert(lifetimes[j].logical_id == name);
        }
        if exists|j: int| 0 <= j < lifetimes.len() && (#[trigger] lifetimes[j]).logical_id == name {
            let j = choose|j: int|
                0 <= j < lifetimes.len() && (#[trigger] lifetimes[j]).logical_id == name;
            if j < head.len() {
                assert(head[j].logical_id == name);
            }
        }
    }
}

/// Assigns a physical texture to every lifetime, in the order given, and
/// lists the physical textures, the source texture first.
pub fn assign_physical_textures(texture_lifetimes: &[TextureLifetime]) -> (out: (
    Vec<PhysicalTexture>,
    StringHashMap<u32>,
))
    requires
        texture_lifetimes@.len() <= u32::MAX,
    ensures
        out.0@ == allocation(lifetime_views(texture_lifetimes@)).textures,
        out.1@ == allocation(lifetime_views(texture_lifetimes@)).assignments,
{
    let mut physical_textures: Vec<PhysicalTexture> = Vec::new();
    let mut texture_assignments = StringHashMap::<u32>::new();
    let mut slots: Vec<Occupant> = Vec::new();
    physical_textures.push(
        PhysicalTexture {
            id: u32::MAX,
            components: 4,
            scale_factor: (ScaleFactor::new(1, 1), ScaleFactor::new(1, 1)),
            is_source: true,
        },
    );
    texture_assignments.insert("SOURCE".to_owned(), u32::MAX);
    let ghost all = lifetime_views(texture_lifetimes@);
    let mut i: usize = 0;
    proof {
        assert(all.take(0) =~= Seq::<LifetimeView>::empty());
        assert(physical_textures@ =~= seq![source_texture()]);
    }
    while i < texture_lifetimes.len()
        invariant
            i <= texture_lifetimes.len(),
            texture_lifetimes@.len() <= u32::MAX,
            all == lifetime_views(texture_lifetimes@),
            slots@ == allocation(all.take(i as int)).slots,
            physical_textures@ == allocation(all.take(i as int)).textures,
            texture_assignments@ == allocation(all.take(i as int)).assignments,
        decreases texture_lifetimes.len() - i,
    {
        let lifetime = &texture_lifetimes[i];
        proof {
            let now = all.take(i + 1);
            assert(now.drop_last() =~= all.take(i as int));
            assert(now.last() == lifetime@);
            lemma_allocation_shape(all.take(i as int));
        }
        let mut slot: usize = 0;
        while slot < slots.len() && !(slots[slot].last_used_at < lifetime.created_at
            && slots[slot].components == lifetime.components && slots[slot].scale_factor.0
            == lifetime.scale_factor.0 && slots[slot].scale_factor.1 == lifetime.scale_factor.1)
            invariant
                slot <= slots.len(),
                first_fit(slots@, lifetime@, 0) == first_fit(slots@, lifetime@, slot as int),
            decreases slots.len() - slot,
        {
            slot += 1;
        }
        let occupant = Occupant {
            components: lifetime.components,
            scale_factor: lifetime.scale_factor,
            last_used_at: lifetime.last_used_at,
        };
        if slot < slots.len() {
            slots.set(slot, occupant);
        } else {
            slots.push(occupant);
            physical_textures.push(
                PhysicalTexture {
                    id: slot as u32,
                    components: lifetime.components,
                    scale_factor: lifetime.scale_factor,
                    is_source: false,
                },
            );
        }
        texture_assignments.insert(lifetime.logical_id.clone(), slot as u32);
        i += 1;
    }
    proof {
        assert(all.take(texture_lifetimes.len() as int) =~= all);
    }
    (physical_textures, texture_assignments)
}

} // verus!
