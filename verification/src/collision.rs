//! Collisions between projectiles and the entities of the other side.
//!
//! Each tick every target is tested against every projectile of the opposing
//! side. Every pair whose bounding boxes overlap yields one event at the
//! target's position, and both of its entities are marked for removal. Nothing
//! is removed during the scan: the caller applies the result afterwards.

use vstd::prelude::*;
use std::collections::HashSet;
use vstd::std_specs::hash::group_hash_axioms;
use crate::fixed::{fixed_product, lemma_mul_fixed_range, magnitude, mul_fixed};

verus! {

/// Width and height of a sprite, in pixels.
#[derive(Clone, Copy, Debug, Default, PartialEq, Eq, Structural)]
pub struct SpriteSize {
    pub w: i64,
    pub h: i64,
}

/// Which party an entity belongs to.
#[derive(Clone, Copy, Debug, PartialEq, Eq, Structural)]
pub enum Side {
    Player,
    Enemy,
}

/// What the resolver needs to know of one entity.
#[derive(Clone, Copy, Debug, PartialEq, Eq)]
pub struct Collider {
    /// The host's identifier of the entity.
    pub entity: u64,
    /// Centre of the sprite.
    pub position: (i64, i64),
    /// Size of the sprite before scaling.
    pub size: SpriteSize,
    /// Horizontal and vertical scale of the sprite.
    pub scale: (i64, i64),
    /// The party the entity belongs to.
    pub side: Side,
}

/// The axis-aligned box of an entity for one tick. Its edges are wide integers
/// so that every position, size and scale has a box.
#[derive(Clone, Copy, Debug, PartialEq, Eq)]
pub struct BoundingBox {
    pub left: i128,
    pub right: i128,
    pub bottom: i128,
    pub top: i128,
}

/// One resolved hit.
#[derive(Clone, Copy, Debug, PartialEq, Eq)]
pub struct CollisionEvent {
    pub target_entity: u64,
    pub projectile_entity: u64,
    /// Where the target stood when it was hit.
    pub impact_position: (i64, i64),
}

/// The outcome of one scan: the hits in scan order and the entities to remove.
#[derive(Debug)]
pub struct Resolution {
    pub events: Vec<CollisionEvent>,
    pub despawn: HashSet<u64>,
}

impl BoundingBox {
    /// Two boxes overlap if their extents intersect on both axes; boxes that
    /// merely touch do not.
    pub open spec fn intersects(self, other: BoundingBox) -> bool {
        &&& self.left < other.right
        &&& self.right > other.left
        &&& self.bottom < other.top
        &&& self.top > other.bottom
    }

    /// Whether the two boxes overlap.
    pub fn overlaps(&self, other: &BoundingBox) -> (r: bool)
        ensures
            r == self.intersects(*other),
    {
        self.left < other.right && self.right > other.left && self.bottom < other.top && self.top
            > other.bottom
    }
}

impl Collider {
    /// Half the width of the box: the sprite's width times its scale.
    pub open spec fn half_width(self) -> int {
        mul_fixed(self.size.w as int, self.scale.0 as int)
    }

    /// Half the height of the box: the sprite's height times its scale.
    pub open spec fn half_height(self) -> int {
        mul_fixed(self.size.h as int, self.scale.1 as int)
    }

    /// The box of the entity: its centre, a half-extent to either side.
    pub open spec fn bounds(self) -> BoundingBox {
        BoundingBox {
            left: (self.position.0 - self.half_width()) as i128,
            right: (self.position.0 + self.half_width()) as i128,
            bottom: (self.position.1 - self.half_height()) as i128,
            top: (self.position.1 + self.half_height()) as i128,
        }
    }

    /// Whether this entity, as a target, is hit by `projectile`: the two are
    /// of opposing sides and their boxes overlap.
    pub open spec fn hit_by(self, projectile: Collider) -> bool {
        self.side != projectile.side && self.bounds().intersects(projectile.bounds())
    }

    /// The event of this entity, as a target, being hit by `projectile`.
    pub open spec fn event_with(self, projectile: Collider) -> CollisionEvent {
        CollisionEvent {
            target_entity: self.entity,
            projectile_entity: projectile.entity,
            impact_position: self.position,
        }
    }

    /// The box of the entity.
    pub fn bounding_box(&self) -> (b: BoundingBox)
        ensures
            b == self.bounds(),
            b.left == self.position.0 - self.half_width(),
            b.right == self.position.0 + self.half_width(),
            b.bottom == self.position.1 - self.half_height(),
            b.top == self.position.1 + self.half_height(),
    {
        let half_w: i128 = fixed_product(self.size.w, self.scale.0);
        let half_h: i128 = fixed_product(self.size.h, self.scale.1);
        let x: i128 = self.position.0 as i128;
        let y: i128 = self.position.1 as i128;
        BoundingBox { left: x - half_w, right: x + half_w, bottom: y - half_h, top: y + half_h }
    }

    /// Whether the two entities are of opposing sides.
    pub fn opposes(&self, other: &Collider) -> (r: bool)
        ensures
            r == (self.side != other.side),
    {
        match (self.side, other.side) {
            (Side::Player, Side::Enemy) => true,
            (Side::Enemy, Side::Player) => true,
            _ => false,
        }
    }

    /// Whether this entity, as a target, is hit by `projectile`.
    pub fn is_hit_by(&self, projectile: &Collider) -> (r: bool)
        ensures
            r == self.hit_by(*projectile),
    {
        self.opposes(projectile) && self.bounding_box().overlaps(&projectile.bounding_box())
    }
}

/// The events of one target against the projectiles, in their order.
pub open spec fn target_events(target: Collider, projectiles: Seq<Collider>) -> Seq<CollisionEvent>
    decreases projectiles.len(),
{
    if projectiles.len() == 0 {
        Seq::empty()
    } else {
        let earlier = target_events(target, projectiles.drop_last());
        if target.hit_by(projectiles.last()) {
            earlier.push(target.event_with(projectiles.last()))
        } else {
            earlier
        }
    }
}

/// The events of a scan: those of each target in turn.
pub open spec fn all_events(targets: Seq<Collider>, projectiles: Seq<Collider>) -> Seq<
    CollisionEvent,
>
    decreases targets.len(),
{
    if targets.len() == 0 {
        Seq::empty()
    } else {
        all_events(targets.drop_last(), projectiles) + target_events(targets.last(), projectiles)
    }
}

/// The entities that take part in any of the events.
pub open spec fn involved(events: Seq<CollisionEvent>) -> Set<u64> {
    Set::new(
        |e: u64|
            exists|k: int|
                0 <= k < events.len() && (#[trigger] events[k].target_entity == e
                    || events[k].projectile_entity == e),
    )
}

/// Whether target `i` is hit by projectile `j`.
pub open spec fn pair_hits(
    targets: Seq<Collider>,
    projectiles: Seq<Collider>,
    i: int,
    j: int,
) -> bool {
    &&& 0 <= i < targets.len()
    &&& 0 <= j < projectiles.len()
    &&& targets[i].hit_by(projectiles[j])
}

/// Two boxes overlap exactly if, on each axis, their centres are closer than
/// the sum of their half-extents. Boxes that are apart or only touch on either
/// axis do not overlap.
pub proof fn lemma_overlap_is_per_axis(a: Collider, b: Collider)
    ensures
        a.bounds().intersects(b.bounds()) <==> {
            &&& magnitude(a.position.0 - b.position.0) < a.half_width() + b.half_width()
            &&& magnitude(a.position.1 - b.position.1) < a.half_height() + b.half_height()
        },
        a.bounds().intersects(b.bounds()) == b.bounds().intersects(a.bounds()),
{
    lemma_mul_fixed_range(a.size.w, a.scale.0);
    lemma_mul_fixed_range(a.size.h, a.scale.1);
    lemma_mul_fixed_range(b.size.w, b.scale.0);
    lemma_mul_fixed_range(b.size.h, b.scale.1);
}

/// A box of positive extent overlaps every box of positive extent round the
/// same centre.
pub proof fn lemma_same_centre_overlaps(a: Collider, b: Collider)
    requires
        a.position == b.position,
        a.half_width() > 0,
        a.half_height() > 0,
        b.half_width() > 0,
        b.half_height() > 0,
    ensures
        a.bounds().intersects(b.bounds()),
{
    lemma_overlap_is_per_axis(a, b);
}

/// Every event of one target stems from a projectile that hits it.
pub proof fn lemma_target_events_sound(target: Collider, projectiles: Seq<Collider>, k: int)
    requires
        0 <= k < target_events(target, projectiles).len(),
    ensures
        exists|j: int|
            0 <= j < projectiles.len() && target.hit_by(#[trigger] projectiles[j])
                && target_events(target, projectiles)[k] == target.event_with(projectiles[j]),
    decreases projectiles.len(),
{
    let earlier = target_events(target, projectiles.drop_last());
    if k < earlier.len() {
        lemma_target_events_sound(target, projectiles.drop_last(), k);
        let j = choose|j: int|
            0 <= j < projectiles.drop_last().len() && target.hit_by(
                #[trigger] projectiles.drop_last()[j],
            ) && earlier[k] == target.event_with(projectiles.drop_last()[j]);
        assert(projectiles[j] == projectiles.drop_last()[j]);
    } else {
        assert(projectiles[projectiles.len() - 1] == projectiles.last());
    }
}

/// Every projectile that hits a target has its event among that target's.
pub proof fn lemma_target_events_complete(target: Collider, projectiles: Seq<Collider>, j: int)
    requires
        0 <= j < projectiles.len(),
        target.hit_by(projectiles[j]),
    ensures
        target_events(target, projectiles).contains(target.event_with(projectiles[j])),
    decreases projectiles.len(),
{
    let earlier = target_events(target, projectiles.drop_last());
    let events = target_events(target, projectiles);
    if j < projectiles.len() - 1 {
        lemma_target_events_complete(target, projectiles.drop_last(), j);
        let k = choose|k: int|
            0 <= k < earlier.len() && earlier[k] == target.event_with(projectiles.drop_last()[j]);
        assert(events[k] == earlier[k]);
    } else {
        assert(events[events.len() - 1] == target.event_with(projectiles[j]));
    }
}

/// No event without an overlap: every event of a scan stems from a target and
/// a projectile of opposing sides whose boxes overlap.
pub proof fn lemma_events_sound(targets: Seq<Collider>, projectiles: Seq<Collider>, k: int)
    requires
        0 <= k < all_events(targets, projectiles).len(),
    ensures
        exists|i: int, j: int|
            #[trigger] pair_hits(targets, projectiles, i, j) && all_events(targets, projectiles)[k]
                == targets[i].event_with(projectiles[j]),
    decreases targets.len(),
{
    let earlier = all_events(targets.drop_last(), projectiles);
    if k < earlier.len() {
        lemma_events_sound(targets.drop_last(), projectiles, k);
        let (i, j) = choose|i: int, j: int|
            #[trigger] pair_hits(targets.drop_last(), projectiles, i, j) && earlier[k]
                == targets.drop_last()[i].event_with(projectiles[j]);
        assert(pair_hits(targets, projectiles, i, j));
    } else {
        lemma_target_events_sound(targets.last(), projectiles, k - earlier.len());
        let j = choose|j: int|
            0 <= j < projectiles.len() && targets.last().hit_by(#[trigger] projectiles[j])
                && target_events(targets.last(), projectiles)[k - earlier.len()]
                == targets.last().event_with(projectiles[j]);
        assert(pair_hits(targets, projectiles, targets.len() - 1, j));
    }
}

/// Every overlap has its event: a target and a projectile of opposing sides
/// whose boxes overlap yield an event of the scan.
pub proof fn lemma_events_complete(
    targets: Seq<Collider>,
    projectiles: Seq<Collider>,
    i: int,
    j: int,
)
    requires
        pair_hits(targets, projectiles, i, j),
    ensures
        all_events(targets, projectiles).contains(targets[i].event_with(projectiles[j])),
    decreases targets.len(),
{
    let earlier = all_events(targets.drop_last(), projectiles);
    let own = target_events(targets.last(), projectiles);
    let event = targets[i].event_with(projectiles[j]);
    if i < targets.len() - 1 {
        lemma_events_complete(targets.drop_last(), projectiles, i, j);
        let k = choose|k: int| 0 <= k < earlier.len() && earlier[k] == event;
        assert((earlier + own)[k] == event);
    } else {
        lemma_target_events_complete(targets.last(), projectiles, j);
        let k = choose|k: int| 0 <= k < own.len() && own[k] == event;
        assert((earlier + own)[earlier.len() + k] == event);
    }
}

/// Where no target is hit by any projectile, the scan yields no event and
/// removes nothing.
pub proof fn lemma_no_overlap_no_event(targets: Seq<Collider>, projectiles: Seq<Collider>)
    requires
        forall|i: int, j: int| !#[trigger] pair_hits(targets, projectiles, i, j),
    ensures
        all_events(targets, projectiles).len() == 0,
        involved(all_events(targets, projectiles)) == Set::<u64>::empty(),
{
    let events = all_events(targets, projectiles);
    if events.len() > 0 {
        lemma_events_sound(targets, projectiles, 0);
    }
    assert(involved(events) =~= Set::<u64>::empty());
}

/// One target against one projectile yields exactly one event if the two are
/// of opposing sides and overlap, and none otherwise.
pub proof fn lemma_single_pair(target: Collider, projectile: Collider)
    ensures
        all_events(seq![target], seq![projectile]) == if target.hit_by(projectile) {
            seq![target.event_with(projectile)]
        } else {
            Seq::<CollisionEvent>::empty()
        },
{
    let targets = seq![target];
    let projectiles = seq![projectile];
    assert(targets.drop_last() =~= Seq::<Collider>::empty());
    assert(projectiles.drop_last() =~= Seq::<Collider>::empty());
    assert(target_events(target, projectiles.drop_last()) =~= Seq::<CollisionEvent>::empty());
    assert(all_events(targets.drop_last(), projectiles) =~= Seq::<CollisionEvent>::empty());
    assert(all_events(targets, projectiles) =~= target_events(target, projectiles));
    if target.hit_by(projectile) {
        assert(target_events(target, projectiles) =~= seq![target.event_with(projectile)]);
    }
}

/// Both entities of every hit are removed: the target and the projectile of
/// each overlapping pair are among the entities involved, each of them once
/// however many hits it takes part in.
pub proof fn lemma_hit_marks_both(
    targets: Seq<Collider>,
    projectiles: Seq<Collider>,
    i: int,
    j: int,
)
    requires
        pair_hits(targets, projectiles, i, j),
    ensures
        involved(all_events(targets, projectiles)).contains(targets[i].entity),
        involved(all_events(targets, projectiles)).contains(projectiles[j].entity),
{
    let events = all_events(targets, projectiles);
    let event = targets[i].event_with(projectiles[j]);
    lemma_events_complete(targets, projectiles, i, j);
    let k = choose|k: int| 0 <= k < events.len() && events[k] == event;
    assert(events[k].target_entity == targets[i].entity);
    assert(events[k].projectile_entity == projectiles[j].entity);
}

/// Nothing else is removed: every entity involved is the target or the
/// projectile of an overlapping pair.
pub proof fn lemma_marked_was_hit(targets: Seq<Collider>, projectiles: Seq<Collider>, entity: u64)
    requires
        involved(all_events(targets, projectiles)).contains(entity),
    ensures
        exists|i: int, j: int|
            #[trigger] pair_hits(targets, projectiles, i, j) && (targets[i].entity == entity
                || projectiles[j].entity == entity),
{
    let events = all_events(targets, projectiles);
    let k = choose|k: int|
        0 <= k < events.len() && (#[trigger] events[k].target_entity == entity
            || events[k].projectile_entity == entity);
    lemma_events_sound(targets, projectiles, k);
    let (i, j) = choose|i: int, j: int|
        #[trigger] pair_hits(targets, projectiles, i, j) && events[k] == targets[i].event_with(
            projectiles[j],
        );
    assert(pair_hits(targets, projectiles, i, j) && (targets[i].entity == entity
        || projectiles[j].entity == entity));
}

/// The order of the scan does not matter to what is removed: two scans over
/// the same targets and the same projectiles, in whatever order and however
/// often each is listed, remove the same entities.
pub proof fn lemma_removal_ignores_order(
    targets: Seq<Collider>,
    projectiles: Seq<Collider>,
    other_targets: Seq<Collider>,
    other_projectiles: Seq<Collider>,
)
    requires
        forall|i: int| 0 <= i < targets.len() ==> other_targets.contains(#[trigger] targets[i]),
        forall|i: int| 0 <= i < other_targets.len() ==> targets.contains(#[trigger] other_targets[i]),
        forall|j: int|
            0 <= j < projectiles.len() ==> other_projectiles.contains(#[trigger] projectiles[j]),
        forall|j: int|
            0 <= j < other_projectiles.len() ==> projectiles.contains(
                #[trigger] other_projectiles[j],
            ),
    ensures
        involved(all_events(targets, projectiles)) == involved(
            all_events(other_targets, other_projectiles),
        ),
{
    let here = involved(all_events(targets, projectiles));
    let there = involved(all_events(other_targets, other_projectiles));
    assert forall|entity: u64| here.contains(entity) implies there.contains(entity) by {
        lemma_marked_was_hit(targets, projectiles, entity);
        let (i, j) = choose|i: int, j: int|
            #[trigger] pair_hits(targets, projectiles, i, j) && (targets[i].entity == entity
                || projectiles[j].entity == entity);
        assert(other_targets.contains(targets[i]));
        assert(other_projectiles.contains(projectiles[j]));
        let k = choose|k: int| 0 <= k < other_targets.len() && other_targets[k] == targets[i];
        let l = choose|l: int|
            0 <= l < other_projectiles.len() && other_projectiles[l] == projectiles[j];
        assert(pair_hits(other_targets, other_projectiles, k, l));
        lemma_hit_marks_both(other_targets, other_projectiles, k, l);
    }
    assert forall|entity: u64| there.contains(entity) implies here.contains(entity) by {
        lemma_marked_was_hit(other_targets, other_projectiles, entity);
        let (i, j) = choose|i: int, j: int|
            #[trigger] pair_hits(other_targets, other_projectiles, i, j) && (
            other_targets[i].entity == entity || other_projectiles[j].entity == entity);
        assert(targets.contains(other_targets[i]));
        assert(projectiles.contains(other_projectiles[j]));
        let k = choose|k: int| 0 <= k < targets.len() && targets[k] == other_targets[i];
        let l = choose|l: int| 0 <= l < projectiles.len() && projectiles[l] == other_projectiles[j];
        assert(pair_hits(targets, projectiles, k, l));
        lemma_hit_marks_both(targets, projectiles, k, l);
    }
    assert(here =~= there);
}

/// One more event adds its two entities to those involved.
pub proof fn lemma_involved_push(events: Seq<CollisionEvent>, event: CollisionEvent)
    ensures
        involved(events.push(event)) == involved(events).insert(event.target_entity).insert(
            event.projectile_entity,
        ),
{
    let more = events.push(event);
    let grown = involved(events).insert(event.target_entity).insert(event.projectile_entity);
    assert forall|e: u64| involved(more).contains(e) implies grown.contains(e) by {
        let k = choose|k: int|
            0 <= k < more.len() && (#[trigger] more[k].target_entity == e
                || more[k].projectile_entity == e);
        if k < events.len() {
            assert(events[k] == more[k]);
        }
    }
    assert forall|e: u64| grown.contains(e) implies involved(more).contains(e) by {
        if involved(events).contains(e) {
            let k = choose|k: int|
                0 <= k < events.len() && (#[trigger] events[k].target_entity == e
                    || events[k].projectile_entity == e);
            assert(more[k] == events[k]);
            assert(0 <= k < more.len() && (more[k].target_entity == e || more[k].projectile_entity
                == e));
        } else {
            let k = events.len() as int;
            assert(more[k] == event);
            assert(0 <= k < more.len() && (more[k].target_entity == e || more[k].projectile_entity
                == e));
        }
    }
    assert(involved(more) =~= grown);
}

/// Finds the hits of one tick. Every target is tested against every
/// projectile; each pair of opposing sides whose boxes overlap yields one event
/// at the target's position, in scan order, and puts both of its entities among
/// those to remove. An entity is marked once however often it is hit.
pub fn resolve(projectiles: &Vec<Collider>, targets: &Vec<Collider>) -> (res: Resolution)
    ensures
        res.events@ == all_events(targets@, projectiles@),
        res.despawn@ == involved(res.events@),
{
    broadcast use group_hash_axioms;

    let mut events: Vec<CollisionEvent> = Vec::new();
    let mut despawn: HashSet<u64> = HashSet::new();
    assert(involved(events@) =~= Set::<u64>::empty());
    let mut i: usize = 0;
    while i < targets.len()
        invariant
            i <= targets.len(),
            events@ == all_events(targets@.take(i as int), projectiles@),
            despawn@ == involved(events@),
        decreases targets.len() - i,
    {
        let target: Collider = targets[i];
        let ghost before = events@;
        let mut j: usize = 0;
        while j < projectiles.len()
            invariant
                j <= projectiles.len(),
                events@ == before + target_events(target, projectiles@.take(j as int)),
                despawn@ == involved(events@),
            decreases projectiles.len() - j,
        {
            let projectile: Collider = projectiles[j];
            proof {
                assert(projectiles@.take(j + 1).drop_last() =~= projectiles@.take(j as int));
            }
            if target.is_hit_by(&projectile) {
                proof {
                    lemma_involved_push(events@, target.event_with(projectile));
                }
                despawn.insert(target.entity);
                despawn.insert(projectile.entity);
                events.push(
                    CollisionEvent {
                        target_entity: target.entity,
                        projectile_entity: projectile.entity,
                        impact_position: target.position,
                    },
                );
                assert(events@ =~= before + target_events(target, projectiles@.take(j + 1)));
            }
            j += 1;
        }
        proof {
            assert(projectiles@.take(projectiles.len() as int) =~= projectiles@);
            assert(targets@.take(i + 1).drop_last() =~= targets@.take(i as int));
        }
        i += 1;
    }
    proof {
        assert(targets@.take(targets.len() as int) =~= targets@);
    }
    Resolution { events, despawn }
}

} // verus!
