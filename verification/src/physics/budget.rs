//! What the driver reserves for a world's physics: container capacities derived
//! from the world's physics budget, and the bytes those containers hold.

use vstd::prelude::*;
use vstd::layout::{layout_for_type_is_valid, size_of};
use vstd::arithmetic::power2::pow2;

verus! {

/// Contacts one dynamic body can report in a single tick.
pub const CONTACTS_PER_DYNAMIC_BODY: usize = 4;

/// A sensor reports at most an entry and an exit per body crossing it.
pub const CROSSINGS_PER_SENSOR: usize = 2;

/// A world's physics content, with the runtime-spawn headroom on top.
#[derive(Debug, Clone, Copy, PartialEq, Eq, Structural)]
pub struct PhysicsBudget {
    /// Fixed bodies, the floor among them.
    pub fixed: u32,
    /// Dynamic bodies.
    pub dynamic: u32,
    /// Kinematic capsules (player and rigs).
    pub kinematic: u32,
    /// Trigger sensors.
    pub sensors: u32,
    /// Joints.
    pub joints: u32,
    /// World-anchored joints.
    pub anchors: u32,
    /// Bodies that may be spawned at run time.
    pub spawn_headroom: u32,
}

/// How many entries each of the driver's containers reserves for a budget.
#[derive(Debug, Clone, Copy, PartialEq, Eq, Structural)]
pub struct DriverCapacities {
    /// Prop bodies: the authored colliders plus the runtime-spawn headroom.
    pub props: usize,
    /// Entities refused a body, at most the headroom's worth of spawns.
    pub refused: usize,
    /// Dynamic props, whose blended poses are written back each frame.
    pub sampled: usize,
    /// The per-tick scan for freshly spawned collider-bearing entities.
    pub new_props: usize,
    /// Character rig capsules.
    pub rigs: usize,
    /// Root-motion displacements drained per frame.
    pub root_motions: usize,
    /// Contact hits drained per tick.
    pub contacts: usize,
    /// Body pairs the contact batching and refractory gate track.
    pub contact_pairs: usize,
    /// Sensor crossings drained per frame.
    pub sensor_crossings: usize,
    /// Sensor tag to trigger volume entries.
    pub sensor_filters: usize,
}

/// Fixed bodies other than the floor, which the driver builds directly.
pub open spec fn static_props(budget: PhysicsBudget) -> int {
    if budget.fixed == 0 {
        0
    } else {
        budget.fixed - 1
    }
}

/// Dynamic bodies, spawn headroom included.
pub open spec fn dynamic_props(budget: PhysicsBudget) -> int {
    budget.dynamic + budget.spawn_headroom
}

/// The counts fit the platform's `usize`.
pub open spec fn fits_usize(budget: PhysicsBudget) -> bool {
    &&& static_props(budget) + dynamic_props(budget) <= usize::MAX
    &&& dynamic_props(budget) * 4 <= usize::MAX
    &&& budget.sensors * 2 <= usize::MAX
}

impl DriverCapacities {
    /// Derive the reservations a budget implies.
    pub fn derive(budget: &PhysicsBudget) -> (r: Self)
        requires
            fits_usize(*budget),
        ensures
            r.props == static_props(*budget) + dynamic_props(*budget),
            r.refused == budget.spawn_headroom,
            r.sampled == dynamic_props(*budget),
            r.new_props == budget.spawn_headroom,
            r.rigs == budget.kinematic,
            r.root_motions == budget.kinematic,
            r.contacts == dynamic_props(*budget) * 4,
            r.contact_pairs == dynamic_props(*budget) * 4,
            r.sensor_crossings == budget.sensors * 2,
            r.sensor_filters == budget.sensors,
    {
        let statics = budget.fixed.saturating_sub(1) as usize;
        let headroom = budget.spawn_headroom as usize;
        let dynamic = budget.dynamic as usize + headroom;
        DriverCapacities {
            props: statics + dynamic,
            refused: headroom,
            sampled: dynamic,
            new_props: headroom,
            rigs: budget.kinematic as usize,
            root_motions: budget.kinematic as usize,
            contacts: dynamic * CONTACTS_PER_DYNAMIC_BODY,
            contact_pairs: dynamic * CONTACTS_PER_DYNAMIC_BODY,
            sensor_crossings: budget.sensors as usize * CROSSINGS_PER_SENSOR,
            sensor_filters: budget.sensors as usize,
        }
    }
}

/// `a * b`, held to the `u64` range.
pub open spec fn saturating_product(a: int, b: int) -> int {
    if a * b > u64::MAX {
        u64::MAX as int
    } else {
        a * b
    }
}

/// The least power of two at or above `n`.
pub open spec fn is_pow2_ceiling(n: int, p: int) -> bool {
    exists|e: nat| p == #[trigger] pow2(e) && p >= n && (e == 0 || pow2((e - 1) as nat) < n)
}

/// Buckets a hash table reserves for `capacity` entries: past the 7/8 load
/// factor, rounded up to a power of two.
pub open spec fn table_buckets(capacity: int, buckets: int) -> bool {
    is_pow2_ceiling((if capacity * 8 > usize::MAX { usize::MAX as int } else { capacity * 8 } + 6)
        / 7, buckets)
}

fn mul_saturating(a: u64, b: u64) -> (r: u64)
    ensures
        r == saturating_product(a as int, b as int),
{
    match a.checked_mul(b) {
        Some(v) => v,
        None => u64::MAX,
    }
}

// The least power of two at or above `n`.
fn next_power_of_two(n: usize) -> (p: usize)
    requires
        n <= usize::MAX / 2,
    ensures
        is_pow2_ceiling(n as int, p as int),
{
    let mut p: usize = 1;
    let ghost mut e: nat = 0;
    proof {
        vstd::arithmetic::power2::lemma2_to64();
    }
    while p < n
        invariant
            n <= usize::MAX / 2,
            p == pow2(e),
            1 <= p,
            e == 0 || pow2((e - 1) as nat) < n,
        decreases usize::MAX - p,
    {
        proof {
            vstd::arithmetic::power2::lemma_pow2_unfold(e + 1);
        }
        p = p * 2;
        proof {
            e = e + 1;
        }
    }
    p
}

/// Bytes a `Vec<T>` of `capacity` holds.
pub fn vec_bytes<T>(capacity: usize) -> (r: u64)
    ensures
        r == saturating_product(capacity as int, size_of::<T>() as int),
{
    layout_for_type_is_valid::<T>();
    mul_saturating(capacity as u64, core::mem::size_of::<T>() as u64)
}

/// Bytes a hash table reserved for `capacity` entries holds: the bucket count
/// is rounded up past the 7/8 load factor to a power of two, and each bucket
/// keeps a control byte beside its entry.
pub fn table_bytes<K, V>(capacity: usize) -> (r: u64)
    ensures
        capacity == 0 ==> r == 0,
        capacity > 0 ==> exists|buckets: int|
            table_buckets(capacity as int, buckets) && r == saturating_product(
                buckets,
                size_of::<(K, V)>() + 1int,
            ),
{
    if capacity == 0 {
        return 0;
    }
    layout_for_type_is_valid::<(K, V)>();
    let scaled = match capacity.checked_mul(8) {
        Some(v) => v,
        None => usize::MAX,
    };
    let spread = scaled / 7 + if scaled % 7 == 0 { 0 } else { 1 };
    let buckets = next_power_of_two(spread);
    assert((scaled as int + 6) / 7 == spread);
    let r = mul_saturating(buckets as u64, core::mem::size_of::<(K, V)>() as u64 + 1);
    assert(table_buckets(capacity as int, buckets as int));
    r
}

} // verus!
