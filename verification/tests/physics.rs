use concinnity_engine::physics::contacts::{pair_key, ContactGate, REPORT_COOLDOWN_TICKS};
use concinnity_engine::physics::budget::{table_bytes, vec_bytes, DriverCapacities, PhysicsBudget};
use concinnity_engine::physics::layers::{
    LayerTable, PhysicsConfig, LAYER_CHARACTER, LAYER_PROP, LAYER_WORLD,
};

fn budget(fixed: u32, dynamic: u32, kinematic: u32, sensors: u32, headroom: u32) -> PhysicsBudget {
    PhysicsBudget { fixed, dynamic, kinematic, sensors, joints: 0, anchors: 0, spawn_headroom: headroom }
}

#[test]
fn a_hash_table_reserves_past_its_load_factor() {
    assert_eq!(table_bytes::<u64, u64>(0), 0);
    assert_eq!(table_bytes::<u64, u64>(8), 16 * (16 + 1));
    assert_eq!(vec_bytes::<u32>(10), 40);
}

#[test]
fn byte_counts_saturate_instead_of_wrapping() {
    assert_eq!(vec_bytes::<u64>(usize::MAX), u64::MAX);
    assert_eq!(table_bytes::<u64, u64>(7), 8 * 17);
    assert_eq!(table_bytes::<u32, ()>(1), 2 * 5);
}

#[test]
fn capacities_hold_the_authored_content_plus_the_headroom() {
    // Five statics plus the floor, two dynamics, a player capsule and two rigs.
    let caps = DriverCapacities::derive(&budget(6, 2, 3, 3, 10));
    assert_eq!(caps.props, 5 + 2 + 10, "statics, dynamics, and spawns");
    assert_eq!(caps.sampled, 2 + 10, "only dynamic props are written back");
    assert_eq!(caps.refused, 10);
    assert_eq!(caps.new_props, 10);
    assert_eq!(caps.rigs, 3, "the player capsule plus two rigs");
    assert_eq!(caps.sensor_filters, 3);
    assert_eq!(caps.contacts, 12 * 4);
    assert_eq!(caps.sensor_crossings, 6);
}

#[test]
fn an_empty_world_reserves_no_prop_capacity() {
    let caps = DriverCapacities::derive(&budget(1, 0, 0, 0, 0));
    assert_eq!(caps.props, 0);
    assert_eq!(caps.sampled, 0);
    assert_eq!(caps.contacts, 0);
    assert_eq!(DriverCapacities::derive(&budget(0, 0, 0, 0, 0)).props, 0);
}

fn config(layers: &[&str], no_collide: &[[&str; 2]]) -> PhysicsConfig {
    PhysicsConfig {
        layers: layers.iter().map(|s| s.to_string()).collect(),
        no_collide: no_collide.iter().map(|[a, b]| [a.to_string(), b.to_string()]).collect(),
    }
}

#[test]
fn default_table_collides_everything_with_everything() {
    let table = LayerTable::default();
    let world = table.mask(LAYER_WORLD);
    let prop = table.mask(LAYER_PROP);
    assert_eq!(world.memberships, 1);
    assert_eq!(prop.memberships, 2);
    assert_eq!(world.filter, 0b1111);
    assert_eq!(prop.filter, 0b1111);
}

#[test]
fn no_collide_pairs_clear_bits_symmetrically() {
    let table = LayerTable::new(&config(&["debris"], &[["debris", LAYER_CHARACTER]]));
    let debris = table.mask("debris");
    let character = table.mask(LAYER_CHARACTER);
    assert_eq!(debris.memberships, 1 << 4);
    assert_eq!(debris.filter & character.memberships, 0);
    assert_eq!(character.filter & debris.memberships, 0);
    let prop = table.mask(LAYER_PROP);
    assert_ne!(prop.filter & debris.memberships, 0);
    assert_ne!(prop.filter & character.memberships, 0);
}

#[test]
fn unknown_and_duplicate_names_are_tolerated() {
    let table = LayerTable::new(&config(&[LAYER_PROP, "debris"], &[["ghost", "debris"]]));
    assert_eq!(table.mask("debris").memberships, 1 << 4);
    assert_eq!(table.mask("nonexistent").memberships, table.mask(LAYER_WORLD).memberships);
}

#[test]
fn query_mask_filters_to_the_requested_targets() {
    let table = LayerTable::default();
    let mask = table.query_mask(LAYER_CHARACTER, &[LAYER_WORLD, LAYER_PROP]);
    assert_eq!(mask.memberships, 1 << 2);
    assert_eq!(mask.filter, 0b0011);
}

#[test]
fn layer_count_caps_at_32() {
    let extras: Vec<String> = (0..40).map(|i| format!("extra{i}")).collect();
    let refs: Vec<&str> = extras.iter().map(|s| s.as_str()).collect();
    let table = LayerTable::new(&config(&refs, &[]));
    assert_eq!(table.mask("extra27").memberships, 1 << 31);
    assert_eq!(table.mask("extra28").memberships, 1);
    assert_eq!(table.mask("extra27").filter, u32::MAX);
}

#[test]
fn a_layer_kept_from_itself_loses_only_its_own_bit() {
    let table = LayerTable::new(&config(&["ghost"], &[["ghost", "ghost"]]));
    let ghost = table.mask("ghost");
    assert_eq!(ghost.filter, 0b01111);
}

#[test]
fn gate_suppresses_a_pair_until_the_cooldown_elapses() {
    let h: Vec<u64> = (0..3).collect();
    let mut gate = ContactGate::default();
    gate.advance_tick();
    assert!(gate.allow_report(h[0], h[1]));
    assert!(!gate.allow_report(h[1], h[0]), "reversed pair matches");
    assert!(gate.allow_report(h[0], h[2]));
    for _ in 0..REPORT_COOLDOWN_TICKS - 1 {
        gate.advance_tick();
        assert!(!gate.allow_report(h[0], h[1]));
    }
    gate.advance_tick();
    assert!(gate.allow_report(h[0], h[1]), "cooldown elapsed");
}

#[test]
fn a_crowded_gate_forgets_cooled_pairs_only() {
    let mut gate = ContactGate::with_capacity(300);
    gate.advance_tick();
    for i in 0..300u64 {
        assert!(gate.allow_report(i, i + 1000));
    }
    for _ in 0..REPORT_COOLDOWN_TICKS {
        gate.advance_tick();
    }
    // Every pair cooled off and was swept; a fresh report goes through, and
    // the pair that just reported is silent again.
    assert!(gate.allow_report(1000, 0));
    assert!(!gate.allow_report(0, 1000));
    assert_eq!(pair_key(9, 4), (4, 9));
    assert_eq!(pair_key(4, 9), (4, 9));
}
