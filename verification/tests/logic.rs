use concinnity_engine::logic::rules::{conditions_pass, crossing_matches, AssetId, CmpOp, Condition, VolumeEvent};
use concinnity_engine::logic::vars::Variables;

#[test]
fn an_unset_variable_reads_as_zero() {
    let vars = Variables::default();
    assert_eq!(vars.get("score"), 0);
}

#[test]
fn variables_apply_in_order() {
    let mut vars = Variables::default();
    vars.apply("score", 5, false);
    vars.apply("score", 2, true);
    vars.apply("lives", 3, true);
    assert_eq!(vars.get("score"), 7);
    assert_eq!(vars.get("lives"), 3);
    vars.apply("score", 1, false);
    assert_eq!(vars.get("score"), 1);
    assert_eq!(vars.get("lives"), 3);
}

#[test]
fn adding_saturates_at_the_integer_range() {
    let mut vars = Variables::default();
    vars.apply("big", i32::MAX - 1, false);
    vars.apply("big", 10, true);
    assert_eq!(vars.get("big"), i32::MAX);
    vars.apply("small", i32::MIN, true);
    vars.apply("small", -1, true);
    assert_eq!(vars.get("small"), i32::MIN);
}

#[test]
fn conditions_reject_an_unmet_check() {
    let vars = Variables::default();
    let conditions = vec![Condition { name: "has_key".into(), op: CmpOp::Ne, value: 0 }];
    assert!(!conditions_pass(&vars, &conditions));
}

#[test]
fn conditions_accept_a_met_check() {
    let mut vars = Variables::default();
    let conditions = vec![Condition { name: "score".into(), op: CmpOp::Ge, value: 3 }];
    vars.apply("score", 2, false);
    assert!(!conditions_pass(&vars, &conditions));
    vars.apply("score", 1, true);
    assert!(conditions_pass(&vars, &conditions));
    assert!(conditions_pass(&vars, &[]));
}

#[test]
fn every_comparison_reads_its_operator() {
    assert!(CmpOp::Eq.eval(3, 3) && !CmpOp::Eq.eval(3, 4));
    assert!(CmpOp::Ne.eval(3, 4) && !CmpOp::Ne.eval(3, 3));
    assert!(CmpOp::Lt.eval(3, 4) && !CmpOp::Lt.eval(4, 4));
    assert!(CmpOp::Le.eval(4, 4) && !CmpOp::Le.eval(5, 4));
    assert!(CmpOp::Gt.eval(5, 4) && !CmpOp::Gt.eval(4, 4));
    assert!(CmpOp::Ge.eval(4, 4) && !CmpOp::Ge.eval(3, 4));
}

#[test]
fn crossings_match_enters_of_their_volume() {
    assert!(!crossing_matches(&[], Some(AssetId(5)), true));
    let enter = [VolumeEvent { volume: AssetId(5), entered: true }];
    assert!(crossing_matches(&enter, Some(AssetId(5)), true));
    let others = [
        VolumeEvent { volume: AssetId(5), entered: false },
        VolumeEvent { volume: AssetId(6), entered: true },
    ];
    assert!(!crossing_matches(&others, Some(AssetId(5)), true));
}

#[test]
fn crossings_match_exits() {
    let exit = [VolumeEvent { volume: AssetId(5), entered: false }];
    assert!(crossing_matches(&exit, Some(AssetId(5)), false));
    assert!(!crossing_matches(&exit, None, false));
}
