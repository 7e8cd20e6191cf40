use moveit_ros::acm::{
    AllowedCollisionEntry, AllowedCollisionMatrix, AllowedCollisionMatrixMsg, AllowedCollisionType,
};
use moveit_ros::error::Error;

fn row(flags: &[bool]) -> AllowedCollisionEntry {
    AllowedCollisionEntry {
        enabled: flags.to_vec(),
    }
}

fn names(ns: &[&str]) -> Vec<String> {
    ns.iter().map(|n| n.to_string()).collect()
}

fn construct_message(r: Result<AllowedCollisionMatrix, Error>) -> String {
    match r {
        Ok(m) => panic!("expected a refusal, got {m:?}"),
        Err(Error::Construct(m)) => m,
        Err(other) => panic!("expected a construct error, got {other:?}"),
    }
}

#[test]
fn acm_defaults_and_entries_convert() {
    let msg = AllowedCollisionMatrixMsg {
        entry_names: names(&["a", "b"]),
        entry_values: vec![row(&[false, true]), row(&[true, false])],
        default_entry_names: names(&["c"]),
        default_entry_values: vec![true],
    };
    let acm = AllowedCollisionMatrix::try_from(msg).unwrap();
    assert_eq!(acm.allowed_collision("a", "b"), Some(AllowedCollisionType::Always));
    assert_eq!(acm.default_entry("c"), Some(AllowedCollisionType::Always));
}

#[test]
fn an_acm_cell_matching_its_default_is_not_stored_explicitly() {
    let msg = AllowedCollisionMatrixMsg {
        entry_names: names(&["a", "b"]),
        entry_values: vec![row(&[false, true]), row(&[true, false])],
        default_entry_names: names(&["a", "b"]),
        default_entry_values: vec![true, true],
    };
    let acm = AllowedCollisionMatrix::try_from(msg).unwrap();
    assert!(!acm.has_pair_entry("a", "b"), "{acm:?}");
    assert_eq!(acm.allowed_collision("a", "b"), Some(AllowedCollisionType::Always));
}

#[test]
fn one_never_default_makes_the_combined_default_never() {
    let msg = AllowedCollisionMatrixMsg {
        entry_names: names(&["a", "b"]),
        entry_values: vec![row(&[false, true]), row(&[true, false])],
        default_entry_names: names(&["a", "b"]),
        default_entry_values: vec![true, false],
    };
    let acm = AllowedCollisionMatrix::try_from(msg).unwrap();
    assert!(acm.has_pair_entry("a", "b"), "{acm:?}");
    assert_eq!(acm.combined_default("a", "b"), Some(AllowedCollisionType::Never));
}

#[test]
fn an_acm_with_mismatched_default_lengths_is_rejected() {
    let msg = AllowedCollisionMatrixMsg {
        entry_names: vec![],
        entry_values: vec![],
        default_entry_names: names(&["a"]),
        default_entry_values: vec![],
    };
    let m = construct_message(AllowedCollisionMatrix::try_from(msg));
    assert!(m.contains("equal length"), "got: {m}");
}

#[test]
fn a_non_square_acm_row_is_rejected() {
    let msg = AllowedCollisionMatrixMsg {
        entry_names: names(&["a", "b"]),
        entry_values: vec![row(&[false]), row(&[true, false])],
        default_entry_names: vec![],
        default_entry_values: vec![],
    };
    let m = construct_message(AllowedCollisionMatrix::try_from(msg));
    assert!(m.contains("must be square"), "got: {m}");
    assert_eq!(
        m,
        "AllowedCollisionMatrix: row 'a' has 1 enabled flag(s) but the matrix has 2 entry name(s); \
         the matrix must be square"
    );
}

#[test]
fn an_acm_with_mismatched_entry_lengths_is_rejected() {
    let msg = AllowedCollisionMatrixMsg {
        entry_names: names(&["a"]),
        entry_values: vec![],
        default_entry_names: vec![],
        default_entry_values: vec![],
    };
    let m = construct_message(AllowedCollisionMatrix::try_from(msg));
    assert!(
        m.contains("AllowedCollisionMatrix: entry_names/entry_values are 1/0"),
        "got: {m}"
    );
}

#[test]
fn a_false_cell_with_no_defaults_is_not_stored_and_reads_as_unknown() {
    let msg = AllowedCollisionMatrixMsg {
        entry_names: names(&["a", "b"]),
        entry_values: vec![row(&[true, false]), row(&[false, true])],
        default_entry_names: vec![],
        default_entry_values: vec![],
    };
    let acm = AllowedCollisionMatrix::try_from(msg).unwrap();
    assert!(!acm.has_pair_entry("a", "b"));
    assert_eq!(acm.allowed_collision("a", "b"), None);
}

#[test]
fn only_the_strict_upper_triangle_is_read() {
    // The lower cell (b, a) says "allowed" but only (a, b) counts.
    let msg = AllowedCollisionMatrixMsg {
        entry_names: names(&["a", "b"]),
        entry_values: vec![row(&[true, false]), row(&[true, true])],
        default_entry_names: names(&["a"]),
        default_entry_values: vec![true],
    };
    let acm = AllowedCollisionMatrix::try_from(msg).unwrap();
    assert!(acm.has_pair_entry("b", "a"));
    assert_eq!(acm.allowed_collision("b", "a"), Some(AllowedCollisionType::Never));
}

#[test]
fn combined_defaults_prefer_never_then_conditional() {
    let mut acm = AllowedCollisionMatrix::new();
    acm.set_default_entry("a", true);
    acm.set_default_entry("b", true);
    acm.set_default_entry("c", false);
    assert_eq!(acm.combined_default("a", "b"), Some(AllowedCollisionType::Always));
    assert_eq!(acm.combined_default("a", "c"), Some(AllowedCollisionType::Never));
    assert_eq!(acm.combined_default("a", "z"), Some(AllowedCollisionType::Always));
    assert_eq!(acm.combined_default("y", "z"), None);
    acm.set_entry("a", "c", true);
    assert_eq!(acm.allowed_collision("c", "a"), Some(AllowedCollisionType::Always));
    acm.set_default_entry("a", false);
    assert_eq!(acm.default_entry("a"), Some(AllowedCollisionType::Never));
}
