use std::collections::BTreeSet;

use moveit_ros::coverage::{
    all_edges, all_rs_files_except_self, canon, count_matching_lines, has_reverse, is_conversion_impl_line,
    is_round_trip_test_line, parse_conversion, round_trip_test_bodies, Edge, LinePattern,
};

struct OneDirectional {
    from: &'static str,
    to: &'static str,
    reason: &'static str,
}

const ONE_DIRECTIONAL: &[OneDirectional] = &[
    OneDirectional {
        from: "u8",
        to: "CollisionObjectOperation",
        reason: "decodes the wire discriminant of a command message that is only ever received",
    },
    OneDirectional {
        from: "SolidPrimitiveMsg",
        to: "Shape",
        reason: "the reverse is a plain function, not a conversion impl",
    },
    OneDirectional {
        from: "OrientationConstraintQuaternion",
        to: "UnitQuaternion",
        reason: "names the stricter orientation-constraint rule; the reverse is shared",
    },
    OneDirectional {
        from: "Transform",
        to: "Isometry3",
        reason: "fixed frame transforms are only ever received",
    },
    OneDirectional {
        from: "AllowedCollisionMatrixMsg",
        to: "AllowedCollisionMatrix",
        reason: "no outgoing allowed collision matrix is ever built",
    },
    OneDirectional {
        from: "moveit_msgs::PlanningScene",
        to: "PlanningSceneUpdate",
        reason: "classifies the is_diff flag of a received scene",
    },
    OneDirectional {
        from: "ExecutionEventMsg",
        to: "ExecutionEvent",
        reason: "the execution event is only ever received",
    },
];

struct TransitivelyCovered {
    from: &'static str,
    to: &'static str,
    covered_by: &'static str,
    reason: &'static str,
}

const TRANSITIVELY_COVERED: &[TransitivelyCovered] = &[TransitivelyCovered {
    from: "RobotTrajectoryMsg",
    to: "RobotTrajectory",
    covered_by: "round_trip_response_through_msg",
    reason: "a planning response embeds a trajectory, so its round trip covers this pair",
}];

/// A source tree with the conversion impls and round-trip tests the
/// registries above describe, one `(path, text)` pair per file.
fn corpus() -> Vec<(String, String)> {
    let files: &[(&str, &str)] = &[
        (
            "geometry.rs",
            "impl TryFrom<Point> for CoreVector3 {\n}\n\
             impl TryFrom<CoreVector3> for Point {\n}\n\
             impl TryFrom<Quaternion> for UnitQuaternion {\n}\n\
             impl TryFrom<OrientationConstraintQuaternion> for UnitQuaternion {\n}\n\
             impl TryFrom<UnitQuaternion> for Quaternion {\n}\n\
             impl TryFrom<Pose> for Isometry3 {\n}\n\
             impl TryFrom<Isometry3> for Pose {\n}\n\
             impl TryFrom<Transform> for Isometry3 {\n}\n\
             #[test]\n\
             fn point_round_trips_through_msg() {\n    let v = CoreVector3::try_from(Point(p)).unwrap();\n    assert_eq!(Point::try_from(v).unwrap().0, p);\n}\n\
             #[test]\n\
             fn quaternion_round_trips_through_msg() {\n    let q = UnitQuaternion::try_from(Quaternion(m)).unwrap();\n    let back = Quaternion::try_from(q).unwrap();\n}\n\
             #[test]\n\
             fn pose_round_trips_through_msg() {\n    let iso = Isometry3::try_from(Pose(m)).unwrap();\n    let back = Pose::try_from(iso).unwrap();\n}\n",
        ),
        (
            "execution.rs",
            "impl TryFrom<ExecutionEventMsg> for ExecutionEvent {\n}\n",
        ),
        (
            "scene/collision_object.rs",
            "impl TryFrom<u8> for CollisionObjectOperation {\n}\n",
        ),
        (
            "constraints/position.rs",
            "impl TryFrom<SolidPrimitiveMsg> for Shape {\n}\n",
        ),
        (
            "scene/planning_scene.rs",
            "impl From<moveit_msgs::PlanningScene> for PlanningSceneUpdate {\n}\n\
             impl TryFrom<AllowedCollisionMatrixMsg> for AllowedCollisionMatrix {\n}\n",
        ),
        (
            "scene/shapes.rs",
            "impl TryFrom<MeshMsg> for Shape {\n}\n\
             impl TryFrom<Mesh> for MeshMsgOut {\n}\n\
             impl TryFrom<PlaneMsg> for Plane {\n}\n\
             impl From<Plane> for PlaneMsgOut {\n}\n\
             #[test]\n\
             fn mesh_round_trips_through_msg() {\n    let shape = Shape::try_from(MeshMsg(m)).unwrap();\n    let Shape::Mesh(mesh) = shape else { panic!() };\n    MeshMsgOut::try_from(mesh).unwrap();\n}\n\
             #[test]\n\
             fn plane_round_trips_through_msg() {\n    let plane = Plane::try_from(PlaneMsg(m)).unwrap();\n    PlaneMsgOut::from(plane);\n}\n",
        ),
        (
            "planning.rs",
            "impl<'m> TryFrom<RobotTrajectoryMsg<'m>> for RobotTrajectory<'m> {\n}\n\
             impl<'m> TryFrom<RobotTrajectory<'m>> for RobotTrajectoryMsgOut {\n}\n\
             impl<'m> TryFrom<PlanningResponseMsg<'m>> for PlanningResponse<'m> {\n}\n\
             impl<'m> TryFrom<PlanningResponse<'m>> for PlanningResponseMsgOut {\n}\n\
             #[test]\n\
             fn round_trip_response_through_msg() {\n    let res = PlanningResponse::try_from(PlanningResponseMsg { model, msg }).unwrap();\n    let trajectory: &RobotTrajectory = &res.trajectory;\n    PlanningResponseMsgOut::try_from(res).unwrap();\n}\n",
        ),
    ];
    files
        .iter()
        .map(|(path, text)| (path.to_string(), text.to_string()))
        .collect()
}

fn source_files() -> Vec<(String, String)> {
    corpus()
}

fn test_bodies() -> Vec<(String, String)> {
    round_trip_test_bodies(&corpus())
}

/// The pairs of `files` with no round-trip test, direct or registered.
fn missing_pairs(files: &[(String, String)]) -> Vec<String> {
    let edges = all_edges(files);
    let bodies = round_trip_test_bodies(files);
    let mut seen: BTreeSet<(String, String)> = BTreeSet::new();
    let mut missing = Vec::new();
    for e in &edges {
        if !has_reverse(&edges, e) {
            continue;
        }
        let key = {
            let (cf, ct) = (canon(&e.from), canon(&e.to));
            if cf <= ct { (cf, ct) } else { (ct, cf) }
        };
        if !seen.insert(key) {
            continue;
        }
        let reverse = edges
            .iter()
            .find(|o| canon(&o.from) == canon(&e.to) && canon(&o.to) == canon(&e.from))
            .expect("has_reverse just confirmed one exists");
        let mut names: Vec<&str> = vec![&e.from, &e.to, &reverse.from, &reverse.to];
        names.sort();
        names.dedup();
        if bodies
            .iter()
            .any(|(_, body)| names.iter().all(|n| body.contains(n)))
        {
            continue;
        }
        let covered = TRANSITIVELY_COVERED.iter().any(|t| {
            ((t.from == e.from && t.to == e.to) || (t.from == reverse.from && t.to == reverse.to))
                && bodies
                    .iter()
                    .any(|(name, body)| name == t.covered_by && names.iter().any(|n| body.contains(n)))
        });
        if !covered {
            missing.push(format!("{names:?}"));
        }
    }
    missing
}

#[test]
fn parse_conversion_returns_none_for_empty_from_base() {
    assert_eq!(parse_conversion("impl TryFrom<> for X {"), None);
}

#[test]
fn parse_conversion_returns_none_for_empty_to_base() {
    assert_eq!(parse_conversion("impl TryFrom<X> for {"), None);
}

#[test]
fn every_bidirectional_pair_has_a_round_trip_test() {
    let files = source_files();
    let edges = all_edges(&files);
    let bodies = test_bodies();

    let mut seen: BTreeSet<(String, String)> = BTreeSet::new();
    let mut missing = Vec::new();

    for e in &edges {
        if !has_reverse(&edges, e) {
            continue;
        }
        let key = {
            let (cf, ct) = (canon(&e.from), canon(&e.to));
            if cf <= ct { (cf, ct) } else { (ct, cf) }
        };
        if !seen.insert(key) {
            continue;
        }

        let reverse = edges
            .iter()
            .find(|o| canon(&o.from) == canon(&e.to) && canon(&o.to) == canon(&e.from))
            .expect("has_reverse just confirmed one exists");
        let mut names: Vec<&str> = vec![&e.from, &e.to, &reverse.from, &reverse.to];
        names.sort();
        names.dedup();

        let direct = bodies
            .iter()
            .any(|(_, body)| names.iter().all(|n| body.contains(n)));
        if direct {
            continue;
        }

        let transitive = TRANSITIVELY_COVERED.iter().find(|t| {
            (t.from == e.from && t.to == e.to) || (t.from == reverse.from && t.to == reverse.to)
        });
        match transitive {
            Some(t) => {
                let covering = bodies.iter().find(|(name, _)| name == t.covered_by);
                match covering {
                    Some((_, body)) => {
                        assert!(
                            names.iter().any(|n| body.contains(n)),
                            "{} -> {} claims coverage by `{}`, whose body no longer names any of \
                             {names:?} ({})",
                            t.from,
                            t.to,
                            t.covered_by,
                            t.reason
                        );
                    }
                    None => panic!(
                        "{} -> {} names `{}` as its covering test, but no round-trip test of \
                         that name exists",
                        t.from, t.to, t.covered_by
                    ),
                }
            }
            None => missing.push(format!(
                "{:?} (in {}, reverse in {})",
                names, e.file, reverse.file
            )),
        }
    }

    assert!(
        missing.is_empty(),
        "bidirectional conversion pair(s) with no round-trip test: {missing:#?}"
    );
}

#[test]
fn every_one_directional_impl_is_registered_with_a_reason() {
    let files = source_files();
    let edges = all_edges(&files);
    let mut unregistered = Vec::new();
    for e in &edges {
        if has_reverse(&edges, e) {
            continue;
        }
        let registered = ONE_DIRECTIONAL
            .iter()
            .any(|r| r.from == e.from && r.to == e.to);
        if !registered {
            unregistered.push(format!("{} -> {} (in {})", e.from, e.to, e.file));
        }
    }
    assert!(
        unregistered.is_empty(),
        "one-directional conversion impl(s) missing from ONE_DIRECTIONAL: {unregistered:#?}"
    );
}

#[test]
fn every_one_directional_pair_is_still_one_directional() {
    let files = source_files();
    let edges = all_edges(&files);
    let mut stale = Vec::new();
    for r in ONE_DIRECTIONAL {
        let reverse_exists = edges.iter().any(|e| e.from == r.to && e.to == r.from);
        if reverse_exists {
            stale.push(format!("{} -> {} ({})", r.from, r.to, r.reason));
        }
    }
    assert!(
        stale.is_empty(),
        "ONE_DIRECTIONAL entries now have a reverse impl: {stale:#?}"
    );
}

#[test]
fn conversion_impl_lines_are_recognised_by_their_two_markers() {
    assert!(is_conversion_impl_line("impl TryFrom<PoseMsg> for Pose {"));
    assert!(is_conversion_impl_line("impl From<Plane> for PlaneMsgOut {"));
    assert!(!is_conversion_impl_line("impl Pose {"));
    assert!(!is_conversion_impl_line("fn try_from(x: TryFrom<A>)"));
    assert!(is_round_trip_test_line("fn pose_round_trips_through_msg() {"));
    assert!(is_round_trip_test_line("fn pose_round_trips() {"));
    assert!(!is_round_trip_test_line("fn pose_roundtrip() {"));
    assert!(!is_round_trip_test_line("pub fn round_trip() {"));
}

#[test]
fn parse_conversion_strips_generics_and_lifetimes() {
    assert_eq!(
        parse_conversion("impl<'m> TryFrom<RobotTrajectoryMsg<'m>> for RobotTrajectory<'m> {"),
        Some(("RobotTrajectoryMsg".to_string(), "RobotTrajectory".to_string()))
    );
    assert_eq!(
        parse_conversion("impl From<moveit_msgs::PlanningScene> for PlanningSceneUpdate {"),
        Some((
            "moveit_msgs::PlanningScene".to_string(),
            "PlanningSceneUpdate".to_string()
        ))
    );
    assert_eq!(parse_conversion("impl TryFrom<A for B {"), None);
    assert_eq!(parse_conversion("impl TryFrom<A> to B {"), None);
    assert_eq!(parse_conversion("impl Foo for B {"), None);
}

#[test]
fn canon_strips_one_out_and_merges_the_alias_pair() {
    assert_eq!(canon("PoseMsgOut"), "PoseMsg");
    assert_eq!(canon("PoseMsg"), "PoseMsg");
    assert_eq!(canon("Mesh"), "Shape");
    assert_eq!(canon("MeshOut"), "Shape");
    assert_eq!(canon("Shape"), "Shape");
    assert_eq!(canon("OutOut"), "Out");
    assert_eq!(canon("Out"), "");
}

#[test]
fn edges_and_reverses_are_read_off_source_text() {
    let files = vec![
        (
            "a.rs".to_string(),
            "  impl TryFrom<PoseMsg> for Pose {\n}\nimpl TryFrom<Pose> for PoseMsgOut {\n"
                .to_string(),
        ),
        (
            "b.rs".to_string(),
            "impl TryFrom<u8> for Operation {\r\n// impl TryFrom<X> for Y\n".to_string(),
        ),
    ];
    let edges = all_edges(&files);
    let got: Vec<(String, String, String)> = edges
        .iter()
        .map(|e| (e.file.clone(), e.from.clone(), e.to.clone()))
        .collect();
    assert_eq!(
        got,
        vec![
            ("a.rs".to_string(), "PoseMsg".to_string(), "Pose".to_string()),
            ("a.rs".to_string(), "Pose".to_string(), "PoseMsgOut".to_string()),
            ("b.rs".to_string(), "u8".to_string(), "Operation".to_string()),
        ]
    );
    assert!(has_reverse(&edges, &edges[0]));
    assert!(has_reverse(&edges, &edges[1]));
    assert!(!has_reverse(&edges, &edges[2]));
    let lone = Edge {
        file: "c.rs".to_string(),
        from: "Operation".to_string(),
        to: "u8".to_string(),
    };
    assert!(has_reverse(&edges, &lone));
}

#[test]
fn round_trip_bodies_run_from_the_test_line_to_the_closing_brace() {
    let text = "#[test]\nfn pose_round_trip() {\n    let x = Pose {\n    };\n}\nfn after() {}\n#[test]\n  fn other_round_trip(a: u8) { }\nfn unrelated() {}\n";
    let bodies = round_trip_test_bodies(&[("t.rs".to_string(), text.to_string())]);
    assert_eq!(
        bodies,
        vec![
            (
                "pose_round_trip".to_string(),
                "fn pose_round_trip() {\n    let x = Pose {\n    };\n}\n".to_string()
            ),
            (
                "other_round_trip".to_string(),
                "  fn other_round_trip(a: u8) { }\n".to_string()
            ),
        ]
    );
    // Without a `#[test]` line directly above, a round-trip-named function is
    // not a test body.
    let untagged = round_trip_test_bodies(&[("u.rs".to_string(), "fn x_round_trip() {}\n".to_string())]);
    assert!(untagged.is_empty());
    // An unclosed body runs to the end of the file.
    let open = round_trip_test_bodies(&[(
        "o.rs".to_string(),
        "#[test]\nfn open_round_trip() {\n  x".to_string(),
    )]);
    assert_eq!(
        open,
        vec![(
            "open_round_trip".to_string(),
            "fn open_round_trip() {\n  x\n".to_string()
        )]
    );
}

#[test]
fn count_matching_lines_counts_left_trimmed_lines() {
    let text = "impl TryFrom<A> for B {}\n    impl From<B> for A {}\nfn a_round_trip() {}\n// impl TryFrom<C> for D\n\tfn b_round_trip() {}\n";
    assert_eq!(count_matching_lines(text, LinePattern::ConversionImpl), 2);
    assert_eq!(count_matching_lines(text, LinePattern::RoundTripTest), 2);
    assert_eq!(count_matching_lines("", LinePattern::RoundTripTest), 0);
}

#[test]
fn a_new_pair_without_a_round_trip_test_is_reported() {
    let mut files = corpus();
    files.push((
        "probe.rs".to_string(),
        "impl TryFrom<ProbeMsg> for Probe {\n}\nimpl TryFrom<Probe> for ProbeMsgOut {\n}\n"
            .to_string(),
    ));
    assert_eq!(missing_pairs(&files), vec!["[\"Probe\", \"ProbeMsg\", \"ProbeMsgOut\"]".to_string()]);
    // A round-trip test that names both types closes the gap.
    files.push((
        "probe_tests.rs".to_string(),
        "#[test]\nfn probe_round_trips() {\n    ProbeMsgOut::try_from(Probe::try_from(ProbeMsg(m)))\n}\n"
            .to_string(),
    ));
    assert!(missing_pairs(&files).is_empty());
}

#[test]
fn the_census_skips_its_own_file_and_keeps_the_order() {
    let files = vec![
        ("a.rs".to_string(), "A".to_string()),
        ("conversion_coverage.rs".to_string(), "self".to_string()),
        ("scene/b.rs".to_string(), "B".to_string()),
    ];
    assert_eq!(
        all_rs_files_except_self(files),
        vec![
            ("a.rs".to_string(), "A".to_string()),
            ("scene/b.rs".to_string(), "B".to_string()),
        ]
    );
}
