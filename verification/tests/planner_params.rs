use moveit_ros::planner_params::{
    apply_set, configuration_name, get_response, query_response, resolves_pipeline, sorted_names,
    GetPlannerParamsRequest, GetPlannerParamsResponse, PlannerConfigurationMap, PlannerParams,
    SetPlannerParamsRequest,
};

fn get_request(pipeline_id: &str, planner_config: &str, group: &str) -> GetPlannerParamsRequest {
    GetPlannerParamsRequest {
        pipeline_id: pipeline_id.to_string(),
        planner_config: planner_config.to_string(),
        group: group.to_string(),
    }
}

fn set_request(
    pipeline_id: &str,
    planner_config: &str,
    group: &str,
    pairs: &[(&str, &str)],
    replace: bool,
) -> SetPlannerParamsRequest {
    SetPlannerParamsRequest {
        pipeline_id: pipeline_id.to_string(),
        planner_config: planner_config.to_string(),
        group: group.to_string(),
        params: PlannerParams {
            keys: pairs.iter().map(|(k, _)| (*k).to_string()).collect(),
            values: pairs.iter().map(|(_, v)| (*v).to_string()).collect(),
            descriptions: Vec::new(),
        },
        replace,
    }
}

fn pairs(response: &GetPlannerParamsResponse) -> Vec<(String, String)> {
    response
        .params
        .keys
        .iter()
        .cloned()
        .zip(response.params.values.iter().cloned())
        .collect()
}

#[test]
fn interface_names_come_back_sorted_whatever_the_slice_order() {
    assert_eq!(
        sorted_names(vec!["stomp", "rrt_connect", "chomp"]),
        ["chomp", "rrt_connect", "stomp"]
    );
    assert_eq!(
        query_response(&sorted_names(vec!["stomp", "chomp"])).planner_interfaces[0].name,
        "chomp"
    );
}

#[test]
fn a_description_carries_the_name_an_empty_pipeline_id_and_no_planner_ids() {
    let response = query_response(&["rrt_connect"]);
    assert_eq!(response.planner_interfaces.len(), 1);
    let desc = &response.planner_interfaces[0];
    assert_eq!(desc.name, "rrt_connect");
    assert_eq!(desc.pipeline_id, "");
    assert!(resolves_pipeline(&desc.pipeline_id));
    assert!(desc.planner_ids.is_empty());
}

#[test]
fn an_empty_registry_answers_an_empty_interface_list() {
    assert!(query_response(&[]).planner_interfaces.is_empty());
}

#[test]
fn a_set_round_trips_through_a_get() {
    let mut configs = PlannerConfigurationMap::new();
    assert!(apply_set(
        &mut configs,
        1,
        &set_request("", "RRTConnect", "", &[("range", "0.1")], false)
    ));
    assert_eq!(
        pairs(&get_response(&configs, 1, &get_request("", "RRTConnect", ""))),
        [("range".to_string(), "0.1".to_string())]
    );
}

#[test]
fn a_group_set_is_keyed_as_group_bracket_config() {
    let mut configs = PlannerConfigurationMap::new();
    apply_set(
        &mut configs,
        1,
        &set_request("", "RRTConnect", "arm", &[("range", "0.2")], false),
    );
    assert!(configs.contains_key("arm[RRTConnect]"));
    let stored = configs.get("arm[RRTConnect]").expect("stored under the group name");
    assert_eq!(stored.group, "arm");
    assert_eq!(stored.name, "arm[RRTConnect]");
    assert!(pairs(&get_response(&configs, 1, &get_request("", "RRTConnect", ""))).is_empty());
}

#[test]
fn a_group_read_keeps_the_global_value_for_a_shared_key() {
    let mut configs = PlannerConfigurationMap::new();
    apply_set(
        &mut configs,
        1,
        &set_request("", "RRTConnect", "", &[("range", "global")], false),
    );
    apply_set(
        &mut configs,
        1,
        &set_request(
            "",
            "RRTConnect",
            "arm",
            &[("range", "group"), ("goal_bias", "0.05")],
            false,
        ),
    );
    assert_eq!(
        pairs(&get_response(&configs, 1, &get_request("", "RRTConnect", "arm"))),
        [
            ("goal_bias".to_string(), "0.05".to_string()),
            ("range".to_string(), "global".to_string()),
        ]
    );
}

#[test]
fn replace_clears_the_existing_parameters_and_augment_keeps_them() {
    let mut configs = PlannerConfigurationMap::new();
    apply_set(
        &mut configs,
        1,
        &set_request("", "RRTConnect", "", &[("range", "0.1")], false),
    );
    apply_set(
        &mut configs,
        1,
        &set_request("", "RRTConnect", "", &[("goal_bias", "0.05")], false),
    );
    assert_eq!(
        pairs(&get_response(&configs, 1, &get_request("", "RRTConnect", ""))).len(),
        2
    );
    apply_set(
        &mut configs,
        1,
        &set_request("", "RRTConnect", "", &[("range", "0.3")], true),
    );
    assert_eq!(
        pairs(&get_response(&configs, 1, &get_request("", "RRTConnect", ""))),
        [("range".to_string(), "0.3".to_string())]
    );
}

#[test]
fn a_later_set_overwrites_a_key_the_earlier_one_wrote() {
    let mut configs = PlannerConfigurationMap::new();
    apply_set(
        &mut configs,
        1,
        &set_request("", "RRTConnect", "", &[("range", "0.1")], false),
    );
    apply_set(
        &mut configs,
        1,
        &set_request("", "RRTConnect", "", &[("range", "0.9")], false),
    );
    assert_eq!(
        pairs(&get_response(&configs, 1, &get_request("", "RRTConnect", ""))),
        [("range".to_string(), "0.9".to_string())]
    );
}

#[test]
fn mismatched_key_and_value_counts_write_nothing() {
    let mut configs = PlannerConfigurationMap::new();
    let mut req = set_request("", "RRTConnect", "", &[("range", "0.1")], false);
    req.params.values.clear();
    assert!(!apply_set(&mut configs, 1, &req));
    assert!(configs.is_empty());
}

#[test]
fn a_nonempty_pipeline_id_resolves_to_nothing_on_both_legs() {
    let mut configs = PlannerConfigurationMap::new();
    assert!(!apply_set(
        &mut configs,
        1,
        &set_request("ompl", "RRTConnect", "", &[("range", "0.1")], false)
    ));
    assert!(configs.is_empty());

    apply_set(
        &mut configs,
        1,
        &set_request("", "RRTConnect", "", &[("range", "0.1")], false),
    );
    assert!(pairs(&get_response(&configs, 1, &get_request("ompl", "RRTConnect", ""))).is_empty());
    assert_eq!(
        pairs(&get_response(&configs, 1, &get_request("", "RRTConnect", ""))).len(),
        1
    );
}

#[test]
fn with_no_registered_interface_neither_leg_does_anything() {
    let mut configs = PlannerConfigurationMap::new();
    assert!(!apply_set(
        &mut configs,
        0,
        &set_request("", "RRTConnect", "", &[("range", "0.1")], false)
    ));
    assert!(configs.is_empty());

    apply_set(
        &mut configs,
        1,
        &set_request("", "RRTConnect", "", &[("range", "0.1")], false),
    );
    assert!(pairs(&get_response(&configs, 0, &get_request("", "RRTConnect", ""))).is_empty());
}

#[test]
fn an_unknown_planner_config_reads_empty_rather_than_failing() {
    let mut configs = PlannerConfigurationMap::new();
    apply_set(
        &mut configs,
        1,
        &set_request("", "RRTConnect", "", &[("range", "0.1")], false),
    );
    assert!(pairs(&get_response(&configs, 1, &get_request("", "PRM", ""))).is_empty());
}

#[test]
fn get_returns_key_sorted_index_paired_arrays() {
    let mut configs = PlannerConfigurationMap::new();
    apply_set(
        &mut configs,
        1,
        &set_request(
            "",
            "RRTConnect",
            "",
            &[("range", "0.1"), ("goal_bias", "0.05"), ("attempts", "7")],
            false,
        ),
    );
    let response = get_response(&configs, 1, &get_request("", "RRTConnect", ""));
    assert_eq!(response.params.keys, ["attempts", "goal_bias", "range"]);
    assert_eq!(response.params.values, ["7", "0.05", "0.1"]);
    assert!(response.params.descriptions.is_empty());
}

#[test]
fn configuration_names_bracket_the_group() {
    assert_eq!(configuration_name("arm", "RRTConnect"), "arm[RRTConnect]");
    assert_eq!(configuration_name("", "RRTConnect"), "RRTConnect");
}

#[test]
fn a_key_repeated_within_one_set_ends_with_its_last_value() {
    let mut configs = PlannerConfigurationMap::new();
    apply_set(
        &mut configs,
        1,
        &set_request("", "RRTConnect", "", &[("range", "0.1"), ("range", "0.2")], false),
    );
    assert_eq!(
        pairs(&get_response(&configs, 1, &get_request("", "RRTConnect", ""))),
        [("range".to_string(), "0.2".to_string())]
    );
}

#[test]
fn a_group_write_leaves_the_global_read_unchanged() {
    let mut configs = PlannerConfigurationMap::new();
    apply_set(
        &mut configs,
        1,
        &set_request("", "RRTConnect", "", &[("range", "0.1")], false),
    );
    let before = pairs(&get_response(&configs, 1, &get_request("", "RRTConnect", "")));
    apply_set(
        &mut configs,
        1,
        &set_request("", "RRTConnect", "arm", &[("range", "0.7"), ("bias", "1")], true),
    );
    let after = pairs(&get_response(&configs, 1, &get_request("", "RRTConnect", "")));
    assert_eq!(before, after);
}

#[test]
fn sorting_orders_by_code_point_and_keeps_duplicates() {
    assert_eq!(
        sorted_names(vec!["b", "B", "a", "ab", "a", ""]),
        ["", "B", "a", "a", "ab", "b"]
    );
}
