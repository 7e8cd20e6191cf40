//! The planner-parameter services: `query_planner_interface`,
//! `get_planner_params` and `set_planner_params`, and the configuration
//! store the last two share with every plan the node runs.
//!
//! None of the three replies has an error field, so a rejected request is
//! answered like an empty one; [`apply_set`] returns whether it wrote, for
//! the caller to log.
//!
//! A pipeline id resolves only when it is empty: this node serves one
//! default planning surface and has no pipeline map, so every named
//! pipeline is a miss on both legs.
//!
//! A read merges two configurations: the global one named by
//! `planner_config`, then the group's, `group[planner_config]`. The merge
//! keeps the global value of a key both supply. A write, by contrast,
//! overwrites key by key, and `replace` clears the configuration first.

use vstd::prelude::*;
use vstd::string::StringExecFns;

use crate::order::{lemma_lex_asymmetric, lemma_lex_transitive, lex_less, lex_lt, sorted_by_lex, strictly_sorted_by_lex};
use crate::param_map::{ParamMap, map_of_pairs, spec_insert_pairs};
use crate::text::string_views;

verus! {

broadcast use vstd::seq_lib::group_to_multiset_ensures;

/// The name a configuration is stored under: the bare configuration name
/// when no group is given, else `group[config]`.
pub open spec fn spec_configuration_name(group: Seq<char>, config: Seq<char>) -> Seq<char> {
    if group.len() == 0 {
        config
    } else {
        group + "["@ + config + "]"@
    }
}

/// The name a configuration for `group` is stored under.
pub fn configuration_name(group: &str, config: &str) -> (s: String)
    ensures
        s@ == spec_configuration_name(group@, config@),
{
    if group.is_empty() {
        return config.to_owned();
    }
    let mut s = group.to_owned();
    s.append("[");
    s.append(config);
    s.append("]");
    s
}

/// A pipeline id this node serves: only the empty id, the default.
pub open spec fn spec_resolves_pipeline(pipeline_id: Seq<char>) -> bool {
    pipeline_id.len() == 0
}

/// Whether `pipeline_id` names a pipeline this node serves.
pub fn resolves_pipeline(pipeline_id: &str) -> (b: bool)
    ensures
        b == spec_resolves_pipeline(pipeline_id@),
{
    pipeline_id.is_empty()
}

/// The views of a list of names.
pub open spec fn str_views(v: Seq<&str>) -> Seq<Seq<char>> {
    v.map_values(|s: &str| s@)
}

/// The names, sorted, so that which description comes first is a property
/// of the names and not of the order they were registered in.
pub fn sorted_names(names: Vec<&'static str>) -> (out: Vec<&'static str>)
    ensures
        out@.to_multiset() == names@.to_multiset(),
        sorted_by_lex(str_views(out@)),
{
    let mut out: Vec<&'static str> = Vec::new();
    let n = names.len();
    let mut i: usize = 0;
    while i < n
        invariant
            n == names@.len(),
            i <= n,
            out@.to_multiset() == names@.take(i as int).to_multiset(),
            sorted_by_lex(str_views(out@)),
        decreases n - i,
    {
        let x = names[i];
        let len = out.len();
        let mut k: usize = 0;
        while k < len && !lex_less(x, out[k])
            invariant
                len == out@.len(),
                k <= len,
                forall|m: int| 0 <= m < k ==> !lex_lt(x@, #[trigger] out@[m]@),
            decreases len - k,
        {
            k = k + 1;
        }
        let ghost before = out@;
        proof {
            let sv = str_views(before);
            let nv = str_views(before.insert(k as int, x));
            assert forall|a: int, b: int| 0 <= a < b < nv.len() implies !lex_lt(#[trigger] nv[b], #[trigger] nv[a]) by {
                if b < k {
                    assert(nv[a] == sv[a] && nv[b] == sv[b]);
                } else if b == k {
                    assert(nv[a] == sv[a]);
                    assert(nv[b] == x@);
                } else if a == k {
                    assert(nv[a] == x@);
                    assert(nv[b] == sv[b - 1]);
                    assert(lex_lt(x@, sv[k as int]));
                    if lex_lt(sv[b - 1], x@) {
                        lemma_lex_transitive(sv[b - 1], x@, sv[k as int]);
                        if b - 1 == k {
                            lemma_lex_asymmetric(sv[b - 1], sv[k as int]);
                        }
                    }
                } else if a < k {
                    assert(nv[a] == sv[a]);
                    assert(nv[b] == sv[b - 1]);
                } else {
                    assert(nv[a] == sv[a - 1]);
                    assert(nv[b] == sv[b - 1]);
                }
            }
            assert(names@.take(i + 1) =~= names@.take(i as int).push(x));
        }
        out.insert(k, x);
        i = i + 1;
    }
    proof {
        assert(names@.take(n as int) =~= names@);
    }
    out
}

/// What a client learns of one planning interface.
#[derive(Debug, Clone, PartialEq, Eq)]
pub struct PlannerInterfaceDescription {
    /// The interface's name.
    pub name: String,
    /// The pipeline it belongs to: empty, the one id this node resolves.
    pub pipeline_id: String,
    /// The algorithms it offers: none are reported.
    pub planner_ids: Vec<String>,
}

/// The reply of `query_planner_interface`.
#[derive(Debug, Clone, PartialEq, Eq)]
pub struct QueryPlannerInterfacesResponse {
    pub planner_interfaces: Vec<PlannerInterfaceDescription>,
}

/// The reply to an interface query: one description per name, in the
/// order given, each with an empty pipeline id and no planner ids.
pub fn query_response(interface_names: &[&str]) -> (r: QueryPlannerInterfacesResponse)
    ensures
        r.planner_interfaces@.len() == interface_names@.len(),
        forall|i: int| 0 <= i < interface_names@.len() ==> {
            let d = #[trigger] r.planner_interfaces@[i];
            &&& d.name@ == interface_names@[i]@
            &&& d.pipeline_id@.len() == 0
            &&& d.planner_ids@.len() == 0
        },
{
    let mut out: Vec<PlannerInterfaceDescription> = Vec::new();
    let n = interface_names.len();
    let mut i: usize = 0;
    while i < n
        invariant
            n == interface_names@.len(),
            i <= n,
            out@.len() == i,
            forall|j: int| 0 <= j < i ==> {
                let d = #[trigger] out@[j];
                &&& d.name@ == interface_names@[j]@
                &&& d.pipeline_id@.len() == 0
                &&& d.planner_ids@.len() == 0
            },
        decreases n - i,
    {
        out.push(
            PlannerInterfaceDescription {
                name: interface_names[i].to_owned(),
                pipeline_id: String::new(),
                planner_ids: Vec::new(),
            },
        );
        i = i + 1;
    }
    QueryPlannerInterfacesResponse { planner_interfaces: out }
}

/// One stored planner configuration.
#[derive(Debug)]
pub struct PlannerConfigurationSettings {
    /// The group it is for; empty for a global configuration.
    pub group: String,
    /// The name it is stored under.
    pub name: String,
    /// Its parameters.
    pub config: ParamMap,
}

/// The abstract value of a [`PlannerConfigurationSettings`].
pub struct SettingsView {
    pub group: Seq<char>,
    pub name: Seq<char>,
    pub config: Map<Seq<char>, Seq<char>>,
}

impl View for PlannerConfigurationSettings {
    type V = SettingsView;

    open spec fn view(&self) -> SettingsView {
        SettingsView { group: self.group@, name: self.name@, config: self.config@ }
    }
}

/// The store that `s` describes: each setting under its own name.
pub open spec fn settings_map(s: Seq<PlannerConfigurationSettings>) -> Map<Seq<char>, SettingsView> {
    Map::new(
        |k: Seq<char>| exists|i: int| 0 <= i < s.len() && s[i].name@ == k,
        |k: Seq<char>| s[choose|i: int| 0 <= i < s.len() && s[i].name@ == k]@,
    )
}

/// No two settings share a name.
pub open spec fn names_distinct(s: Seq<PlannerConfigurationSettings>) -> bool {
    forall|i: int, j: int| 0 <= i < s.len() && 0 <= j < s.len() && i != j ==> #[trigger] s[i].name@ != #[trigger] s[j].name@
}

proof fn lemma_settings_at(s: Seq<PlannerConfigurationSettings>, i: int)
    requires
        names_distinct(s),
        0 <= i < s.len(),
    ensures
        settings_map(s).contains_key(s[i].name@),
        settings_map(s)[s[i].name@] == s[i]@,
{
    let m = settings_map(s);
    assert(m.contains_key(s[i].name@));
    let j = choose|j: int| 0 <= j < s.len() && s[j].name@ == s[i].name@;
    if j != i {
        assert(s[j].name@ != s[i].name@);
    }
}

proof fn lemma_settings_remove(s: Seq<PlannerConfigurationSettings>, i: int)
    requires
        names_distinct(s),
        0 <= i < s.len(),
    ensures
        names_distinct(s.remove(i)),
        settings_map(s.remove(i)) =~= settings_map(s).remove(s[i].name@),
{
    let r = s.remove(i);
    assert forall|a: int, b: int| 0 <= a < r.len() && 0 <= b < r.len() && a != b implies #[trigger] r[a].name@
        != #[trigger] r[b].name@ by {
        let oa = if a < i { a } else { a + 1 };
        let ob = if b < i { b } else { b + 1 };
        assert(r[a] == s[oa]);
        assert(r[b] == s[ob]);
    }
    let om = settings_map(s);
    let nm = settings_map(r);
    assert forall|q: Seq<char>| #[trigger] nm.contains_key(q) <==> om.remove(s[i].name@).contains_key(q) by {
        if nm.contains_key(q) {
            let a = choose|a: int| 0 <= a < r.len() && r[a].name@ == q;
            let oa = if a < i { a } else { a + 1 };
            assert(s[oa] == r[a]);
            assert(oa != i);
        }
        if om.contains_key(q) && q != s[i].name@ {
            let a = choose|a: int| 0 <= a < s.len() && s[a].name@ == q;
            if a < i {
                assert(r[a] == s[a]);
            } else {
                assert(a != i);
                assert(r[a - 1] == s[a]);
            }
        }
    }
    assert forall|q: Seq<char>| #[trigger] nm.contains_key(q) implies nm[q] == om.remove(s[i].name@)[q] by {
        let a = choose|a: int| 0 <= a < r.len() && r[a].name@ == q;
        let oa = if a < i { a } else { a + 1 };
        assert(s[oa] == r[a]);
        lemma_settings_at(r, a);
        lemma_settings_at(s, oa);
    }
}

proof fn lemma_settings_push(s: Seq<PlannerConfigurationSettings>, e: PlannerConfigurationSettings)
    requires
        names_distinct(s),
        !settings_map(s).contains_key(e.name@),
    ensures
        names_distinct(s.push(e)),
        settings_map(s.push(e)) =~= settings_map(s).insert(e.name@, e@),
{
    let p = s.push(e);
    assert forall|a: int, b: int| 0 <= a < p.len() && 0 <= b < p.len() && a != b implies #[trigger] p[a].name@
        != #[trigger] p[b].name@ by {
        if a == s.len() {
            assert(p[b] == s[b]);
            assert(settings_map(s).contains_key(s[b].name@));
        } else if b == s.len() {
            assert(p[a] == s[a]);
            assert(settings_map(s).contains_key(s[a].name@));
        } else {
            assert(p[a] == s[a]);
            assert(p[b] == s[b]);
        }
    }
    let om = settings_map(s);
    let nm = settings_map(p);
    assert forall|q: Seq<char>| #[trigger] nm.contains_key(q) <==> om.insert(e.name@, e@).contains_key(q) by {
        if nm.contains_key(q) {
            let a = choose|a: int| 0 <= a < p.len() && p[a].name@ == q;
            if a < s.len() {
                assert(p[a] == s[a]);
            }
        }
        if om.contains_key(q) {
            let a = choose|a: int| 0 <= a < s.len() && s[a].name@ == q;
            assert(p[a] == s[a]);
        }
        if q == e.name@ {
            assert(p[s.len() as int] == e);
        }
    }
    assert forall|q: Seq<char>| #[trigger] nm.contains_key(q) implies nm[q] == om.insert(e.name@, e@)[q] by {
        let a = choose|a: int| 0 <= a < p.len() && p[a].name@ == q;
        lemma_settings_at(p, a);
        if a < s.len() {
            assert(p[a] == s[a]);
            lemma_settings_at(s, a);
        }
    }
}

/// The planner configurations, each stored under its own name.
#[derive(Debug)]
pub struct PlannerConfigurationMap {
    entries: Vec<PlannerConfigurationSettings>,
}

impl View for PlannerConfigurationMap {
    type V = Map<Seq<char>, SettingsView>;

    closed spec fn view(&self) -> Map<Seq<char>, SettingsView> {
        settings_map(self.entries@)
    }
}

impl PlannerConfigurationMap {
    /// No two entries share a name.
    #[verifier::type_invariant]
    closed spec fn unique_names(self) -> bool {
        names_distinct(self.entries@)
    }

    /// The empty store.
    pub fn new() -> (m: PlannerConfigurationMap)
        ensures
            m@ == Map::<Seq<char>, SettingsView>::empty(),
    {
        let m = PlannerConfigurationMap { entries: Vec::new() };
        assert(m@ =~= Map::<Seq<char>, SettingsView>::empty());
        m
    }

    /// Whether nothing is stored.
    pub fn is_empty(&self) -> (b: bool)
        ensures
            b == (self@.dom() == Set::<Seq<char>>::empty()),
    {
        proof {
            use_type_invariant(self);
        }
        let b = self.entries.len() == 0;
        proof {
            if b {
                assert(self@.dom() =~= Set::<Seq<char>>::empty());
            } else {
                lemma_settings_at(self.entries@, 0);
                assert(self@.dom().contains(self.entries@[0].name@));
            }
        }
        b
    }

    fn index_of(&self, name: &str) -> (r: Option<usize>)
        ensures
            match r {
                Some(i) => i < self.entries@.len() && self.entries@[i as int].name@ == name@,
                None => !self@.contains_key(name@),
            },
    {
        let n = self.entries.len();
        let target = name.to_owned();
        let mut i: usize = 0;
        while i < n
            invariant
                n == self.entries@.len(),
                i <= n,
                target@ == name@,
                forall|j: int| 0 <= j < i ==> #[trigger] self.entries@[j].name@ != name@,
            decreases n - i,
        {
            if self.entries[i].name == target {
                return Some(i);
            }
            i = i + 1;
        }
        None
    }

    /// Whether a configuration is stored under `name`.
    pub fn contains_key(&self, name: &str) -> (b: bool)
        ensures
            b == self@.contains_key(name@),
    {
        proof {
            use_type_invariant(self);
        }
        match self.index_of(name) {
            Some(i) => {
                proof {
                    lemma_settings_at(self.entries@, i as int);
                }
                true
            },
            None => false,
        }
    }

    /// The configuration stored under `name`, if any.
    pub fn get(&self, name: &str) -> (r: Option<&PlannerConfigurationSettings>)
        ensures
            r is Some <==> self@.contains_key(name@),
            r matches Some(s) ==> s@ == self@[name@],
    {
        proof {
            use_type_invariant(self);
        }
        match self.index_of(name) {
            Some(i) => {
                proof {
                    lemma_settings_at(self.entries@, i as int);
                }
                Some(&self.entries[i])
            },
            None => None,
        }
    }

    /// Removes and returns the configuration stored under `name`.
    pub fn take(&mut self, name: &str) -> (r: Option<PlannerConfigurationSettings>)
        ensures
            r is Some <==> old(self)@.contains_key(name@),
            r matches Some(s) ==> s@ == old(self)@[name@],
            final(self)@ == old(self)@.remove(name@),
    {
        proof {
            use_type_invariant(&*self);
        }
        match self.index_of(name) {
            Some(i) => {
                let mut taken = PlannerConfigurationMap::new();
                std::mem::swap(&mut taken, self);
                proof {
                    use_type_invariant(&taken);
                    lemma_settings_at(taken.entries@, i as int);
                    lemma_settings_remove(taken.entries@, i as int);
                }
                let PlannerConfigurationMap { mut entries } = taken;
                let s = entries.remove(i);
                *self = PlannerConfigurationMap { entries };
                Some(s)
            },
            None => {
                proof {
                    assert(self@.remove(name@) =~= self@);
                }
                None
            },
        }
    }

    /// Stores `settings` under its own name, which must be free.
    pub fn put(&mut self, settings: PlannerConfigurationSettings)
        requires
            !old(self)@.contains_key(settings.name@),
        ensures
            final(self)@ == old(self)@.insert(settings.name@, settings@),
    {
        let mut taken = PlannerConfigurationMap::new();
        std::mem::swap(&mut taken, self);
        proof {
            use_type_invariant(&taken);
            lemma_settings_push(taken.entries@, settings);
        }
        let PlannerConfigurationMap { mut entries } = taken;
        entries.push(settings);
        *self = PlannerConfigurationMap { entries };
    }
}

/// A key/value parameter list as it travels on the wire: index-paired
/// arrays, with descriptions that neither service reads or fills.
#[derive(Debug, Clone, PartialEq, Eq)]
pub struct PlannerParams {
    pub keys: Vec<String>,
    pub values: Vec<String>,
    pub descriptions: Vec<String>,
}

/// A `get_planner_params` request.
#[derive(Debug, Clone, PartialEq, Eq)]
pub struct GetPlannerParamsRequest {
    pub pipeline_id: String,
    pub planner_config: String,
    pub group: String,
}

/// A `get_planner_params` reply.
#[derive(Debug, Clone, PartialEq, Eq)]
pub struct GetPlannerParamsResponse {
    pub params: PlannerParams,
}

/// A `set_planner_params` request.
#[derive(Debug, Clone, PartialEq, Eq)]
pub struct SetPlannerParamsRequest {
    pub pipeline_id: String,
    pub planner_config: String,
    pub group: String,
    pub params: PlannerParams,
    pub replace: bool,
}

/// The parameters stored under `name`, or none.
pub open spec fn stored_config(store: Map<Seq<char>, SettingsView>, name: Seq<char>) -> Map<Seq<char>, Seq<char>> {
    if store.contains_key(name) {
        store[name].config
    } else {
        Map::empty()
    }
}

/// What a read answers: nothing unless the pipeline resolves and an
/// interface is registered; else the global configuration, with the
/// group's configuration filling only the keys the global one lacks.
pub open spec fn spec_get_params(
    store: Map<Seq<char>, SettingsView>,
    interface_count: nat,
    pipeline_id: Seq<char>,
    planner_config: Seq<char>,
    group: Seq<char>,
) -> Map<Seq<char>, Seq<char>> {
    if !spec_resolves_pipeline(pipeline_id) || interface_count == 0 {
        Map::empty()
    } else {
        let global = stored_config(store, planner_config);
        if group.len() == 0 {
            global
        } else {
            stored_config(store, spec_configuration_name(group, planner_config)).union_prefer_right(global)
        }
    }
}

/// Whether a write is accepted: the arrays pair up, the pipeline
/// resolves and an interface is registered.
pub open spec fn spec_set_accepted(
    interface_count: nat,
    pipeline_id: Seq<char>,
    key_count: nat,
    value_count: nat,
) -> bool {
    key_count == value_count && spec_resolves_pipeline(pipeline_id) && interface_count > 0
}

/// The store after an accepted write: the configuration stored under
/// `group[planner_config]` (or the bare name) takes the request's group,
/// is cleared first when `replace` is set, and then takes each pair in
/// turn.
pub open spec fn spec_set_params(
    store: Map<Seq<char>, SettingsView>,
    planner_config: Seq<char>,
    group: Seq<char>,
    keys: Seq<Seq<char>>,
    values: Seq<Seq<char>>,
    replace: bool,
) -> Map<Seq<char>, SettingsView> {
    let name = spec_configuration_name(group, planner_config);
    let base = if replace { Map::empty() } else { stored_config(store, name) };
    store.insert(name, SettingsView { group, name, config: spec_insert_pairs(base, keys, values) })
}

/// Answers a `get_planner_params` request from the store. The reply's
/// arrays are index-paired and sorted by key.
pub fn get_response(
    configs: &PlannerConfigurationMap,
    interface_count: usize,
    req: &GetPlannerParamsRequest,
) -> (r: GetPlannerParamsResponse)
    ensures
        r.params.keys@.len() == r.params.values@.len(),
        strictly_sorted_by_lex(string_views(r.params.keys@)),
        map_of_pairs(string_views(r.params.keys@), string_views(r.params.values@)) == spec_get_params(
            configs@,
            interface_count as nat,
            req.pipeline_id@,
            req.planner_config@,
            req.group@,
        ),
        r.params.descriptions@.len() == 0,
{
    let mut merged = ParamMap::new();
    if resolves_pipeline(req.pipeline_id.as_str()) && interface_count > 0 {
        if let Some(settings) = configs.get(req.planner_config.as_str()) {
            merged.extend_from(&settings.config);
        }
        proof {
            assert(merged@ =~= stored_config(configs@, req.planner_config@));
        }
        if !req.group.as_str().is_empty() {
            let name = configuration_name(req.group.as_str(), req.planner_config.as_str());
            if let Some(settings) = configs.get(name.as_str()) {
                merged.fill_absent_from(&settings.config);
            }
            proof {
                assert(merged@ =~= stored_config(configs@, name@).union_prefer_right(
                    stored_config(configs@, req.planner_config@),
                ));
            }
        }
    }
    let (keys, values) = merged.to_arrays();
    GetPlannerParamsResponse { params: PlannerParams { keys, values, descriptions: Vec::new() } }
}

/// Applies a `set_planner_params` request to the store, and says whether
/// it wrote. A rejected request leaves the store as it was.
pub fn apply_set(
    configs: &mut PlannerConfigurationMap,
    interface_count: usize,
    req: &SetPlannerParamsRequest,
) -> (wrote: bool)
    ensures
        wrote == spec_set_accepted(
            interface_count as nat,
            req.pipeline_id@,
            req.params.keys@.len(),
            req.params.values@.len(),
        ),
        wrote ==> final(configs)@ == spec_set_params(
            old(configs)@,
            req.planner_config@,
            req.group@,
            string_views(req.params.keys@),
            string_views(req.params.values@),
            req.replace,
        ),
        !wrote ==> final(configs)@ == old(configs)@,
{
    if req.params.keys.len() != req.params.values.len() {
        return false;
    }
    if !resolves_pipeline(req.pipeline_id.as_str()) || interface_count == 0 {
        return false;
    }
    let name = configuration_name(req.group.as_str(), req.planner_config.as_str());
    let ghost start = configs@;
    let mut settings = match configs.take(name.as_str()) {
        Some(s) => s,
        None => PlannerConfigurationSettings {
            group: String::new(),
            name: String::new(),
            config: ParamMap::new(),
        },
    };
    proof {
        assert(settings.config@ == stored_config(start, name@));
    }
    settings.group = req.group.clone();
    settings.name = name;
    if req.replace {
        settings.config.clear();
    }
    settings.config.insert_pairs(&req.params.keys, &req.params.values);
    configs.put(settings);
    proof {
        assert(configs@ =~= spec_set_params(
            start,
            req.planner_config@,
            req.group@,
            string_views(req.params.keys@),
            string_views(req.params.values@),
            req.replace,
        ));
    }
    true
}

/// The value a write leaves for `ks[i]` is `vs[i]` when no later pair of
/// the same write names that key again.
pub proof fn a_later_pair_wins(
    m: Map<Seq<char>, Seq<char>>,
    ks: Seq<Seq<char>>,
    vs: Seq<Seq<char>>,
    i: int,
)
    requires
        ks.len() == vs.len(),
        0 <= i < ks.len(),
        forall|j: int| i < j < ks.len() ==> ks[j] != ks[i],
    ensures
        spec_insert_pairs(m, ks, vs).contains_key(ks[i]),
        spec_insert_pairs(m, ks, vs)[ks[i]] == vs[i],
    decreases ks.len(),
{
    let n = ks.len() - 1;
    if i < n {
        assert(ks[n] != ks[i]);
        assert(ks.drop_last()[i] == ks[i]);
        assert(vs.drop_last()[i] == vs[i]);
        assert forall|j: int| i < j < ks.drop_last().len() implies ks.drop_last()[j] != ks.drop_last()[i] by {
            assert(ks.drop_last()[j] == ks[j]);
        }
        a_later_pair_wins(m, ks.drop_last(), vs.drop_last(), i);
    }
}

/// A key no pair of a write names keeps what it had.
pub proof fn an_unnamed_key_is_untouched(
    m: Map<Seq<char>, Seq<char>>,
    ks: Seq<Seq<char>>,
    vs: Seq<Seq<char>>,
    k: Seq<char>,
)
    requires
        ks.len() == vs.len(),
        forall|j: int| 0 <= j < ks.len() ==> ks[j] != k,
    ensures
        spec_insert_pairs(m, ks, vs).contains_key(k) == m.contains_key(k),
        m.contains_key(k) ==> spec_insert_pairs(m, ks, vs)[k] == m[k],
    decreases ks.len(),
{
    if ks.len() > 0 {
        let n = ks.len() - 1;
        assert(ks[n] != k);
        assert forall|j: int| 0 <= j < ks.drop_last().len() implies ks.drop_last()[j] != k by {
            assert(ks.drop_last()[j] == ks[j]);
        }
        an_unnamed_key_is_untouched(m, ks.drop_last(), vs.drop_last(), k);
    }
}

/// A write to the default pipeline's global configuration is what a read
/// of that configuration answers: the written pairs over what was there,
/// or over nothing when the write replaces.
pub proof fn set_then_get_round_trips(
    store: Map<Seq<char>, SettingsView>,
    interface_count: nat,
    planner_config: Seq<char>,
    keys: Seq<Seq<char>>,
    values: Seq<Seq<char>>,
    replace: bool,
)
    requires
        interface_count > 0,
        keys.len() == values.len(),
    ensures
        spec_get_params(
            spec_set_params(store, planner_config, Seq::empty(), keys, values, replace),
            interface_count,
            Seq::empty(),
            planner_config,
            Seq::empty(),
        ) == spec_insert_pairs(
            if replace { Map::empty() } else { stored_config(store, planner_config) },
            keys,
            values,
        ),
{
}

/// A group's read answers the global value of every key the global
/// configuration holds, and the group's value only for keys it lacks.
pub proof fn group_read_keeps_the_global_value(
    store: Map<Seq<char>, SettingsView>,
    interface_count: nat,
    planner_config: Seq<char>,
    group: Seq<char>,
    key: Seq<char>,
)
    requires
        interface_count > 0,
        group.len() > 0,
    ensures
        ({
            let read = spec_get_params(store, interface_count, Seq::empty(), planner_config, group);
            let global = stored_config(store, planner_config);
            let own = stored_config(store, spec_configuration_name(group, planner_config));
            &&& global.contains_key(key) ==> read.contains_key(key) && read[key] == global[key]
            &&& !global.contains_key(key) && own.contains_key(key) ==> read.contains_key(key) && read[key] == own[key]
            &&& !global.contains_key(key) && !own.contains_key(key) ==> !read.contains_key(key)
        }),
{
}

/// A write for a group is stored apart from the global configuration of
/// the same name: a global read answers the same before and after it.
pub proof fn group_write_is_invisible_to_a_global_read(
    store: Map<Seq<char>, SettingsView>,
    interface_count: nat,
    planner_config: Seq<char>,
    group: Seq<char>,
    keys: Seq<Seq<char>>,
    values: Seq<Seq<char>>,
    replace: bool,
)
    requires
        group.len() > 0,
    ensures
        spec_get_params(
            spec_set_params(store, planner_config, group, keys, values, replace),
            interface_count,
            Seq::empty(),
            planner_config,
            Seq::empty(),
        ) == spec_get_params(store, interface_count, Seq::empty(), planner_config, Seq::empty()),
{
    let name = spec_configuration_name(group, planner_config);
    assert(name.len() > planner_config.len());
    assert(name != planner_config);
}

/// A write that replaces leaves the configuration holding exactly the
/// written pairs, whatever it held before.
pub proof fn replace_forgets_what_was_there(
    store: Map<Seq<char>, SettingsView>,
    other: Map<Seq<char>, SettingsView>,
    planner_config: Seq<char>,
    group: Seq<char>,
    keys: Seq<Seq<char>>,
    values: Seq<Seq<char>>,
)
    ensures
        spec_set_params(store, planner_config, group, keys, values, true)[spec_configuration_name(group, planner_config)]
            == spec_set_params(other, planner_config, group, keys, values, true)[spec_configuration_name(group, planner_config)],
{
}

/// A named pipeline resolves to nothing: a read of one answers no
/// parameters, and a write to one is rejected.
pub proof fn a_named_pipeline_reads_and_writes_nothing(
    store: Map<Seq<char>, SettingsView>,
    interface_count: nat,
    pipeline_id: Seq<char>,
    planner_config: Seq<char>,
    group: Seq<char>,
    key_count: nat,
)
    requires
        pipeline_id.len() > 0,
    ensures
        spec_get_params(store, interface_count, pipeline_id, planner_config, group) == Map::<Seq<char>, Seq<char>>::empty(),
        !spec_set_accepted(interface_count, pipeline_id, key_count, key_count),
{
}

/// A write without `replace` augments the configuration it writes to: every
/// key it does not name keeps its presence and its value, for a group's
/// configuration as for the global one.
pub proof fn an_augmenting_write_keeps_every_unnamed_key(
    store: Map<Seq<char>, SettingsView>,
    planner_config: Seq<char>,
    group: Seq<char>,
    ks: Seq<Seq<char>>,
    vs: Seq<Seq<char>>,
    k: Seq<char>,
)
    requires
        ks.len() == vs.len(),
        forall|j: int| 0 <= j < ks.len() ==> ks[j] != k,
    ensures
        ({
            let name = spec_configuration_name(group, planner_config);
            let after = stored_config(spec_set_params(store, planner_config, group, ks, vs, false), name);
            let before = stored_config(store, name);
            &&& after.contains_key(k) == before.contains_key(k)
            &&& before.contains_key(k) ==> after[k] == before[k]
        }),
{
    let name = spec_configuration_name(group, planner_config);
    an_unnamed_key_is_untouched(stored_config(store, name), ks, vs, k);
}

} // verus!
