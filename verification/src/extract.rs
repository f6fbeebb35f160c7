use vstd::prelude::*;
use crate::imap::im_insert;
use crate::nodes::{
    Ast, ContractNode, ContractPart, FunctionNode, ParamNode, RetParam, SourceUnit, TopNode,
};
use crate::strutil::{
    concat2, concat3, concat4, contains_seq, join_strings, join_with, lower, push_line,
    str_contains, str_eq, to_lower,
};
use crate::types::{
    contracts_view, rels_view, ContractInfo, ContractInfoView, ContractRelationship, DiagramData,
    DiagramDataView, RelationshipView,
};
use crate::typename::{extract_type_name, spec_type_name};
use crate::walker::{process_function_body, spec_walk_stmts};
use crate::classify::{get_function_purpose, spec_function_purpose};

verus! {

// ------------------------------------------------------------------
// Search helpers over the model
// ------------------------------------------------------------------
/// The first index of a contract record with the given name, or -1.
pub open spec fn spec_find_contract(cs: Seq<ContractInfoView>, name: Seq<char>) -> int
    decreases cs.len(),
{
    if cs.len() == 0 {
        -1
    } else if cs[0].name == name {
        0
    } else {
        let r = spec_find_contract(cs.drop_first(), name);
        if r < 0 {
            -1
        } else {
            r + 1
        }
    }
}

pub proof fn lemma_find_contract(cs: Seq<ContractInfoView>, name: Seq<char>)
    ensures
        spec_find_contract(cs, name) < 0 ==> forall|k: int|
            0 <= k < cs.len() ==> cs[k].name != name,
        spec_find_contract(cs, name) >= 0 ==> 0 <= spec_find_contract(cs, name) < cs.len()
            && cs[spec_find_contract(cs, name)].name == name && forall|k: int|
            0 <= k < spec_find_contract(cs, name) ==> cs[k].name != name,
    decreases cs.len(),
{
    if cs.len() > 0 && cs[0].name != name {
        lemma_find_contract(cs.drop_first(), name);
        assert forall|k: int|
            1 <= k < cs.len() implies cs.drop_first()[k - 1] == cs[k] by {}
    }
}

/// The first index of an interaction entry with the given key, or -1.
pub open spec fn spec_find_entry(es: Seq<(Seq<char>, Seq<Seq<char>>)>, key: Seq<char>) -> int
    decreases es.len(),
{
    if es.len() == 0 {
        -1
    } else if es[0].0 == key {
        0
    } else {
        let r = spec_find_entry(es.drop_first(), key);
        if r < 0 {
            -1
        } else {
            r + 1
        }
    }
}

proof fn lemma_find_entry(es: Seq<(Seq<char>, Seq<Seq<char>>)>, key: Seq<char>)
    ensures
        spec_find_entry(es, key) < 0 ==> forall|k: int| 0 <= k < es.len() ==> es[k].0 != key,
        spec_find_entry(es, key) >= 0 ==> 0 <= spec_find_entry(es, key) < es.len()
            && es[spec_find_entry(es, key)].0 == key && forall|k: int|
            0 <= k < spec_find_entry(es, key) ==> es[k].0 != key,
    decreases es.len(),
{
    if es.len() > 0 && es[0].0 != key {
        lemma_find_entry(es.drop_first(), key);
        assert forall|k: int| 1 <= k < es.len() implies es.drop_first()[k - 1] == es[k] by {}
    }
}

/// Pairwise-distinct entry keys.
pub open spec fn entry_keys_unique(es: Seq<(Seq<char>, Seq<Seq<char>>)>) -> bool {
    forall|i: int, j: int| 0 <= i < j < es.len() ==> es[i].0 != es[j].0
}

/// Inserting under `key`: a new key is appended, an existing key keeps its
/// position and gets the new lines.
pub open spec fn spec_upsert_entry(
    es: Seq<(Seq<char>, Seq<Seq<char>>)>,
    key: Seq<char>,
    lines: Seq<Seq<char>>,
) -> Seq<(Seq<char>, Seq<Seq<char>>)> {
    let j = spec_find_entry(es, key);
    if j < 0 {
        es.push((key, lines))
    } else {
        es.update(j, (key, lines))
    }
}

/// Membership of a string in a vector of strings.
pub fn contains_string(v: &Vec<String>, s: &str) -> (r: bool)
    ensures
        r == v.deep_view().contains(s@),
{
    let mut i: usize = 0;
    while i < v.len()
        invariant
            i <= v.len(),
            forall|k: int| 0 <= k < i ==> v.deep_view()[k] != s@,
        decreases v.len() - i,
    {
        if str_eq(v[i].as_str(), s) {
            proof {
                assert(v.deep_view()[i as int] == s@);
            }
            return true;
        }
        i = i + 1;
    }
    proof {
        assert(forall|k: int| 0 <= k < v.deep_view().len() ==> v.deep_view()[k] != s@);
    }
    false
}

/// A set-like insert: the name is appended only when it is not yet present.
pub open spec fn spec_insert_participant(ps: Seq<Seq<char>>, name: Seq<char>) -> Seq<Seq<char>> {
    if ps.contains(name) {
        ps
    } else {
        ps.push(name)
    }
}

/// Registers a participant name, keeping the list duplicate-free.
pub fn insert_participant(ps: &mut Vec<String>, name: String)
    ensures
        final(ps).deep_view() == spec_insert_participant(old(ps).deep_view(), name@),
{
    if !contains_string(ps, name.as_str()) {
        push_line(ps, name);
    }
}

// ------------------------------------------------------------------
// Return-type extraction
// ------------------------------------------------------------------
/// The display type of one return parameter: the structurally resolved type,
/// or the free-text description when resolution yields "unknown".
pub open spec fn spec_ret_type_of(p: RetParam) -> Seq<char> {
    let base = match p.decl_type {
        Option::Some(t) => spec_type_name(t),
        Option::None => "unknown"@,
    };
    if base == "unknown"@ {
        match p.type_desc {
            Option::Some(d) => d@,
            Option::None => base,
        }
    } else {
        base
    }
}

/// The display types of all return parameters.
pub open spec fn spec_ret_types(ps: Seq<RetParam>) -> Seq<Seq<char>> {
    ps.map_values(|p: RetParam| spec_ret_type_of(p))
}

/// The non-empty names among the return parameters, in order.
pub open spec fn spec_ret_names(ps: Seq<RetParam>) -> Seq<Seq<char>> {
    ps.flat_map(
        |p: RetParam|
            match p.name {
                Option::Some(n) => if n@.len() > 0 {
                    seq![n@]
                } else {
                    Seq::<Seq<char>>::empty()
                },
                Option::None => Seq::<Seq<char>>::empty(),
            },
    )
}

/// The rendered return annotation of a function, when it declares returns.
pub open spec fn spec_return_type(f: FunctionNode) -> Option<Seq<char>> {
    match f.ret_params {
        Option::Some(ps) => if ps@.len() == 0 {
            Option::None
        } else {
            let types = spec_ret_types(ps@);
            let names = spec_ret_names(ps@);
            if names.len() > 0 && names.len() == types.len() {
                Option::Some(
                    join_with(Seq::new(names.len(), |i: int| names[i] + ": "@ + types[i]), ", "@),
                )
            } else {
                Option::Some(join_with(types, ", "@))
            }
        },
        Option::None => Option::None,
    }
}

/// The display type of one return parameter.
fn ret_type_of(p: &RetParam) -> (r: String)
    ensures
        r@ == spec_ret_type_of(*p),
{
    let base = match &p.decl_type {
        Option::Some(t) => extract_type_name(t),
        Option::None => String::from_str("unknown"),
    };
    if str_eq(base.as_str(), "unknown") {
        match &p.type_desc {
            Option::Some(d) => d.clone(),
            Option::None => base,
        }
    } else {
        base
    }
}

/// Extracts the rendered return annotation of a function definition, or
/// `None` when it declares no return parameters.
#[verifier::loop_isolation(false)]
pub fn extract_return_type(function_node: &FunctionNode) -> (r: Option<String>)
    ensures
        r.deep_view() == spec_return_type(*function_node),
{
    let ghost nf = |p: RetParam|
        match p.name {
            Option::Some(n) => if n@.len() > 0 {
                seq![n@]
            } else {
                Seq::<Seq<char>>::empty()
            },
            Option::None => Seq::<Seq<char>>::empty(),
        };
    match &function_node.ret_params {
        Option::Some(ps) => {
            if ps.len() == 0 {
                return Option::None;
            }
            let mut types: Vec<String> = Vec::new();
            let mut names: Vec<String> = Vec::new();
            let mut i: usize = 0;
            proof {
                assert(ps@.take(0).flat_map(nf) =~= Seq::<Seq<char>>::empty());
            }
            while i < ps.len()
                invariant
                    i <= ps.len(),
                    types.deep_view().len() == i,
                    forall|k: int|
                        0 <= k < i ==> types.deep_view()[k] == spec_ret_type_of(ps@[k]),
                    names.deep_view() == ps@.take(i as int).flat_map(nf),
                decreases ps.len() - i,
            {
                let ghost prevn = names.deep_view();
                let t = ret_type_of(&ps[i]);
                push_line(&mut types, t);
                match &ps[i].name {
                    Option::Some(n) => {
                        if n.unicode_len() > 0 {
                            push_line(&mut names, n.clone());
                        }
                    },
                    Option::None => {},
                }
                proof {
                    ps@.lemma_flat_map_take_append(nf, i as int);
                    assert(names.deep_view() =~= prevn + nf(ps@[i as int]));
                }
                i = i + 1;
            }
            proof {
                assert(ps@.take(ps@.len() as int) =~= ps@);
                assert(types.deep_view() =~= spec_ret_types(ps@));
            }
            if names.len() > 0 && names.len() == types.len() {
                let mut combined: Vec<String> = Vec::new();
                let mut j: usize = 0;
                let ghost comb = Seq::new(
                    spec_ret_names(ps@).len(),
                    |k: int| spec_ret_names(ps@)[k] + ": "@ + spec_ret_types(ps@)[k],
                );
                while j < names.len()
                    invariant
                        j <= names.len(),
                        combined.deep_view() == comb.take(j as int),
                    decreases names.len() - j,
                {
                    push_line(
                        &mut combined,
                        concat3(names[j].as_str(), ": ", types[j].as_str()),
                    );
                    proof {
                        assert(combined.deep_view() =~= comb.take(j + 1 as int));
                    }
                    j = j + 1;
                }
                proof {
                    assert(comb.take(comb.len() as int) =~= comb);
                }
                Option::Some(join_strings(&combined, ", "))
            } else {
                Option::Some(join_strings(&types, ", "))
            }
        },
        Option::None => Option::None,
    }
}

// ------------------------------------------------------------------
// Pass 1: contracts, state variables, events, relationships
// ------------------------------------------------------------------
/// The display name of a contract node.
pub open spec fn spec_contract_name(cn: ContractNode) -> Seq<char> {
    match cn.name {
        Option::Some(n) => n@,
        Option::None => "Unknown"@,
    }
}

/// The declared kind of a contract node, defaulted to the ordinary kind.
pub open spec fn spec_contract_kind(cn: ContractNode) -> Seq<char> {
    match cn.kind {
        Option::Some(k) => k@,
        Option::None => "contract"@,
    }
}

/// The event names declared by a contract's parts, placeholders applied.
pub open spec fn spec_part_events(parts: Seq<ContractPart>) -> Seq<Seq<char>> {
    parts.flat_map(
        |p: ContractPart|
            match p {
                ContractPart::Event { name } => seq![
                    match name {
                        Option::Some(n) => n@,
                        Option::None => "UnknownEvent"@,
                    },
                ],
                _ => Seq::<Seq<char>>::empty(),
            },
    )
}

/// The (name, type) pairs of the state variables declared by a contract's
/// parts.
pub open spec fn spec_part_vars(parts: Seq<ContractPart>) -> Seq<(Seq<char>, Seq<char>)> {
    parts.flat_map(
        |p: ContractPart|
            match p {
                ContractPart::Variable { name, decl_type } => seq![
                    (
                        match name {
                            Option::Some(n) => n@,
                            Option::None => "unknown"@,
                        },
                        spec_type_name(decl_type),
                    ),
                ],
                _ => Seq::<(Seq<char>, Seq<char>)>::empty(),
            },
    )
}

/// The "references" relationships recorded for a contract's state variables:
/// one per variable whose resolved type is a registered participant or an
/// address-like type.
pub open spec fn spec_var_rels(
    ps: Seq<Seq<char>>,
    cname: Seq<char>,
    parts: Seq<ContractPart>,
) -> Seq<RelationshipView> {
    parts.flat_map(
        |p: ContractPart|
            match p {
                ContractPart::Variable { name, decl_type } => {
                    let vt = spec_type_name(decl_type);
                    if ps.contains(vt) || contains_seq(lower(vt), "address"@) {
                        seq![
                            RelationshipView {
                                source: cname,
                                target: vt,
                                relation_type: "references"@,
                            },
                        ]
                    } else {
                        Seq::<RelationshipView>::empty()
                    }
                },
                _ => Seq::<RelationshipView>::empty(),
            },
    )
}

/// The "inherits" relationships of a contract, one per base, in order.
pub open spec fn spec_bases_rels(cname: Seq<char>, bases: Seq<Seq<char>>) -> Seq<RelationshipView> {
    bases.map_values(
        |b: Seq<char>| RelationshipView { source: cname, target: b, relation_type: "inherits"@ },
    )
}

/// Replaces the record of the same name in place, or appends a new one.
pub open spec fn spec_upsert_contract(
    cs: Seq<ContractInfoView>,
    info: ContractInfoView,
) -> Seq<ContractInfoView> {
    let j = spec_find_contract(cs, info.name);
    if j < 0 {
        cs.push(info)
    } else {
        cs.update(j, info)
    }
}

/// Everything pass 1 records for one contract node.
pub open spec fn spec_pass1_contract(
    path: Seq<char>,
    cn: ContractNode,
    v: DiagramDataView,
) -> DiagramDataView {
    let cname = spec_contract_name(cn);
    let ps1 = spec_insert_participant(v.participants, cname);
    let info = ContractInfoView {
        name: cname,
        events: spec_part_events(cn.parts@),
        functions: Seq::<Seq<char>>::empty(),
        variables: spec_part_vars(cn.parts@),
        inherits_from: cn.bases.deep_view(),
        contract_type: spec_contract_kind(cn),
        source_file: path,
    };
    DiagramDataView {
        participants: ps1,
        contracts: spec_upsert_contract(v.contracts, info),
        user_interactions: v.user_interactions,
        contract_interactions: v.contract_interactions,
        events: v.events + spec_part_events(cn.parts@).map_values(
            |e: Seq<char>| (cname, e),
        ),
        contract_relationships: v.contract_relationships + spec_bases_rels(
            cname,
            cn.bases.deep_view(),
        ) + spec_var_rels(ps1, cname, cn.parts@),
    }
}

/// Pass 1 for one top-level node.
pub open spec fn spec_pass1_node(path: Seq<char>, n: TopNode, v: DiagramDataView) -> DiagramDataView {
    match n {
        TopNode::Contract(cn) => spec_pass1_contract(path, cn, v),
        TopNode::Other => v,
    }
}

/// Pass 1 over a list of top-level nodes, first to last.
pub open spec fn spec_pass1_nodes(
    path: Seq<char>,
    nodes: Seq<TopNode>,
    v: DiagramDataView,
) -> DiagramDataView
    decreases nodes.len(),
{
    if nodes.len() == 0 {
        v
    } else {
        spec_pass1_nodes(path, nodes.drop_first(), spec_pass1_node(path, nodes[0], v))
    }
}

proof fn lemma_pass1_nodes_push(
    path: Seq<char>,
    nodes: Seq<TopNode>,
    x: TopNode,
    v: DiagramDataView,
)
    ensures
        spec_pass1_nodes(path, nodes.push(x), v) == spec_pass1_node(
            path,
            x,
            spec_pass1_nodes(path, nodes, v),
        ),
    decreases nodes.len(),
{
    if nodes.len() == 0 {
        assert(nodes.push(x)[0] == x);
        assert(nodes.push(x).drop_first() =~= Seq::<TopNode>::empty());
        assert(spec_pass1_nodes(path, nodes.push(x), v) == spec_pass1_nodes(
            path,
            nodes.push(x).drop_first(),
            spec_pass1_node(path, x, v),
        ));
        assert(spec_pass1_nodes(path, nodes.push(x).drop_first(), spec_pass1_node(path, x, v))
            == spec_pass1_node(path, x, v));
        assert(spec_pass1_nodes(path, nodes, v) == v);
    } else {
        assert(nodes.push(x).drop_first() =~= nodes.drop_first().push(x));
        lemma_pass1_nodes_push(path, nodes.drop_first(), x, spec_pass1_node(path, nodes[0], v));
    }
}

/// Pass 1 records no interaction lines: both line stores pass through.
proof fn lemma_pass1_keeps(path: Seq<char>, nodes: Seq<TopNode>, v: DiagramDataView)
    ensures
        spec_pass1_nodes(path, nodes, v).contract_interactions == v.contract_interactions,
        spec_pass1_nodes(path, nodes, v).user_interactions == v.user_interactions,
    decreases nodes.len(),
{
    if nodes.len() > 0 {
        lemma_pass1_keeps(path, nodes.drop_first(), spec_pass1_node(path, nodes[0], v));
    }
}

/// The source-file path of a unit, placeholder applied.
pub open spec fn spec_unit_path(u: SourceUnit) -> Seq<char> {
    match u.absolute_path {
        Option::Some(p) => p@,
        Option::None => "unknown"@,
    }
}

/// Everything pass 1 records for one source unit.
pub open spec fn spec_pass1_unit(u: SourceUnit, v: DiagramDataView) -> DiagramDataView {
    spec_pass1_nodes(spec_unit_path(u), u.nodes@, v)
}

/// Appends one relationship record.
fn push_rel(rels: &mut Vec<ContractRelationship>, source: String, target: String, kind: String)
    ensures
        rels_view(*final(rels)) == rels_view(*old(rels)).push(
            RelationshipView { source: source@, target: target@, relation_type: kind@ },
        ),
{
    let ghost prev = rels_view(*rels);
    let ghost rv = RelationshipView { source: source@, target: target@, relation_type: kind@ };
    rels.push(ContractRelationship { source, target, relation_type: kind });
    proof {
        assert(rels_view(*rels) =~= prev.push(rv));
    }
}

/// Appends one (contract, event) pair.
fn push_event(evs: &mut Vec<(String, String)>, c: String, e: String)
    ensures
        final(evs).deep_view() == old(evs).deep_view().push((c@, e@)),
{
    let ghost prev = evs.deep_view();
    let ghost pv = (c@, e@);
    evs.push((c, e));
    proof {
        assert(evs.deep_view() =~= prev.push(pv));
    }
}

/// Replaces the contract record of the same name in place, or appends.
#[verifier::loop_isolation(false)]
fn upsert_contract(cs: &mut Vec<ContractInfo>, info: ContractInfo)
    ensures
        contracts_view(*final(cs)) == spec_upsert_contract(contracts_view(*old(cs)), info@),
{
    let ghost cv = contracts_view(*cs);
    let mut i: usize = 0;
    while i < cs.len()
        invariant
            i <= cs.len(),
            *cs == *old(cs),
            forall|k: int| 0 <= k < i ==> cv[k].name != info@.name,
        decreases cs.len() - i,
    {
        if str_eq(cs[i].name.as_str(), info.name.as_str()) {
            proof {
                lemma_find_contract(cv, info@.name);
                assert(cv[i as int].name == info@.name);
                assert(spec_find_contract(cv, info@.name) == i as int);
            }
            cs[i] = info;
            proof {
                assert(contracts_view(*cs) =~= cv.update(i as int, info@));
            }
            return ;
        }
        i = i + 1;
    }
    proof {
        lemma_find_contract(cv, info@.name);
        assert(forall|k: int| 0 <= k < cv.len() ==> cv[k].name != info@.name);
        assert(spec_find_contract(cv, info@.name) < 0);
    }
    let ghost iv = info@;
    cs.push(info);
    proof {
        assert(contracts_view(*cs) =~= cv.push(iv));
    }
}

/// Pass 1 for one contract definition: registers the participant, builds its
/// record, and logs its events, variables and relationships.
#[verifier::loop_isolation(false)]
fn process_contract_pass1(path: &str, cn: &ContractNode, data: &mut DiagramData)
    ensures
        final(data)@ == spec_pass1_contract(path@, *cn, old(data)@),
{
    let ghost v0 = data@;
    let ghost cnamev = spec_contract_name(*cn);
    let cname: String = match &cn.name {
        Option::Some(n) => n.clone(),
        Option::None => String::from_str("Unknown"),
    };
    insert_participant(&mut data.participants, cname.clone());
    let ghost ps1 = data@.participants;

    let mut info = ContractInfo {
        name: cname.clone(),
        events: Vec::new(),
        functions: Vec::new(),
        variables: Vec::new(),
        inherits_from: Vec::new(),
        contract_type: match &cn.kind {
            Option::Some(k) => k.clone(),
            Option::None => String::from_str("contract"),
        },
        source_file: String::from_str(path),
    };
    proof {
        assert(info.inherits_from.deep_view() =~= cn.bases.deep_view().take(0));
        assert(rels_view(data.contract_relationships) + spec_bases_rels(
            cnamev,
            cn.bases.deep_view().take(0),
        ) =~= rels_view(data.contract_relationships));
    }

    // Inheritance: one record and one relationship per base.
    let mut i: usize = 0;
    while i < cn.bases.len()
        invariant
            i <= cn.bases.len(),
            info.inherits_from.deep_view() == cn.bases.deep_view().take(i as int),
            info.name@ == cnamev,
            info.contract_type@ == spec_contract_kind(*cn),
            info.source_file@ == path@,
            info.events@.len() == 0,
            info.functions@.len() == 0,
            info.variables@.len() == 0,
            rels_view(data.contract_relationships) == v0.contract_relationships + spec_bases_rels(
                cnamev,
                cn.bases.deep_view().take(i as int),
            ),
            data@.participants == ps1,
            contracts_view(data.contracts) == v0.contracts,
            data@.user_interactions == v0.user_interactions,
            data@.contract_interactions == v0.contract_interactions,
            data@.events == v0.events,
        decreases cn.bases.len() - i,
    {
        push_line(&mut info.inherits_from, cn.bases[i].clone());
        push_rel(
            &mut data.contract_relationships,
            cname.clone(),
            cn.bases[i].clone(),
            String::from_str("inherits"),
        );
        proof {
            assert(cn.bases.deep_view().take(i + 1 as int) =~= cn.bases.deep_view().take(
                i as int,
            ).push(cn.bases.deep_view()[i as int]));
            assert(spec_bases_rels(cnamev, cn.bases.deep_view().take(i + 1 as int))
                =~= spec_bases_rels(cnamev, cn.bases.deep_view().take(i as int)).push(
                RelationshipView {
                    source: cnamev,
                    target: cn.bases.deep_view()[i as int],
                    relation_type: "inherits"@,
                },
            ));
            assert(v0.contract_relationships + spec_bases_rels(
                cnamev,
                cn.bases.deep_view().take(i + 1 as int),
            ) =~= (v0.contract_relationships + spec_bases_rels(
                cnamev,
                cn.bases.deep_view().take(i as int),
            )).push(
                RelationshipView {
                    source: cnamev,
                    target: cn.bases.deep_view()[i as int],
                    relation_type: "inherits"@,
                },
            ));
        }
        i = i + 1;
    }
    proof {
        assert(cn.bases.deep_view().take(cn.bases@.len() as int) =~= cn.bases.deep_view());
    }

    // Events and state variables.
    let ghost fe = |p: ContractPart|
        match p {
            ContractPart::Event { name } => seq![
                match name {
                    Option::Some(n) => n@,
                    Option::None => "UnknownEvent"@,
                },
            ],
            _ => Seq::<Seq<char>>::empty(),
        };
    let ghost fv = |p: ContractPart|
        match p {
            ContractPart::Variable { name, decl_type } => seq![
                (
                    match name {
                        Option::Some(n) => n@,
                        Option::None => "unknown"@,
                    },
                    spec_type_name(decl_type),
                ),
            ],
            _ => Seq::<(Seq<char>, Seq<char>)>::empty(),
        };
    let ghost fr = |p: ContractPart|
        match p {
            ContractPart::Variable { name, decl_type } => {
                let vt = spec_type_name(decl_type);
                if ps1.contains(vt) || contains_seq(lower(vt), "address"@) {
                    seq![
                        RelationshipView {
                            source: cnamev,
                            target: vt,
                            relation_type: "references"@,
                        },
                    ]
                } else {
                    Seq::<RelationshipView>::empty()
                }
            },
            _ => Seq::<RelationshipView>::empty(),
        };
    let ghost baserels = v0.contract_relationships + spec_bases_rels(
        cnamev,
        cn.bases.deep_view(),
    );
    let mut j: usize = 0;
    proof {
        assert(cn.parts@.take(0).flat_map(fe) =~= Seq::<Seq<char>>::empty());
        assert(cn.parts@.take(0).flat_map(fv) =~= Seq::<(Seq<char>, Seq<char>)>::empty());
        assert(cn.parts@.take(0).flat_map(fr) =~= Seq::<RelationshipView>::empty());
        assert(info.events.deep_view() =~= cn.parts@.take(0).flat_map(fe));
        assert(data@.events =~= v0.events + cn.parts@.take(0).flat_map(fe).map_values(
            |e: Seq<char>| (cnamev, e),
        ));
        assert(rels_view(data.contract_relationships) =~= baserels + cn.parts@.take(0).flat_map(
            fr,
        ));
    }
    while j < cn.parts.len()
        invariant
            j <= cn.parts.len(),
            info.events.deep_view() == cn.parts@.take(j as int).flat_map(fe),
            info.variables.deep_view() == cn.parts@.take(j as int).flat_map(fv),
            info.name@ == cnamev,
            info.contract_type@ == spec_contract_kind(*cn),
            info.source_file@ == path@,
            info.functions@.len() == 0,
            info.inherits_from.deep_view() == cn.bases.deep_view(),
            data@.events == v0.events + cn.parts@.take(j as int).flat_map(fe).map_values(
                |e: Seq<char>| (cnamev, e),
            ),
            rels_view(data.contract_relationships) == baserels + cn.parts@.take(j as int).flat_map(
                fr,
            ),
            data@.participants == ps1,
            contracts_view(data.contracts) == v0.contracts,
            data@.user_interactions == v0.user_interactions,
            data@.contract_interactions == v0.contract_interactions,
        decreases cn.parts.len() - j,
    {
        let ghost preve = info.events.deep_view();
        let ghost prevv = info.variables.deep_view();
        let ghost prevge = data@.events;
        let ghost prevr = rels_view(data.contract_relationships);
        match &cn.parts[j] {
            ContractPart::Event { name } => {
                let ev = match name {
                    Option::Some(n) => n.clone(),
                    Option::None => String::from_str("UnknownEvent"),
                };
                push_event(&mut data.events, cname.clone(), ev.clone());
                push_line(&mut info.events, ev);
            },
            ContractPart::Variable { name, decl_type } => {
                let vn = match name {
                    Option::Some(n) => n.clone(),
                    Option::None => String::from_str("unknown"),
                };
                let vt = extract_type_name(decl_type);
                let ghost vpair = (vn@, vt@);
                info.variables.push((vn, vt.clone()));
                proof {
                    assert(info.variables.deep_view() =~= prevv.push(vpair));
                }
                let mut is_ref = contains_string(&data.participants, vt.as_str());
                if !is_ref {
                    let lv = to_lower(vt.as_str());
                    is_ref = str_contains(lv.as_str(), "address");
                }
                if is_ref {
                    push_rel(
                        &mut data.contract_relationships,
                        cname.clone(),
                        vt,
                        String::from_str("references"),
                    );
                }
            },
            _ => {},
        }
        proof {
            cn.parts@.lemma_flat_map_take_append(fe, j as int);
            cn.parts@.lemma_flat_map_take_append(fv, j as int);
            cn.parts@.lemma_flat_map_take_append(fr, j as int);
            assert(info.events.deep_view() =~= preve + fe(cn.parts@[j as int]));
            assert(info.variables.deep_view() =~= prevv + fv(cn.parts@[j as int]));
            assert(data@.events =~= prevge + fe(cn.parts@[j as int]).map_values(
                |e: Seq<char>| (cnamev, e),
            ));
            assert(rels_view(data.contract_relationships) =~= prevr + fr(cn.parts@[j as int]));
            assert(data@.events =~= v0.events + cn.parts@.take(j + 1 as int).flat_map(
                fe,
            ).map_values(|e: Seq<char>| (cnamev, e)));
        }
        j = j + 1;
    }
    proof {
        assert(cn.parts@.take(cn.parts@.len() as int) =~= cn.parts@);
        assert(spec_part_events(cn.parts@) == cn.parts@.flat_map(fe));
        assert(spec_part_vars(cn.parts@) == cn.parts@.flat_map(fv));
        assert(spec_var_rels(ps1, cnamev, cn.parts@) == cn.parts@.flat_map(fr));
        assert(info@ =~= ContractInfoView {
            name: cnamev,
            events: spec_part_events(cn.parts@),
            functions: Seq::<Seq<char>>::empty(),
            variables: spec_part_vars(cn.parts@),
            inherits_from: cn.bases.deep_view(),
            contract_type: spec_contract_kind(*cn),
            source_file: path@,
        });
    }

    upsert_contract(&mut data.contracts, info);
    proof {
        assert(data@ =~= spec_pass1_contract(path@, *cn, v0));
    }
}

/// Pass 1 over one source unit: registers every contract declaration with
/// its events, state variables and relationships.
#[verifier::loop_isolation(false)]
pub fn collect_contracts_and_variables(unit: &SourceUnit, data: &mut DiagramData)
    ensures
        final(data)@ == spec_pass1_unit(*unit, old(data)@),
{
    let ghost v0 = data@;
    let path: String = match &unit.absolute_path {
        Option::Some(p) => p.clone(),
        Option::None => String::from_str("unknown"),
    };
    let mut i: usize = 0;
    while i < unit.nodes.len()
        invariant
            i <= unit.nodes.len(),
            data@ == spec_pass1_nodes(path@, unit.nodes@.take(i as int), v0),
        decreases unit.nodes.len() - i,
    {
        let ghost prev = data@;
        match &unit.nodes[i] {
            TopNode::Contract(cn) => {
                process_contract_pass1(path.as_str(), cn, data);
            },
            TopNode::Other => {},
        }
        proof {
            assert(unit.nodes@.take(i + 1 as int) =~= unit.nodes@.take(i as int).push(
                unit.nodes@[i as int],
            ));
            lemma_pass1_nodes_push(path@, unit.nodes@.take(i as int), unit.nodes@[i as int], v0);
        }
        i = i + 1;
    }
    proof {
        assert(unit.nodes@.take(unit.nodes@.len() as int) =~= unit.nodes@);
    }
}

// ------------------------------------------------------------------
// Pass 2: functions, user interactions, per-function body lines
// ------------------------------------------------------------------
/// The display name of a function: anonymous constructors are shown as
/// `constructor`.
pub open spec fn spec_fn_name(f: FunctionNode) -> Seq<char> {
    if f.name@.len() == 0 && (match f.kind {
        Option::Some(k) => k@ == "constructor"@,
        Option::None => false,
    }) {
        "constructor"@
    } else {
        f.name@
    }
}

/// The display type of one parameter, with the free-text fallback.
pub open spec fn spec_param_type_of(p: ParamNode) -> Seq<char> {
    let base = match p.decl_type {
        Option::Some(t) => spec_type_name(t),
        Option::None => "unknown"@,
    };
    if base == "unknown"@ {
        match p.type_desc {
            Option::Some(d) => d@,
            Option::None => base,
        }
    } else {
        base
    }
}

/// The rendered `name: type` pairs of the named parameters, in order.
pub open spec fn spec_param_pairs(ps: Seq<ParamNode>) -> Seq<Seq<char>> {
    ps.flat_map(
        |p: ParamNode|
            if p.name@.len() > 0 {
                seq![p.name@ + ": "@ + spec_param_type_of(p)]
            } else {
                Seq::<Seq<char>>::empty()
            },
    )
}

/// The call signature shown on the user interaction line.
pub open spec fn spec_message(fname: Seq<char>, f: FunctionNode) -> Seq<char> {
    let pairs = spec_param_pairs(f.params@);
    if pairs.len() == 0 {
        fname + "()"@
    } else {
        fname + "("@ + join_with(pairs, ", "@) + ")"@
    }
}

/// The declared visibility, defaulted to empty.
pub open spec fn spec_visibility(f: FunctionNode) -> Seq<char> {
    match f.visibility {
        Option::Some(v) => v@,
        Option::None => Seq::<char>::empty(),
    }
}

/// The declared state mutability, defaulted to empty.
pub open spec fn spec_mutability(f: FunctionNode) -> Seq<char> {
    match f.state_mutability {
        Option::Some(s) => s@,
        Option::None => Seq::<char>::empty(),
    }
}

/// The return line of a public function: the declared returns when present,
/// a view-function annotation for view or pure functions, else a bare return.
pub open spec fn spec_ret_line(cname: Seq<char>, f: FunctionNode) -> Seq<char> {
    match spec_return_type(f) {
        Option::Some(rt) => cname + "-->>-User: return "@ + rt,
        Option::None => if spec_mutability(f) == "view"@ || spec_mutability(f) == "pure"@ {
            cname + "-->>-User: return (view function)"@
        } else {
            cname + "-->>-User: return"@
        },
    }
}

/// Appends the function name to the record of the named contract, if one is
/// registered.
pub open spec fn spec_push_function(
    cs: Seq<ContractInfoView>,
    cname: Seq<char>,
    fname: Seq<char>,
) -> Seq<ContractInfoView> {
    let j = spec_find_contract(cs, cname);
    if j < 0 {
        cs
    } else {
        cs.update(j, ContractInfoView { functions: cs[j].functions.push(fname), ..cs[j] })
    }
}

/// Everything pass 2 records for one function definition.
pub open spec fn spec_pass2_fn(cname: Seq<char>, f: FunctionNode, v: DiagramDataView) -> DiagramDataView {
    let fname = spec_fn_name(f);
    let cs1 = spec_push_function(v.contracts, cname, fname);
    let vis = spec_visibility(f);
    if vis == "public"@ || vis == "external"@ {
        let note = match spec_function_purpose(fname) {
            Option::Some(p) => seq!["Note over User,"@ + cname + ": "@ + p],
            Option::None => Seq::<Seq<char>>::empty(),
        };
        let ui = v.user_interactions + note + seq!["User->>+"@ + cname + ": "@ + spec_message(fname, f)]
            + seq![spec_ret_line(cname, f)];
        let inter = match f.body {
            Option::Some(b) => spec_upsert_entry(
                v.contract_interactions,
                cname + "."@ + fname,
                spec_walk_stmts(cname, b@),
            ),
            Option::None => v.contract_interactions,
        };
        DiagramDataView { contracts: cs1, user_interactions: ui, contract_interactions: inter, ..v }
    } else {
        DiagramDataView { contracts: cs1, ..v }
    }
}

/// Pass 2 for one contract part.
pub open spec fn spec_pass2_part(cname: Seq<char>, p: ContractPart, v: DiagramDataView) -> DiagramDataView {
    match p {
        ContractPart::Function(f) => spec_pass2_fn(cname, f, v),
        _ => v,
    }
}

/// Pass 2 over a contract's parts, first to last.
pub open spec fn spec_pass2_parts(
    cname: Seq<char>,
    parts: Seq<ContractPart>,
    v: DiagramDataView,
) -> DiagramDataView
    decreases parts.len(),
{
    if parts.len() == 0 {
        v
    } else {
        spec_pass2_parts(cname, parts.drop_first(), spec_pass2_part(cname, parts[0], v))
    }
}

proof fn lemma_pass2_parts_push(
    cname: Seq<char>,
    parts: Seq<ContractPart>,
    x: ContractPart,
    v: DiagramDataView,
)
    ensures
        spec_pass2_parts(cname, parts.push(x), v) == spec_pass2_part(
            cname,
            x,
            spec_pass2_parts(cname, parts, v),
        ),
    decreases parts.len(),
{
    if parts.len() == 0 {
        assert(parts.push(x)[0] == x);
        assert(parts.push(x).drop_first() =~= Seq::<ContractPart>::empty());
        assert(spec_pass2_parts(cname, parts.push(x), v) == spec_pass2_parts(
            cname,
            parts.push(x).drop_first(),
            spec_pass2_part(cname, x, v),
        ));
        assert(spec_pass2_parts(cname, parts.push(x).drop_first(), spec_pass2_part(cname, x, v))
            == spec_pass2_part(cname, x, v));
        assert(spec_pass2_parts(cname, parts, v) == v);
    } else {
        assert(parts.push(x).drop_first() =~= parts.drop_first().push(x));
        lemma_pass2_parts_push(cname, parts.drop_first(), x, spec_pass2_part(cname, parts[0], v));
    }
}

/// Pass 2 for one top-level node.
pub open spec fn spec_pass2_node(n: TopNode, v: DiagramDataView) -> DiagramDataView {
    match n {
        TopNode::Contract(cn) => spec_pass2_parts(spec_contract_name(cn), cn.parts@, v),
        TopNode::Other => v,
    }
}

/// Pass 2 over a list of top-level nodes, first to last.
pub open spec fn spec_pass2_nodes(nodes: Seq<TopNode>, v: DiagramDataView) -> DiagramDataView
    decreases nodes.len(),
{
    if nodes.len() == 0 {
        v
    } else {
        spec_pass2_nodes(nodes.drop_first(), spec_pass2_node(nodes[0], v))
    }
}

proof fn lemma_pass2_nodes_push(nodes: Seq<TopNode>, x: TopNode, v: DiagramDataView)
    ensures
        spec_pass2_nodes(nodes.push(x), v) == spec_pass2_node(x, spec_pass2_nodes(nodes, v)),
    decreases nodes.len(),
{
    if nodes.len() == 0 {
        assert(nodes.push(x)[0] == x);
        assert(nodes.push(x).drop_first() =~= Seq::<TopNode>::empty());
        assert(spec_pass2_nodes(nodes.push(x), v) == spec_pass2_nodes(
            nodes.push(x).drop_first(),
            spec_pass2_node(x, v),
        ));
        assert(spec_pass2_nodes(nodes.push(x).drop_first(), spec_pass2_node(x, v))
            == spec_pass2_node(x, v));
        assert(spec_pass2_nodes(nodes, v) == v);
    } else {
        assert(nodes.push(x).drop_first() =~= nodes.drop_first().push(x));
        lemma_pass2_nodes_push(nodes.drop_first(), x, spec_pass2_node(nodes[0], v));
    }
}

/// Everything pass 2 records for one source unit.
pub open spec fn spec_pass2_unit(u: SourceUnit, v: DiagramDataView) -> DiagramDataView {
    spec_pass2_nodes(u.nodes@, v)
}

/// Appends the function name to the record of the named contract.
#[verifier::loop_isolation(false)]
fn push_function(cs: &mut Vec<ContractInfo>, cname: &str, fname: String)
    ensures
        contracts_view(*final(cs)) == spec_push_function(
            contracts_view(*old(cs)),
            cname@,
            fname@,
        ),
{
    let ghost cv = contracts_view(*cs);
    let mut i: usize = 0;
    while i < cs.len()
        invariant
            i <= cs.len(),
            *cs == *old(cs),
            forall|k: int| 0 <= k < i ==> cv[k].name != cname@,
        decreases cs.len() - i,
    {
        if str_eq(cs[i].name.as_str(), cname) {
            proof {
                lemma_find_contract(cv, cname@);
                assert(cv[i as int].name == cname@);
                assert(spec_find_contract(cv, cname@) == i as int);
            }
            let ghost prevfns = cv[i as int].functions;
            let ghost fv = fname@;
            cs[i].functions.push(fname);
            proof {
                assert(cs[i as int]@.functions =~= prevfns.push(fv));
                assert(cs[i as int]@ =~= ContractInfoView {
                    functions: cv[i as int].functions.push(fv),
                    ..cv[i as int]
                });
                assert(contracts_view(*cs) =~= cv.update(
                    i as int,
                    ContractInfoView { functions: cv[i as int].functions.push(fv), ..cv[i as int] },
                ));
            }
            return ;
        }
        i = i + 1;
    }
    proof {
        lemma_find_contract(cv, cname@);
        assert(spec_find_contract(cv, cname@) < 0);
    }
}

/// Records one function body's lines under its `"<contract>.<function>"`
/// key.
fn insert_interactions(data: &mut DiagramData, key: String, lines: Vec<String>)
    requires
        entry_keys_unique(old(data)@.contract_interactions),
    ensures
        final(data)@.contract_interactions == spec_upsert_entry(
            old(data)@.contract_interactions,
            key@,
            lines.deep_view(),
        ),
        entry_keys_unique(final(data)@.contract_interactions),
        final(data)@.participants == old(data)@.participants,
        final(data)@.contracts == old(data)@.contracts,
        final(data)@.user_interactions == old(data)@.user_interactions,
        final(data)@.events == old(data)@.events,
        final(data)@.contract_relationships == old(data)@.contract_relationships,
{
    let ghost es = data@.contract_interactions;
    let ghost kv = key@;
    let ghost lv = lines.deep_view();
    im_insert(&mut data.contract_interactions, key, lines);
    proof {
        lemma_find_entry(es, kv);
        let j = spec_find_entry(es, kv);
        if j < 0 {
            assert(forall|k: int| 0 <= k < es.len() ==> es[k].0 != kv);
            assert(data@.contract_interactions == es.push((kv, lv)));
            assert(entry_keys_unique(es.push((kv, lv))));
        } else {
            assert(exists|k: int| 0 <= k < es.len() && es[k].0 == kv);
            let w = choose|w: int|
                0 <= w < es.len() && es[w].0 == kv && data@.contract_interactions == es.update(
                    w,
                    (kv, lv),
                );
            assert(w == j);
            assert(data@.contract_interactions == es.update(j, (kv, lv)));
            assert(entry_keys_unique(es.update(j, (kv, lv))));
        }
    }
}

/// Pass 2 for one function definition: records the name, and for public or
/// external functions the user interaction lines and the body walk.
fn process_function_pass2(cname: &str, f: &FunctionNode, data: &mut DiagramData)
    requires
        entry_keys_unique(old(data)@.contract_interactions),
    ensures
        final(data)@ == spec_pass2_fn(cname@, *f, old(data)@),
        entry_keys_unique(final(data)@.contract_interactions),
{
    let ghost v0 = data@;
    let is_ctor = match &f.kind {
        Option::Some(k) => str_eq(k.as_str(), "constructor"),
        Option::None => false,
    };
    let fname: String = if f.name.unicode_len() == 0 && is_ctor {
        String::from_str("constructor")
    } else {
        f.name.clone()
    };
    proof {
        assert(fname@ == spec_fn_name(*f));
    }
    push_function(&mut data.contracts, cname, fname.clone());

    let ghost notes = (match spec_function_purpose(spec_fn_name(*f)) {
        Option::Some(p) => seq!["Note over User,"@ + cname@ + ": "@ + p],
        Option::None => Seq::<Seq<char>>::empty(),
    });
    let vis = match &f.visibility {
        Option::Some(v) => v.clone(),
        Option::None => String::new(),
    };
    if str_eq(vis.as_str(), "public") || str_eq(vis.as_str(), "external") {
        match get_function_purpose(fname.as_str()) {
            Option::Some(p) => {
                push_line(
                    &mut data.user_interactions,
                    concat4("Note over User,", cname, ": ", p.as_str()),
                );
            },
            Option::None => {},
        }
        proof {
            assert(data@.user_interactions =~= v0.user_interactions + notes);
        }
        let msg = function_message(f, fname.as_str());
        push_line(&mut data.user_interactions, concat4("User->>+", cname, ": ", msg.as_str()));
        proof {
            assert(data@.user_interactions =~= v0.user_interactions + notes + seq![
                "User->>+"@ + cname@ + ": "@ + spec_message(spec_fn_name(*f), *f),
            ]);
        }
        match &f.body {
            Option::Some(stmts) => {
                let key = concat3(cname, ".", fname.as_str());
                let lines = process_function_body(cname, fname.as_str(), stmts);
                insert_interactions(data, key, lines);
            },
            Option::None => {},
        }
        match extract_return_type(f) {
            Option::Some(rt) => {
                push_line(
                    &mut data.user_interactions,
                    concat3(cname, "-->>-User: return ", rt.as_str()),
                );
            },
            Option::None => {
                let sm = match &f.state_mutability {
                    Option::Some(s) => s.clone(),
                    Option::None => String::new(),
                };
                if str_eq(sm.as_str(), "view") || str_eq(sm.as_str(), "pure") {
                    push_line(
                        &mut data.user_interactions,
                        concat2(cname, "-->>-User: return (view function)"),
                    );
                } else {
                    push_line(&mut data.user_interactions, concat2(cname, "-->>-User: return"));
                }
            },
        }
        proof {
            assert(data@.user_interactions =~= v0.user_interactions + notes + seq![
                "User->>+"@ + cname@ + ": "@ + spec_message(spec_fn_name(*f), *f),
            ] + seq![spec_ret_line(cname@, *f)]);
        }
    }
    proof {
        let sf = spec_pass2_fn(cname@, *f, v0);
        assert(data@.participants =~= sf.participants);
        assert(data@.contracts =~= sf.contracts);
        assert(data@.events =~= sf.events);
        assert(data@.contract_relationships =~= sf.contract_relationships);
        assert(data@.user_interactions =~= sf.user_interactions);
        assert(data@.contract_interactions =~= sf.contract_interactions);
        assert(data@ =~= sf);
    }
}

/// The call signature shown on the user interaction line.
#[verifier::loop_isolation(false)]
fn function_message(f: &FunctionNode, fname: &str) -> (r: String)
    ensures
        r@ == spec_message(fname@, *f),
{
    let ghost fp = |p: ParamNode|
        if p.name@.len() > 0 {
            seq![p.name@ + ": "@ + spec_param_type_of(p)]
        } else {
            Seq::<Seq<char>>::empty()
        };
    let mut pairs: Vec<String> = Vec::new();
    let mut i: usize = 0;
    proof {
        assert(f.params@.take(0).flat_map(fp) =~= Seq::<Seq<char>>::empty());
    }
    while i < f.params.len()
        invariant
            i <= f.params.len(),
            pairs.deep_view() == f.params@.take(i as int).flat_map(fp),
        decreases f.params.len() - i,
    {
        let ghost prev = pairs.deep_view();
        let p = &f.params[i];
        if p.name.unicode_len() > 0 {
            let base = match &p.decl_type {
                Option::Some(t) => extract_type_name(t),
                Option::None => String::from_str("unknown"),
            };
            let ty = if str_eq(base.as_str(), "unknown") {
                match &p.type_desc {
                    Option::Some(d) => d.clone(),
                    Option::None => base,
                }
            } else {
                base
            };
            push_line(&mut pairs, concat3(p.name.as_str(), ": ", ty.as_str()));
        }
        proof {
            f.params@.lemma_flat_map_take_append(fp, i as int);
            assert(pairs.deep_view() =~= prev + fp(f.params@[i as int]));
        }
        i = i + 1;
    }
    proof {
        assert(f.params@.take(f.params@.len() as int) =~= f.params@);
        assert(pairs.deep_view() == spec_param_pairs(f.params@));
    }
    if pairs.len() == 0 {
        concat2(fname, "()")
    } else {
        let joined = join_strings(&pairs, ", ");
        concat4(fname, "(", joined.as_str(), ")")
    }
}

/// Pass 2 over one source unit: every function of every contract.
#[verifier::loop_isolation(false)]
pub fn process_functions_and_interactions(unit: &SourceUnit, data: &mut DiagramData)
    requires
        entry_keys_unique(old(data)@.contract_interactions),
    ensures
        final(data)@ == spec_pass2_unit(*unit, old(data)@),
        entry_keys_unique(final(data)@.contract_interactions),
{
    let ghost v0 = data@;
    let mut i: usize = 0;
    while i < unit.nodes.len()
        invariant
            i <= unit.nodes.len(),
            data@ == spec_pass2_nodes(unit.nodes@.take(i as int), v0),
            entry_keys_unique(data@.contract_interactions),
        decreases unit.nodes.len() - i,
    {
        match &unit.nodes[i] {
            TopNode::Contract(cn) => {
                let cname: String = match &cn.name {
                    Option::Some(n) => n.clone(),
                    Option::None => String::from_str("Unknown"),
                };
                let ghost w0 = data@;
                let mut j: usize = 0;
                while j < cn.parts.len()
                    invariant
                        j <= cn.parts.len(),
                        cname@ == spec_contract_name(*cn),
                        data@ == spec_pass2_parts(cname@, cn.parts@.take(j as int), w0),
                        entry_keys_unique(data@.contract_interactions),
                    decreases cn.parts.len() - j,
                {
                    match &cn.parts[j] {
                        ContractPart::Function(fnode) => {
                            process_function_pass2(cname.as_str(), fnode, data);
                        },
                        _ => {},
                    }
                    proof {
                        assert(cn.parts@.take(j + 1 as int) =~= cn.parts@.take(j as int).push(
                            cn.parts@[j as int],
                        ));
                        lemma_pass2_parts_push(
                            cname@,
                            cn.parts@.take(j as int),
                            cn.parts@[j as int],
                            w0,
                        );
                    }
                    j = j + 1;
                }
                proof {
                    assert(cn.parts@.take(cn.parts@.len() as int) =~= cn.parts@);
                }
            },
            TopNode::Other => {},
        }
        proof {
            assert(unit.nodes@.take(i + 1 as int) =~= unit.nodes@.take(i as int).push(
                unit.nodes@[i as int],
            ));
            lemma_pass2_nodes_push(unit.nodes@.take(i as int), unit.nodes@[i as int], v0);
        }
        i = i + 1;
    }
    proof {
        assert(unit.nodes@.take(unit.nodes@.len() as int) =~= unit.nodes@);
    }
}

// ------------------------------------------------------------------
// The whole extraction over a decoded tree
// ------------------------------------------------------------------
/// The fully empty model.
pub open spec fn spec_empty_data() -> DiagramDataView {
    DiagramDataView {
        participants: Seq::<Seq<char>>::empty(),
        contracts: Seq::<ContractInfoView>::empty(),
        user_interactions: Seq::<Seq<char>>::empty(),
        contract_interactions: Seq::<(Seq<char>, Seq<Seq<char>>)>::empty(),
        events: Seq::<(Seq<char>, Seq<char>)>::empty(),
        contract_relationships: Seq::<RelationshipView>::empty(),
    }
}

/// Registers the three fixed synthetic participants.
pub open spec fn spec_add_defaults(v: DiagramDataView) -> DiagramDataView {
    DiagramDataView {
        participants: spec_insert_participant(
            spec_insert_participant(spec_insert_participant(v.participants, "User"@), "Events"@),
            "TokenContract"@,
        ),
        ..v
    }
}

/// Both passes over one source unit: declarations first, then function
/// bodies, with the synthetic participants registered in between.
pub open spec fn spec_extract_unit(u: SourceUnit, v: DiagramDataView) -> DiagramDataView {
    spec_pass2_unit(u, spec_add_defaults(spec_pass1_unit(u, v)))
}

/// Extraction over the units of a combined tree, first to last.
pub open spec fn spec_extract_units(units: Seq<SourceUnit>, v: DiagramDataView) -> DiagramDataView
    decreases units.len(),
{
    if units.len() == 0 {
        v
    } else {
        spec_extract_units(units.drop_first(), spec_extract_unit(units[0], v))
    }
}

proof fn lemma_extract_units_push(units: Seq<SourceUnit>, x: SourceUnit, v: DiagramDataView)
    ensures
        spec_extract_units(units.push(x), v) == spec_extract_unit(x, spec_extract_units(units, v)),
    decreases units.len(),
{
    if units.len() == 0 {
        assert(units.push(x)[0] == x);
        assert(units.push(x).drop_first() =~= Seq::<SourceUnit>::empty());
        assert(spec_extract_units(units.push(x), v) == spec_extract_units(
            units.push(x).drop_first(),
            spec_extract_unit(x, v),
        ));
        assert(spec_extract_units(units.push(x).drop_first(), spec_extract_unit(x, v))
            == spec_extract_unit(x, v));
        assert(spec_extract_units(units, v) == v);
    } else {
        assert(units.push(x).drop_first() =~= units.drop_first().push(x));
        lemma_extract_units_push(units.drop_first(), x, spec_extract_unit(units[0], v));
    }
}

/// The complete extraction of a decoded tree into the intermediate model.
pub open spec fn spec_extract(ast: Ast) -> DiagramDataView {
    match ast {
        Ast::Flat(u) => spec_extract_unit(u, spec_empty_data()),
        Ast::Combined(us) => spec_extract_units(us@, spec_empty_data()),
    }
}

/// A set-like insert keeps the list duplicate-free.
proof fn lemma_insert_participant_nodup(ps: Seq<Seq<char>>, name: Seq<char>)
    requires
        ps.no_duplicates(),
    ensures
        spec_insert_participant(ps, name).no_duplicates(),
{
    if !ps.contains(name) {
        let r = ps.push(name);
        assert forall|i: int, j: int| 0 <= i < j < r.len() implies r[i] != r[j] by {
            if j == r.len() - 1 {
                assert(r[i] == ps[i]);
                if ps[i] == name {
                    assert(ps.contains(name));
                }
            }
        }
    }
}

/// Pass 1 keeps the participants duplicate-free.
proof fn lemma_pass1_nodes_nodup(path: Seq<char>, nodes: Seq<TopNode>, v: DiagramDataView)
    requires
        v.participants.no_duplicates(),
    ensures
        spec_pass1_nodes(path, nodes, v).participants.no_duplicates(),
    decreases nodes.len(),
{
    if nodes.len() > 0 {
        match nodes[0] {
            TopNode::Contract(cn) => {
                lemma_insert_participant_nodup(v.participants, spec_contract_name(cn));
            },
            TopNode::Other => {},
        }
        lemma_pass1_nodes_nodup(path, nodes.drop_first(), spec_pass1_node(path, nodes[0], v));
    }
}

/// Pass 2 never touches the participants.
proof fn lemma_pass2_parts_keeps(cname: Seq<char>, parts: Seq<ContractPart>, v: DiagramDataView)
    ensures
        spec_pass2_parts(cname, parts, v).participants == v.participants,
    decreases parts.len(),
{
    if parts.len() > 0 {
        lemma_pass2_parts_keeps(cname, parts.drop_first(), spec_pass2_part(cname, parts[0], v));
    }
}

/// Pass 2 never touches the participants.
proof fn lemma_pass2_nodes_keeps(nodes: Seq<TopNode>, v: DiagramDataView)
    ensures
        spec_pass2_nodes(nodes, v).participants == v.participants,
    decreases nodes.len(),
{
    if nodes.len() > 0 {
        match nodes[0] {
            TopNode::Contract(cn) => {
                lemma_pass2_parts_keeps(spec_contract_name(cn), cn.parts@, v);
            },
            TopNode::Other => {},
        }
        lemma_pass2_nodes_keeps(nodes.drop_first(), spec_pass2_node(nodes[0], v));
    }
}

proof fn lemma_extract_unit_nodup(u: SourceUnit, v: DiagramDataView)
    requires
        v.participants.no_duplicates(),
    ensures
        spec_extract_unit(u, v).participants.no_duplicates(),
{
    lemma_pass1_nodes_nodup(spec_unit_path(u), u.nodes@, v);
    let p1 = spec_pass1_unit(u, v);
    lemma_insert_participant_nodup(p1.participants, "User"@);
    lemma_insert_participant_nodup(
        spec_insert_participant(p1.participants, "User"@),
        "Events"@,
    );
    lemma_insert_participant_nodup(
        spec_insert_participant(spec_insert_participant(p1.participants, "User"@), "Events"@),
        "TokenContract"@,
    );
    lemma_pass2_nodes_keeps(u.nodes@, spec_add_defaults(p1));
}

proof fn lemma_extract_units_nodup(units: Seq<SourceUnit>, v: DiagramDataView)
    requires
        v.participants.no_duplicates(),
    ensures
        spec_extract_units(units, v).participants.no_duplicates(),
    decreases units.len(),
{
    if units.len() > 0 {
        lemma_extract_unit_nodup(units[0], v);
        lemma_extract_units_nodup(units.drop_first(), spec_extract_unit(units[0], v));
    }
}

/// No participant name is ever registered twice: whatever tree is
/// extracted, the participant list of the model holds no duplicates.
pub proof fn lemma_extract_participants_unique(ast: Ast)
    ensures
        spec_extract(ast).participants.no_duplicates(),
{
    match ast {
        Ast::Flat(u) => {
            lemma_extract_unit_nodup(u, spec_empty_data());
        },
        Ast::Combined(us) => {
            lemma_extract_units_nodup(us@, spec_empty_data());
        },
    }
}

/// Registers the three fixed synthetic participants.
fn add_default_participants(data: &mut DiagramData)
    ensures
        final(data)@ == spec_add_defaults(old(data)@),
{
    let ghost v0 = data@;
    insert_participant(&mut data.participants, String::from_str("User"));
    insert_participant(&mut data.participants, String::from_str("Events"));
    insert_participant(&mut data.participants, String::from_str("TokenContract"));
    proof {
        assert(data@ =~= spec_add_defaults(v0));
    }
}

/// Builds the intermediate model from a decoded tree: for each source unit,
/// the declaration pass, the synthetic participants, then the function pass.
#[verifier::loop_isolation(false)]
pub fn extract_model(ast: &Ast) -> (data: DiagramData)
    ensures
        data@ == spec_extract(*ast),
        entry_keys_unique(data@.contract_interactions),
{
    let mut data = DiagramData::default();
    proof {
        assert(data@ =~= spec_empty_data());
    }
    match ast {
        Ast::Flat(u) => {
            collect_contracts_and_variables(u, &mut data);
            proof {
                lemma_pass1_keeps(spec_unit_path(*u), u.nodes@, spec_empty_data());
            }
            add_default_participants(&mut data);
            process_functions_and_interactions(u, &mut data);
        },
        Ast::Combined(us) => {
            let mut i: usize = 0;
            while i < us.len()
                invariant
                    i <= us.len(),
                    data@ == spec_extract_units(us@.take(i as int), spec_empty_data()),
                    entry_keys_unique(data@.contract_interactions),
                decreases us.len() - i,
            {
                let ghost prevd = data@;
                collect_contracts_and_variables(&us[i], &mut data);
                proof {
                    lemma_pass1_keeps(spec_unit_path(us@[i as int]), us@[i as int].nodes@, prevd);
                }
                add_default_participants(&mut data);
                process_functions_and_interactions(&us[i], &mut data);
                proof {
                    assert(us@.take(i + 1 as int) =~= us@.take(i as int).push(us@[i as int]));
                    lemma_extract_units_push(us@.take(i as int), us@[i as int], spec_empty_data());
                }
                i = i + 1;
            }
            proof {
                assert(us@.take(us@.len() as int) =~= us@);
            }
        },
    }
    data
}

} // verus!
