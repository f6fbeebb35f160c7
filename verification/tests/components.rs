use sol2seq::diagram::{order_participants, render_diagram};
use sol2seq::extract::extract_return_type;
use sol2seq::nodes::{
    ArrayLen, CallArg, CondDesc, CondRhs, FunctionNode, RetParam, Statement, TypeName,
};
use sol2seq::strutil::{str_contains, to_lower, u64_to_string};
use sol2seq::types::{ContractRelationship, DiagramData};
use sol2seq::{
    extract_type_name, get_function_purpose, guess_type_from_name, is_important_variable,
    process_function_body, Config,
};

fn elem(name: &str) -> TypeName {
    TypeName::Elementary { name: Some(name.to_string()) }
}

#[test]
fn purpose_lookup_follows_rule_order() {
    assert_eq!(get_function_purpose("deposit"), Some("Deposit funds".to_string()));
    assert_eq!(get_function_purpose("withdrawAll"), Some("Withdraw funds".to_string()));
    // "unstake" holds "stake", and the stake rule comes first.
    assert_eq!(get_function_purpose("unstake"), Some("Stake tokens".to_string()));
    // Matching is case-insensitive.
    assert_eq!(
        get_function_purpose("PredictAddress"),
        Some("Calculate deterministic address".to_string())
    );
    assert_eq!(get_function_purpose("frobnicate"), None);
}

#[test]
fn important_variable_markers() {
    assert!(is_important_variable("owner"));
    assert!(is_important_variable("theTokenRegistry"));
    assert!(is_important_variable("IMPLEMENTATION_SLOT"));
    assert!(!is_important_variable("counter"));
}

#[test]
fn guessed_types_follow_rule_order() {
    assert_eq!(guess_type_from_name("isActive"), "bool");
    assert_eq!(guess_type_from_name("hasRole"), "bool");
    assert_eq!(guess_type_from_name("totalAmount"), "uint256");
    assert_eq!(guess_type_from_name("userAddress"), "address");
    assert_eq!(guess_type_from_name("myAddr"), "address");
    assert_eq!(guess_type_from_name("tokenId"), "bytes32");
    // The prefix rule is case-sensitive and wins over the substring rules.
    assert_eq!(guess_type_from_name("isAmount"), "bool");
    // "validator" holds "id" as a substring.
    assert_eq!(guess_type_from_name("validator"), "bytes32");
    assert_eq!(guess_type_from_name("pubKey"), "bytes");
    assert_eq!(guess_type_from_name("foo"), "any");
}

#[test]
fn type_resolution_is_total_and_exact() {
    assert_eq!(extract_type_name(&elem("uint256")), "uint256");
    assert_eq!(extract_type_name(&TypeName::Elementary { name: None }), "unknown");
    assert_eq!(
        extract_type_name(&TypeName::UserDefined {
            has_path_node: true,
            path_node_name: Some("lib.Token".to_string()),
            name: Some("Token".to_string()),
        }),
        "lib.Token"
    );
    assert_eq!(
        extract_type_name(&TypeName::UserDefined {
            has_path_node: false,
            path_node_name: None,
            name: Some("Token".to_string()),
        }),
        "Token"
    );
    assert_eq!(
        extract_type_name(&TypeName::Array {
            base: Box::new(elem("uint256")),
            length: ArrayLen::Absent,
        }),
        "uint256[]"
    );
    assert_eq!(
        extract_type_name(&TypeName::Array {
            base: Box::new(elem("uint256")),
            length: ArrayLen::Number(7),
        }),
        "uint256[7]"
    );
    assert_eq!(
        extract_type_name(&TypeName::Array {
            base: Box::new(elem("bytes32")),
            length: ArrayLen::Text("3".to_string()),
        }),
        "bytes32[3]"
    );
    // Deep nesting: a mapping holding an array of tuples.
    let deep = TypeName::Mapping {
        key: Box::new(elem("address")),
        value: Box::new(TypeName::Array {
            base: Box::new(TypeName::Tuple {
                components: Some(vec![elem("uint256"), TypeName::Function]),
            }),
            length: ArrayLen::Absent,
        }),
    };
    assert_eq!(extract_type_name(&deep), "mapping(address=>(uint256, function)[])");
    assert_eq!(extract_type_name(&TypeName::Tuple { components: None }), "tuple");
    assert_eq!(extract_type_name(&TypeName::Address { payable: true }), "address payable");
    assert_eq!(extract_type_name(&TypeName::Address { payable: false }), "address");
    assert_eq!(
        extract_type_name(&TypeName::Other { type_string: Some("struct X".to_string()) }),
        "struct X"
    );
    assert_eq!(extract_type_name(&TypeName::Other { type_string: None }), "unknown");
}

fn ret(name: Option<&str>, ty: &str) -> RetParam {
    RetParam { name: name.map(|n| n.to_string()), decl_type: Some(elem(ty)), type_desc: None }
}

#[test]
fn return_types_with_and_without_names() {
    let f = |ps: Option<Vec<RetParam>>| FunctionNode {
        name: "f".to_string(),
        kind: None,
        visibility: None,
        params: Vec::new(),
        ret_params: ps,
        state_mutability: None,
        body: None,
    };
    assert_eq!(extract_return_type(&f(None)), None);
    assert_eq!(extract_return_type(&f(Some(Vec::new()))), None);
    assert_eq!(
        extract_return_type(&f(Some(vec![ret(Some("a"), "uint256"), ret(Some("b"), "bool")]))),
        Some("a: uint256, b: bool".to_string())
    );
    assert_eq!(
        extract_return_type(&f(Some(vec![ret(None, "uint256"), ret(None, "bool")]))),
        Some("uint256, bool".to_string())
    );
    // A partly named list falls back to the bare type list.
    assert_eq!(
        extract_return_type(&f(Some(vec![ret(Some("a"), "uint256"), ret(None, "bool")]))),
        Some("uint256, bool".to_string())
    );
    // An unresolved type falls back to the free-text description.
    let fallback = RetParam {
        name: None,
        decl_type: None,
        type_desc: Some("struct Point memory".to_string()),
    };
    assert_eq!(
        extract_return_type(&f(Some(vec![fallback]))),
        Some("struct Point memory".to_string())
    );
}

#[test]
fn if_without_else_produces_one_alt_block() {
    let stmt = Statement::If {
        cond: Some(CondDesc { left: "x".to_string(), op: "==".to_string(), rhs: CondRhs::Number(5) }),
        true_body: vec![Statement::Call {
            target: Some("recipient".to_string()),
            member: Some("transfer".to_string()),
            args: Vec::new(),
        }],
        false_body: None,
    };
    let lines = process_function_body("C", "f", &vec![stmt]);
    assert_eq!(
        lines,
        vec![
            "alt if x == 5".to_string(),
            "    Note right of C: Transfer tokens or ETH".to_string(),
            "    C->>+recipient: transfer()".to_string(),
            "    recipient-->>-C: return (success)".to_string(),
            "end".to_string(),
        ]
    );
    assert_eq!(lines.iter().filter(|l| l.starts_with("alt")).count(), 1);
    assert_eq!(lines.iter().filter(|l| l.trim() == "else").count(), 0);
    assert_eq!(lines.iter().filter(|l| l.trim() == "end").count(), 1);
}

#[test]
fn if_with_else_produces_else_branch() {
    let stmt = Statement::If {
        cond: None,
        true_body: vec![],
        false_body: Some(vec![Statement::Emit {
            event: "Fallback".to_string(),
            args: Vec::new(),
        }]),
    };
    let lines = process_function_body("C", "f", &vec![stmt]);
    assert_eq!(
        lines,
        vec![
            "alt if condition".to_string(),
            "else".to_string(),
            "    C->>Events: emit Fallback()".to_string(),
            "end".to_string(),
        ]
    );
}

#[test]
fn loops_nest_with_indentation() {
    let inner = Statement::Emit {
        event: "Tick".to_string(),
        args: vec![CallArg::Identifier { name: Some("count".to_string()) }],
    };
    let stmt = Statement::For {
        decls: vec![sol2seq::nodes::ForDecl {
            name: Some("i".to_string()),
            decl_type: Some(elem("uint256")),
        }],
        body: vec![inner],
    };
    let lines = process_function_body("C", "f", &vec![stmt]);
    assert_eq!(
        lines,
        vec![
            "loop For each i: uint256".to_string(),
            "    C->>Events: emit Tick(count: any)".to_string(),
            "end".to_string(),
        ]
    );
}

#[test]
fn token_targets_route_through_the_token_participant() {
    let stmt = Statement::Call {
        target: Some("myToken".to_string()),
        member: Some("transferFrom".to_string()),
        args: Vec::new(),
    };
    let lines = process_function_body("C", "f", &vec![stmt]);
    assert_eq!(
        lines,
        vec![
            "Note right of C: Transfer tokens or ETH".to_string(),
            "C->>+TokenContract: transferFrom()".to_string(),
            "TokenContract-->>-C: return (success)".to_string(),
        ]
    );
}

#[test]
fn conversion_calls_route_through_the_recipient() {
    let hit = Statement::ConversionCall { member: Some("call".to_string()), args: Vec::new() };
    let lines = process_function_body("C", "f", &vec![hit]);
    assert_eq!(
        lines,
        vec![
            "C->>+Recipient: ETH call()".to_string(),
            "Recipient-->>-C: return (success)".to_string(),
        ]
    );
    // Other member names on a conversion produce nothing.
    let miss = Statement::ConversionCall { member: Some("balance".to_string()), args: Vec::new() };
    assert!(process_function_body("C", "f", &vec![miss]).is_empty());
}

#[test]
fn declaration_calls_annotate_the_assigned_names() {
    let stmt = Statement::DeclCall {
        target: Some("oracle".to_string()),
        member: Some("latest".to_string()),
        args: Vec::new(),
        var_names: vec!["price".to_string(), "time".to_string()],
    };
    let lines = process_function_body("C", "f", &vec![stmt]);
    assert_eq!(
        lines,
        vec![
            "C->>+oracle: latest()".to_string(),
            "oracle-->>-C: return → price, time".to_string(),
        ]
    );
    let unnamed = Statement::DeclCall {
        target: Some("oracle".to_string()),
        member: Some("latest".to_string()),
        args: Vec::new(),
        var_names: Vec::new(),
    };
    let lines = process_function_body("C", "f", &vec![unnamed]);
    assert_eq!(lines[1], "oracle-->>-C: return → result".to_string());
}

#[test]
fn unknown_statements_produce_no_output() {
    assert!(process_function_body("C", "f", &vec![Statement::Other]).is_empty());
}

#[test]
fn participants_are_ordered_user_first_events_last() {
    let ps: Vec<String> =
        ["Zeta", "User", "Alpha", "Events", "beta"].iter().map(|s| s.to_string()).collect();
    let ordered = order_participants(&ps);
    // Ascending by code point: upper-case letters sort before lower-case.
    assert_eq!(ordered, vec!["User", "Alpha", "Zeta", "beta", "Events"]);

    let no_synthetics: Vec<String> = vec!["B".to_string(), "A".to_string()];
    assert_eq!(order_participants(&no_synthetics), vec!["A", "B"]);
}

#[test]
fn calls_notes_are_deduplicated() {
    let rel = |s: &str, t: &str, k: &str| ContractRelationship {
        source: s.to_string(),
        target: t.to_string(),
        relation_type: k.to_string(),
    };
    let info = sol2seq::ContractInfo {
        name: "A".to_string(),
        events: Vec::new(),
        functions: Vec::new(),
        variables: Vec::new(),
        inherits_from: Vec::new(),
        contract_type: "contract".to_string(),
        source_file: String::new(),
    };
    let mut data = DiagramData::default();
    data.participants = vec!["A".to_string(), "B".to_string()];
    data.contracts = vec![info];
    data.contract_relationships = vec![
        rel("A", "B", "calls"),
        rel("A", "B", "calls"),
        rel("B", "A", "calls"),
        rel("A", "B", "inherits"),
        rel("A", "C", "calls"),
    ];
    let out = render_diagram(&data, false);
    let lines: Vec<&str> = out.split('\n').collect();
    let notes: Vec<&&str> =
        lines.iter().filter(|l| l.contains(": Interacts with ")).collect();
    // One note per unique eligible pair: A->B once, B->A once; the inherits
    // edge and the edge to the unregistered C produce nothing.
    assert_eq!(
        notes,
        vec![&"Note right of A: Interacts with B", &"Note right of B: Interacts with A"]
    );
}

#[test]
fn participant_order_is_permutation_invariant() {
    let a: Vec<String> =
        ["Mint", "User", "Vault", "Events", "Auction"].iter().map(|s| s.to_string()).collect();
    let b: Vec<String> =
        ["Events", "Auction", "Vault", "User", "Mint"].iter().map(|s| s.to_string()).collect();
    assert_eq!(order_participants(&a), order_participants(&b));
}

#[test]
fn duplicate_contract_names_replace_the_record() {
    let ast: serde_json::Value = serde_json::from_str(
        r#"{
        "absolutePath": "D.sol",
        "nodes": [
            {
                "nodeType": "ContractDefinition",
                "name": "Twin",
                "contractKind": "contract",
                "nodes": [ { "nodeType": "EventDefinition", "name": "First" } ]
            },
            {
                "nodeType": "ContractDefinition",
                "name": "Twin",
                "contractKind": "interface",
                "nodes": [ { "nodeType": "EventDefinition", "name": "Second" } ]
            }
        ]
    }"#,
    )
    .unwrap();
    let data = sol2seq::extract_contract_info(&ast).unwrap();
    // One participant, one record: the later declaration replaced the earlier
    // one, while the global event log keeps both entries.
    assert_eq!(data.participants.iter().filter(|p| p.as_str() == "Twin").count(), 1);
    let twins: Vec<&sol2seq::ContractInfo> =
        data.contracts.iter().filter(|c| c.name == "Twin").collect();
    assert_eq!(twins.len(), 1);
    assert_eq!(twins[0].contract_type, "interface");
    assert_eq!(twins[0].events, vec!["Second".to_string()]);
    assert_eq!(
        data.events,
        vec![("Twin".to_string(), "First".to_string()), ("Twin".to_string(), "Second".to_string())]
    );
}

#[test]
fn string_helpers_behave() {
    assert_eq!(to_lower("MixedCASE123"), "mixedcase123");
    assert!(str_contains("needle in a haystack", "in a"));
    assert!(!str_contains("needle", "needles"));
    assert_eq!(u64_to_string(0), "0");
    assert_eq!(u64_to_string(90210), "90210");
}

#[test]
fn default_config_uses_the_default_palette() {
    let c = Config::default();
    assert!(!c.light_colors);
    assert!(c.output_file.is_none());
}
