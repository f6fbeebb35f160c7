use sol2seq::decode::AstError;
use sol2seq::{extract_contract_info, generate_sequence_diagram};

fn vault_ast() -> serde_json::Value {
    serde_json::from_str(
        r#"{
        "nodeType": "SourceUnit",
        "absolutePath": "Vault.sol",
        "nodes": [
            {
                "nodeType": "ContractDefinition",
                "name": "Vault",
                "contractKind": "contract",
                "baseContracts": [ { "baseName": { "name": "Ownable" } } ],
                "nodes": [
                    {
                        "nodeType": "VariableDeclaration",
                        "name": "owner",
                        "typeName": { "nodeType": "ElementaryTypeName", "name": "address" }
                    },
                    { "nodeType": "EventDefinition", "name": "Deposited" },
                    {
                        "nodeType": "FunctionDefinition",
                        "name": "deposit",
                        "visibility": "public",
                        "parameters": {
                            "parameters": [
                                {
                                    "name": "amount",
                                    "typeName": {
                                        "nodeType": "ElementaryTypeName",
                                        "name": "uint256"
                                    }
                                }
                            ]
                        },
                        "returnParameters": { "parameters": [] }
                    }
                ]
            }
        ]
    }"#,
    )
    .unwrap()
}

#[test]
fn vault_round_trip() {
    let ast = vault_ast();
    let diagram = generate_sequence_diagram(&ast, false).unwrap();
    let lines: Vec<&str> = diagram.split('\n').collect();

    // Ownable is never declared itself, so it gets no participant lane.
    assert!(!lines.iter().any(|l| l.starts_with("participant Ownable")));
    // Yet the inheritance relationship is recorded and summarized.
    assert!(lines.contains(&"Note right of Vault: Inherits from: Ownable"));
    // The public function produces a call line with its typed signature.
    assert!(lines.contains(&"User->>+Vault: deposit(amount: uint256)"));
    // No declared returns and no view/pure annotation: a bare return line.
    assert!(lines.contains(&"Vault-->>-User: return"));
    // The event section mentions the declared event.
    assert!(lines.contains(&"Note over Vault,Vault: Event: Deposited"));
}

#[test]
fn vault_model_contents() {
    let ast = vault_ast();
    let data = extract_contract_info(&ast).unwrap();

    assert!(data.participants.contains(&"Vault".to_string()));
    assert!(data.participants.contains(&"User".to_string()));
    assert!(data.participants.contains(&"Events".to_string()));
    assert!(data.participants.contains(&"TokenContract".to_string()));
    assert!(!data.participants.contains(&"Ownable".to_string()));

    let rels: Vec<(&str, &str, &str)> = data
        .contract_relationships
        .iter()
        .map(|r| (r.source.as_str(), r.target.as_str(), r.relation_type.as_str()))
        .collect();
    assert!(rels.contains(&("Vault", "Ownable", "inherits")));
    // owner: address is address-like, so a references edge is recorded.
    assert!(rels.contains(&("Vault", "address", "references")));

    assert_eq!(data.events, vec![("Vault".to_string(), "Deposited".to_string())]);
    let vault = data.contracts.iter().find(|c| c.name == "Vault").unwrap();
    assert_eq!(vault.functions, vec!["deposit".to_string()]);
    assert_eq!(vault.inherits_from, vec!["Ownable".to_string()]);
    assert_eq!(vault.contract_type, "contract");
    assert_eq!(vault.source_file, "Vault.sol");
    assert_eq!(vault.variables, vec![("owner".to_string(), "address".to_string())]);
}

#[test]
fn vault_participant_description() {
    let ast = vault_ast();
    let diagram = generate_sequence_diagram(&ast, false).unwrap();
    // owner is an important variable, so it appears in the lane description,
    // together with the source path, separated by line breaks.
    assert!(diagram
        .contains("participant Vault as \"Vault<br/>(owner: address)<br/>from Vault.sol\""));
}

#[test]
fn identical_input_gives_identical_output() {
    let a1 = vault_ast();
    let a2 = vault_ast();
    let d1 = generate_sequence_diagram(&a1, true).unwrap();
    let d2 = generate_sequence_diagram(&a2, true).unwrap();
    assert_eq!(d1, d2);
}

#[test]
fn palette_changes_only_colors() {
    let ast = vault_ast();
    let light = generate_sequence_diagram(&ast, true).unwrap();
    let dark = generate_sequence_diagram(&ast, false).unwrap();
    let ll: Vec<&str> = light.split('\n').collect();
    let dl: Vec<&str> = dark.split('\n').collect();
    assert_eq!(ll.len(), dl.len());
    for (a, b) in ll.iter().zip(dl.iter()) {
        if a != b {
            // The only differing lines carry literal color values: theme
            // configuration entries or section rect colors.
            let theme_line = a.starts_with("    '") && b.starts_with("    '");
            let rect_line = a.starts_with("rect ") && b.starts_with("rect ");
            assert!(theme_line || rect_line, "unexpected difference: {a:?} vs {b:?}");
        }
    }
}

#[test]
fn empty_declarations_produce_bare_diagram() {
    let ast: serde_json::Value = serde_json::from_str(r#"{ "nodes": [] }"#).unwrap();
    let diagram = generate_sequence_diagram(&ast, false).unwrap();
    let lines: Vec<&str> = diagram.split('\n').collect();

    assert_eq!(lines[0], "```mermaid");
    assert_eq!(lines[lines.len() - 1], "```");
    assert!(lines.contains(&"%%{init: {"));
    // The synthetic participants are always registered.
    assert!(lines.contains(&"participant User as \"External User\""));
    assert!(lines.contains(&"participant Events as \"Blockchain Events\""));
    assert!(lines.contains(&"participant TokenContract as \"ERC20/ERC721 Tokens\""));
    // The user-interaction section frame is always emitted; the sections fed
    // by model contents are not.
    assert!(lines.contains(&"Note over User: User Interactions"));
    assert!(!lines.contains(&"Note over User: Contract-to-Contract Interactions"));
    assert!(!lines.contains(&"Note over User: Event Definitions"));
    assert!(!lines.contains(&"Note over User: Contract Relationships"));
    // The legend is always present.
    assert!(lines.contains(&"Note over User: Diagram Legend"));
}

#[test]
fn combined_shape_is_accepted() {
    let ast: serde_json::Value = serde_json::from_str(
        r#"{
        "sources": {
            "a.sol": {
                "AST": {
                    "absolutePath": "a.sol",
                    "nodes": [
                        {
                            "nodeType": "ContractDefinition",
                            "name": "Alpha",
                            "contractKind": "contract",
                            "nodes": []
                        }
                    ]
                }
            },
            "b.sol": {
                "AST": {
                    "absolutePath": "b.sol",
                    "nodes": [
                        {
                            "nodeType": "ContractDefinition",
                            "name": "Beta",
                            "contractKind": "library",
                            "nodes": []
                        }
                    ]
                }
            }
        }
    }"#,
    )
    .unwrap();
    let diagram = generate_sequence_diagram(&ast, false).unwrap();
    assert!(diagram.contains("participant Alpha as \"Alpha<br/>from a.sol\""));
    assert!(diagram.contains("participant Beta as \"Beta (library)<br/>from b.sol\""));
    assert!(diagram.contains("Note right of Beta: Type: library"));
}

#[test]
fn sources_not_an_object_is_a_hard_failure() {
    let ast: serde_json::Value = serde_json::from_str(r#"{ "sources": 5 }"#).unwrap();
    assert_eq!(generate_sequence_diagram(&ast, false).unwrap_err(), AstError::SourcesNotObject);
}

#[test]
fn missing_nodes_array_is_a_hard_failure() {
    let flat: serde_json::Value = serde_json::from_str(r#"{ "name": "nothing" }"#).unwrap();
    assert_eq!(extract_contract_info(&flat).unwrap_err(), AstError::NodesNotArray);

    let nested: serde_json::Value =
        serde_json::from_str(r#"{ "sources": { "a.sol": { "AST": { "nodes": 5 } } } }"#).unwrap();
    assert_eq!(extract_contract_info(&nested).unwrap_err(), AstError::NodesNotArray);
}

#[test]
fn function_body_reaches_interaction_section() {
    let ast: serde_json::Value = serde_json::from_str(
        r#"{
        "absolutePath": "Pay.sol",
        "nodes": [
            {
                "nodeType": "ContractDefinition",
                "name": "Pay",
                "contractKind": "contract",
                "nodes": [
                    {
                        "nodeType": "FunctionDefinition",
                        "name": "run",
                        "visibility": "external",
                        "body": {
                            "statements": [
                                {
                                    "nodeType": "ExpressionStatement",
                                    "expression": {
                                        "nodeType": "FunctionCall",
                                        "expression": {
                                            "nodeType": "MemberAccess",
                                            "memberName": "transfer",
                                            "expression": {
                                                "nodeType": "Identifier",
                                                "name": "wallet"
                                            }
                                        },
                                        "arguments": [
                                            { "nodeType": "Identifier", "name": "amount" },
                                            { "nodeType": "Literal", "kind": "number", "value": "5" }
                                        ]
                                    }
                                }
                            ]
                        }
                    }
                ]
            }
        ]
    }"#,
    )
    .unwrap();
    let diagram = generate_sequence_diagram(&ast, false).unwrap();
    let lines: Vec<&str> = diagram.split('\n').collect();
    assert!(lines.contains(&"Note over User: Contract-to-Contract Interactions"));
    assert!(lines.contains(&"Note right of Pay: Processing run"));
    // Identifier arguments get a guessed type, literal arguments keep their
    // JSON rendering (a string literal keeps its quotes) with the literal
    // kind's type.
    assert!(lines.contains(&"Pay->>+wallet: transfer(amount: uint256, \"5\": uint256)"));
    assert!(lines.contains(&"wallet-->>-Pay: return (success)"));
}

#[test]
fn anonymous_constructor_gets_its_display_name() {
    let ast: serde_json::Value = serde_json::from_str(
        r#"{
        "absolutePath": "C.sol",
        "nodes": [
            {
                "nodeType": "ContractDefinition",
                "name": "C",
                "contractKind": "contract",
                "nodes": [
                    {
                        "nodeType": "FunctionDefinition",
                        "name": "",
                        "kind": "constructor",
                        "visibility": "public"
                    }
                ]
            }
        ]
    }"#,
    )
    .unwrap();
    let data = extract_contract_info(&ast).unwrap();
    let c = data.contracts.iter().find(|c| c.name == "C").unwrap();
    assert_eq!(c.functions, vec!["constructor".to_string()]);
    let diagram = generate_sequence_diagram(&ast, false).unwrap();
    assert!(diagram.contains("Note over User,C: Contract initialization"));
    assert!(diagram.contains("User->>+C: constructor()"));
}

#[test]
fn view_function_return_annotation() {
    let ast: serde_json::Value = serde_json::from_str(
        r#"{
        "absolutePath": "V.sol",
        "nodes": [
            {
                "nodeType": "ContractDefinition",
                "name": "V",
                "contractKind": "contract",
                "nodes": [
                    {
                        "nodeType": "FunctionDefinition",
                        "name": "peek",
                        "visibility": "public",
                        "stateMutability": "view"
                    },
                    {
                        "nodeType": "FunctionDefinition",
                        "name": "get",
                        "visibility": "public",
                        "returnParameters": {
                            "parameters": [
                                {
                                    "name": "x",
                                    "typeName": {
                                        "nodeType": "ElementaryTypeName",
                                        "name": "uint256"
                                    }
                                }
                            ]
                        }
                    }
                ]
            }
        ]
    }"#,
    )
    .unwrap();
    let diagram = generate_sequence_diagram(&ast, false).unwrap();
    assert!(diagram.contains("V-->>-User: return (view function)"));
    assert!(diagram.contains("V-->>-User: return x: uint256"));
}
