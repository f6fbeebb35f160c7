use vstd::prelude::*;
use crate::jsonval::{
    json_as_array, json_as_str, json_as_u64, json_display, json_get, json_is_object,
    json_object_values,
};
use crate::nodes::{
    ArrayLen, Ast, CallArg, CondDesc, CondRhs, ContractNode, ContractPart, ForDecl, FunctionNode,
    ParamNode, RetParam, SourceUnit, Statement, TopNode, TypeName,
};
use crate::strutil::str_eq;

verus! {

// Decoding the raw tree into the closed tagged node forms.  Structural
// damage at the top level (no declaration array, a sources entry that is no
// object) is a hard failure; everything below that degrades to an absent
// field or an unrecognized variant and never fails.  A fixed recursion
// ceiling guards against pathological nesting: past it, nodes decode to the
// unrecognized variant, which renders as "unknown" or produces no output.
/// The recursion ceiling of the decoder.
pub const MAX_DEPTH: u64 = 64;

/// A structural failure of the whole extraction.
#[derive(Debug, Clone, PartialEq, Eq, Structural)]
pub enum AstError {
    /// The combined shape's sources entry is not an object.
    SourcesNotObject,
    /// A source unit carries no declaration array.
    NodesNotArray,
}

impl AstError {
    /// A human-readable description of the failure.
    pub fn message(&self) -> (r: String)
        ensures
            r@ == (match *self {
                AstError::SourcesNotObject => "sources is not an object"@,
                AstError::NodesNotArray => "nodes is not an array"@,
            }),
    {
        match self {
            AstError::SourcesNotObject => String::from_str("sources is not an object"),
            AstError::NodesNotArray => String::from_str("nodes is not an array"),
        }
    }
}

/// The string under an object key, when present.
fn get_str(v: &serde_json::Value, key: &str) -> Option<String> {
    match json_get(v, key) {
        Option::Some(inner) => json_as_str(inner),
        Option::None => Option::None,
    }
}

/// Decodes a type-description node.
#[verifier::loop_isolation(false)]
fn decode_type(v: &serde_json::Value, depth: u64) -> TypeName
    decreases depth,
{
    if depth == 0 {
        return TypeName::Other { type_string: Option::None };
    }
    if !json_is_object(v) {
        return TypeName::Other { type_string: Option::None };
    }
    let nt = match get_str(v, "nodeType") {
        Option::Some(s) => s,
        Option::None => String::new(),
    };
    if str_eq(nt.as_str(), "ElementaryTypeName") {
        TypeName::Elementary { name: get_str(v, "name") }
    } else if str_eq(nt.as_str(), "UserDefinedTypeName") {
        let path_node = json_get(v, "pathNode");
        let path_node_name = match path_node {
            Option::Some(p) => get_str(p, "name"),
            Option::None => Option::None,
        };
        TypeName::UserDefined {
            has_path_node: path_node.is_some(),
            path_node_name,
            name: get_str(v, "name"),
        }
    } else if str_eq(nt.as_str(), "ArrayTypeName") {
        let base = match json_get(v, "baseType") {
            Option::Some(b) => decode_type(b, depth - 1),
            Option::None => TypeName::Other { type_string: Option::None },
        };
        let length = match json_get(v, "length") {
            Option::Some(l) => match json_get(l, "value") {
                Option::Some(val) => match json_as_str(val) {
                    Option::Some(s) => ArrayLen::Text(s),
                    Option::None => match json_as_u64(val) {
                        Option::Some(n) => ArrayLen::Number(n),
                        Option::None => ArrayLen::Absent,
                    },
                },
                Option::None => ArrayLen::Absent,
            },
            Option::None => ArrayLen::Absent,
        };
        TypeName::Array { base: Box::new(base), length }
    } else if str_eq(nt.as_str(), "Mapping") {
        let key = match json_get(v, "keyType") {
            Option::Some(k) => decode_type(k, depth - 1),
            Option::None => TypeName::Other { type_string: Option::None },
        };
        let value = match json_get(v, "valueType") {
            Option::Some(w) => decode_type(w, depth - 1),
            Option::None => TypeName::Other { type_string: Option::None },
        };
        TypeName::Mapping { key: Box::new(key), value: Box::new(value) }
    } else if str_eq(nt.as_str(), "TupleType") {
        let components = match json_get(v, "components") {
            Option::Some(c) => match json_as_array(c) {
                Option::Some(arr) => {
                    let mut cs: Vec<TypeName> = Vec::new();
                    let mut i: usize = 0;
                    while i < arr.len()
                        decreases arr.len() - i,
                    {
                        cs.push(decode_type(&arr[i], depth - 1));
                        i = i + 1;
                    }
                    Option::Some(cs)
                },
                Option::None => Option::None,
            },
            Option::None => Option::None,
        };
        TypeName::Tuple { components }
    } else if str_eq(nt.as_str(), "FunctionTypeName") {
        TypeName::Function
    } else if str_eq(nt.as_str(), "AddressType") {
        let payable = match get_str(v, "stateMutability") {
            Option::Some(s) => str_eq(s.as_str(), "payable"),
            Option::None => false,
        };
        TypeName::Address { payable }
    } else {
        let type_string = match json_get(v, "typeDescriptions") {
            Option::Some(td) => get_str(td, "typeString"),
            Option::None => Option::None,
        };
        TypeName::Other { type_string }
    }
}

/// Decodes the arguments of a call or event emission.
fn decode_args(args: Option<&serde_json::Value>) -> Vec<CallArg> {
    let mut out: Vec<CallArg> = Vec::new();
    match args {
        Option::Some(a) => {
            match json_as_array(a) {
                Option::Some(arr) => {
                    let mut i: usize = 0;
                    while i < arr.len()
                        decreases arr.len() - i,
                    {
                        let nt = match get_str(&arr[i], "nodeType") {
                            Option::Some(s) => s,
                            Option::None => String::new(),
                        };
                        if str_eq(nt.as_str(), "Identifier") {
                            out.push(CallArg::Identifier { name: get_str(&arr[i], "name") });
                        } else if str_eq(nt.as_str(), "Literal") {
                            let value = match json_get(&arr[i], "value") {
                                Option::Some(val) => Option::Some(json_display(val)),
                                Option::None => Option::None,
                            };
                            out.push(CallArg::Literal { value, kind: get_str(&arr[i], "kind") });
                        } else {
                            out.push(CallArg::Other);
                        }
                        i = i + 1;
                    }
                },
                Option::None => {},
            }
        },
        Option::None => {},
    }
    out
}

/// Decodes a statement body that may be a block or a single statement.
#[verifier::loop_isolation(false)]
fn decode_body(b: Option<&serde_json::Value>, depth: u64) -> Vec<Statement>
    decreases depth, 0int,
{
    if depth == 0 {
        return Vec::new();
    }
    match b {
        Option::Some(body) => {
            let stmts = match json_get(body, "statements") {
                Option::Some(s) => json_as_array(s),
                Option::None => Option::None,
            };
            match stmts {
                Option::Some(arr) => {
                    let mut out: Vec<Statement> = Vec::new();
                    let mut i: usize = 0;
                    while i < arr.len()
                        decreases arr.len() - i,
                    {
                        out.push(decode_statement(&arr[i], depth - 1));
                        i = i + 1;
                    }
                    out
                },
                Option::None => {
                    if json_get(body, "nodeType").is_some() {
                        let mut out: Vec<Statement> = Vec::new();
                        out.push(decode_statement(body, depth - 1));
                        out
                    } else {
                        Vec::new()
                    }
                },
            }
        },
        Option::None => Vec::new(),
    }
}

/// Decodes one statement node.
#[verifier::loop_isolation(false)]
fn decode_statement(v: &serde_json::Value, depth: u64) -> Statement
    decreases depth, 1int,
{
    if depth == 0 {
        return Statement::Other;
    }
    let nt = match get_str(v, "nodeType") {
        Option::Some(s) => s,
        Option::None => String::new(),
    };
    if str_eq(nt.as_str(), "ForStatement") {
        let mut decls: Vec<ForDecl> = Vec::new();
        match json_get(v, "initializationExpression") {
            Option::Some(ie) => {
                match json_get(ie, "declarations") {
                    Option::Some(d) => {
                        match json_as_array(d) {
                            Option::Some(arr) => {
                                let mut i: usize = 0;
                                while i < arr.len()
                                    decreases arr.len() - i,
                                {
                                    let decl_type = match json_get(&arr[i], "typeName") {
                                        Option::Some(t) => Option::Some(decode_type(t, depth - 1)),
                                        Option::None => Option::None,
                                    };
                                    decls.push(
                                        ForDecl { name: get_str(&arr[i], "name"), decl_type },
                                    );
                                    i = i + 1;
                                }
                            },
                            Option::None => {},
                        }
                    },
                    Option::None => {},
                }
            },
            Option::None => {},
        }
        let body = decode_body(json_get(v, "body"), depth);
        Statement::For { decls, body }
    } else if str_eq(nt.as_str(), "IfStatement") {
        let cond = decode_condition(json_get(v, "condition"));
        let true_body = decode_body(json_get(v, "trueBody"), depth);
        let false_body = match json_get(v, "falseBody") {
            Option::Some(fb) => {
                if json_is_object(fb) {
                    Option::Some(decode_body(Option::Some(fb), depth))
                } else {
                    Option::None
                }
            },
            Option::None => Option::None,
        };
        Statement::If { cond, true_body, false_body }
    } else if str_eq(nt.as_str(), "EmitStatement") {
        match json_get(v, "eventCall") {
            Option::Some(ec) => {
                let name = match json_get(ec, "expression") {
                    Option::Some(expr) => get_str(expr, "name"),
                    Option::None => Option::None,
                };
                match name {
                    Option::Some(event) => Statement::Emit {
                        event,
                        args: decode_args(json_get(ec, "arguments")),
                    },
                    Option::None => Statement::Other,
                }
            },
            Option::None => Statement::Other,
        }
    } else if str_eq(nt.as_str(), "ExpressionStatement") {
        match json_get(v, "expression") {
            Option::Some(expr) => decode_call_expression(expr),
            Option::None => Statement::Other,
        }
    } else if str_eq(nt.as_str(), "VariableDeclarationStatement") {
        decode_decl_call(v)
    } else {
        Statement::Other
    }
}

/// Decodes a recognized `<identifier> <op> <literal>` condition.
fn decode_condition(c: Option<&serde_json::Value>) -> Option<CondDesc> {
    match c {
        Option::Some(cond) => {
            let nt = match get_str(cond, "nodeType") {
                Option::Some(s) => s,
                Option::None => String::new(),
            };
            if !str_eq(nt.as_str(), "BinaryOperation") {
                return Option::None;
            }
            let left = json_get(cond, "leftExpression");
            let right = json_get(cond, "rightExpression");
            let op = get_str(cond, "operator");
            match (left, right, op) {
                (Option::Some(l), Option::Some(r), Option::Some(o)) => {
                    match get_str(l, "name") {
                        Option::Some(left_name) => {
                            match json_get(r, "value") {
                                Option::Some(val) => {
                                    match json_as_str(val) {
                                        Option::Some(s) => Option::Some(
                                            CondDesc {
                                                left: left_name,
                                                op: o,
                                                rhs: CondRhs::Text(s),
                                            },
                                        ),
                                        Option::None => match json_as_u64(val) {
                                            Option::Some(n) => Option::Some(
                                                CondDesc {
                                                    left: left_name,
                                                    op: o,
                                                    rhs: CondRhs::Number(n),
                                                },
                                            ),
                                            Option::None => Option::None,
                                        },
                                    }
                                },
                                Option::None => Option::None,
                            }
                        },
                        Option::None => Option::None,
                    }
                },
                _ => Option::None,
            }
        },
        Option::None => Option::None,
    }
}

/// Decodes a bare expression statement: only member-access calls on an
/// identifier or on a type conversion produce output.
fn decode_call_expression(expr: &serde_json::Value) -> Statement {
    let nt = match get_str(expr, "nodeType") {
        Option::Some(s) => s,
        Option::None => String::new(),
    };
    if !str_eq(nt.as_str(), "FunctionCall") {
        return Statement::Other;
    }
    match json_get(expr, "expression") {
        Option::Some(call_expr) => {
            let cnt = match get_str(call_expr, "nodeType") {
                Option::Some(s) => s,
                Option::None => String::new(),
            };
            if !str_eq(cnt.as_str(), "MemberAccess") {
                return Statement::Other;
            }
            let member = get_str(call_expr, "memberName");
            match json_get(call_expr, "expression") {
                Option::Some(base) => {
                    let bnt = match get_str(base, "nodeType") {
                        Option::Some(s) => s,
                        Option::None => String::new(),
                    };
                    if str_eq(bnt.as_str(), "Identifier") {
                        Statement::Call {
                            target: get_str(base, "name"),
                            member,
                            args: decode_args(json_get(expr, "arguments")),
                        }
                    } else if str_eq(bnt.as_str(), "FunctionCall") {
                        let kind_ok = match get_str(base, "kind") {
                            Option::Some(k) => str_eq(k.as_str(), "typeConversion"),
                            Option::None => false,
                        };
                        if kind_ok {
                            Statement::ConversionCall {
                                member,
                                args: decode_args(json_get(expr, "arguments")),
                            }
                        } else {
                            Statement::Other
                        }
                    } else {
                        Statement::Other
                    }
                },
                Option::None => Statement::Other,
            }
        },
        Option::None => Statement::Other,
    }
}

/// Decodes a variable declaration whose initializer is a member-access call.
fn decode_decl_call(v: &serde_json::Value) -> Statement {
    match json_get(v, "initialValue") {
        Option::Some(init) => {
            let nt = match get_str(init, "nodeType") {
                Option::Some(s) => s,
                Option::None => String::new(),
            };
            if !str_eq(nt.as_str(), "FunctionCall") {
                return Statement::Other;
            }
            match json_get(init, "expression") {
                Option::Some(call_expr) => {
                    let cnt = match get_str(call_expr, "nodeType") {
                        Option::Some(s) => s,
                        Option::None => String::new(),
                    };
                    if !str_eq(cnt.as_str(), "MemberAccess") {
                        return Statement::Other;
                    }
                    let member = get_str(call_expr, "memberName");
                    match json_get(call_expr, "expression") {
                        Option::Some(base) => {
                            let bnt = match get_str(base, "nodeType") {
                                Option::Some(s) => s,
                                Option::None => String::new(),
                            };
                            if !str_eq(bnt.as_str(), "Identifier") {
                                return Statement::Other;
                            }
                            let mut var_names: Vec<String> = Vec::new();
                            match json_get(v, "declarations") {
                                Option::Some(d) => {
                                    match json_as_array(d) {
                                        Option::Some(arr) => {
                                            let mut i: usize = 0;
                                            while i < arr.len()
                                                decreases arr.len() - i,
                                            {
                                                match get_str(&arr[i], "name") {
                                                    Option::Some(n) => var_names.push(n),
                                                    Option::None => {},
                                                }
                                                i = i + 1;
                                            }
                                        },
                                        Option::None => {},
                                    }
                                },
                                Option::None => {},
                            }
                            Statement::DeclCall {
                                target: get_str(base, "name"),
                                member,
                                args: decode_args(json_get(init, "arguments")),
                                var_names,
                            }
                        },
                        Option::None => Statement::Other,
                    }
                },
                Option::None => Statement::Other,
            }
        },
        Option::None => Statement::Other,
    }
}

/// Decodes one function definition.
fn decode_function(v: &serde_json::Value, name: String) -> FunctionNode {
    let mut params: Vec<ParamNode> = Vec::new();
    match json_get(v, "parameters") {
        Option::Some(ps) => {
            match json_get(ps, "parameters") {
                Option::Some(inner) => {
                    match json_as_array(inner) {
                        Option::Some(arr) => {
                            let mut i: usize = 0;
                            while i < arr.len()
                                decreases arr.len() - i,
                            {
                                let pname = match get_str(&arr[i], "name") {
                                    Option::Some(n) => n,
                                    Option::None => String::new(),
                                };
                                let decl_type = match json_get(&arr[i], "typeName") {
                                    Option::Some(t) => Option::Some(decode_type(t, MAX_DEPTH)),
                                    Option::None => Option::None,
                                };
                                let type_desc = match json_get(&arr[i], "typeDescriptions") {
                                    Option::Some(td) => get_str(td, "typeString"),
                                    Option::None => Option::None,
                                };
                                params.push(ParamNode { name: pname, decl_type, type_desc });
                                i = i + 1;
                            }
                        },
                        Option::None => {},
                    }
                },
                Option::None => {},
            }
        },
        Option::None => {},
    }
    let ret_params: Option<Vec<RetParam>> = match json_get(v, "returnParameters") {
        Option::Some(rp) => {
            match json_get(rp, "parameters") {
                Option::Some(inner) => {
                    match json_as_array(inner) {
                        Option::Some(arr) => {
                            let mut rps: Vec<RetParam> = Vec::new();
                            let mut i: usize = 0;
                            while i < arr.len()
                                decreases arr.len() - i,
                            {
                                let decl_type = match json_get(&arr[i], "typeName") {
                                    Option::Some(t) => Option::Some(decode_type(t, MAX_DEPTH)),
                                    Option::None => Option::None,
                                };
                                let type_desc = match json_get(&arr[i], "typeDescriptions") {
                                    Option::Some(td) => get_str(td, "typeString"),
                                    Option::None => Option::None,
                                };
                                rps.push(
                                    RetParam { name: get_str(&arr[i], "name"), decl_type, type_desc },
                                );
                                i = i + 1;
                            }
                            Option::Some(rps)
                        },
                        Option::None => Option::None,
                    }
                },
                Option::None => Option::None,
            }
        },
        Option::None => Option::None,
    };
    let body: Option<Vec<Statement>> = match json_get(v, "body") {
        Option::Some(b) => {
            let stmts = match json_get(b, "statements") {
                Option::Some(s) => json_as_array(s),
                Option::None => Option::None,
            };
            match stmts {
                Option::Some(arr) => {
                    let mut out: Vec<Statement> = Vec::new();
                    let mut i: usize = 0;
                    while i < arr.len()
                        decreases arr.len() - i,
                    {
                        out.push(decode_statement(&arr[i], MAX_DEPTH));
                        i = i + 1;
                    }
                    Option::Some(out)
                },
                Option::None => Option::None,
            }
        },
        Option::None => Option::None,
    };
    FunctionNode {
        name,
        kind: get_str(v, "kind"),
        visibility: get_str(v, "visibility"),
        params,
        ret_params,
        state_mutability: get_str(v, "stateMutability"),
        body,
    }
}

/// Decodes one contract definition.
fn decode_contract(v: &serde_json::Value) -> ContractNode {
    let mut bases: Vec<String> = Vec::new();
    match json_get(v, "baseContracts") {
        Option::Some(bc) => {
            match json_as_array(bc) {
                Option::Some(arr) => {
                    let mut i: usize = 0;
                    while i < arr.len()
                        decreases arr.len() - i,
                    {
                        match json_get(&arr[i], "baseName") {
                            Option::Some(bn) => {
                                match get_str(bn, "name") {
                                    Option::Some(n) => bases.push(n),
                                    Option::None => {},
                                }
                            },
                            Option::None => {},
                        }
                        i = i + 1;
                    }
                },
                Option::None => {},
            }
        },
        Option::None => {},
    }
    let mut parts: Vec<ContractPart> = Vec::new();
    match json_get(v, "nodes") {
        Option::Some(ns) => {
            match json_as_array(ns) {
                Option::Some(arr) => {
                    let mut i: usize = 0;
                    while i < arr.len()
                        decreases arr.len() - i,
                    {
                        let nt = match get_str(&arr[i], "nodeType") {
                            Option::Some(s) => s,
                            Option::None => String::new(),
                        };
                        if str_eq(nt.as_str(), "EventDefinition") {
                            parts.push(ContractPart::Event { name: get_str(&arr[i], "name") });
                        } else if str_eq(nt.as_str(), "VariableDeclaration") {
                            let decl_type = match json_get(&arr[i], "typeName") {
                                Option::Some(t) => decode_type(t, MAX_DEPTH),
                                Option::None => TypeName::Other { type_string: Option::None },
                            };
                            parts.push(
                                ContractPart::Variable { name: get_str(&arr[i], "name"), decl_type },
                            );
                        } else if str_eq(nt.as_str(), "FunctionDefinition") {
                            match get_str(&arr[i], "name") {
                                Option::Some(n) => {
                                    parts.push(
                                        ContractPart::Function(decode_function(&arr[i], n)),
                                    );
                                },
                                Option::None => parts.push(ContractPart::Other),
                            }
                        } else {
                            parts.push(ContractPart::Other);
                        }
                        i = i + 1;
                    }
                },
                Option::None => {},
            }
        },
        Option::None => {},
    }
    ContractNode { name: get_str(v, "name"), kind: get_str(v, "contractKind"), bases, parts }
}

/// Decodes one source unit; a missing declaration array is a hard failure.
fn decode_unit(v: &serde_json::Value) -> Result<SourceUnit, AstError> {
    let arr = match json_get(v, "nodes") {
        Option::Some(ns) => match json_as_array(ns) {
            Option::Some(a) => a,
            Option::None => {
                return Result::Err(AstError::NodesNotArray);
            },
        },
        Option::None => {
            return Result::Err(AstError::NodesNotArray);
        },
    };
    let mut nodes: Vec<TopNode> = Vec::new();
    let mut i: usize = 0;
    while i < arr.len()
        decreases arr.len() - i,
    {
        let nt = match get_str(&arr[i], "nodeType") {
            Option::Some(s) => s,
            Option::None => String::new(),
        };
        if str_eq(nt.as_str(), "ContractDefinition") {
            nodes.push(TopNode::Contract(decode_contract(&arr[i])));
        } else {
            nodes.push(TopNode::Other);
        }
        i = i + 1;
    }
    Result::Ok(SourceUnit { absolute_path: get_str(v, "absolutePath"), nodes })
}

/// Decodes a whole tree: the combined multi-source shape when a sources
/// entry is present, else the flat single-unit shape.
pub fn decode_ast(v: &serde_json::Value) -> Result<Ast, AstError> {
    match json_get(v, "sources") {
        Option::Some(sources) => {
            match json_object_values(sources) {
                Option::Some(vals) => {
                    let mut units: Vec<SourceUnit> = Vec::new();
                    let mut i: usize = 0;
                    while i < vals.len()
                        decreases vals.len() - i,
                    {
                        match json_get(vals[i], "AST") {
                            Option::Some(a) => {
                                match decode_unit(a) {
                                    Result::Ok(u) => units.push(u),
                                    Result::Err(e) => {
                                        return Result::Err(e);
                                    },
                                }
                            },
                            Option::None => {},
                        }
                        i = i + 1;
                    }
                    Result::Ok(Ast::Combined(units))
                },
                Option::None => Result::Err(AstError::SourcesNotObject),
            }
        },
        Option::None => {
            match decode_unit(v) {
                Result::Ok(u) => Result::Ok(Ast::Flat(u)),
                Result::Err(e) => Result::Err(e),
            }
        },
    }
}

} // verus!
