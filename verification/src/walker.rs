use vstd::prelude::*;
use crate::classify::{
    get_function_purpose, get_literal_type, guess_type_from_name, spec_function_purpose,
    spec_guess_type, spec_literal_type,
};
use crate::nodes::{CallArg, CondDesc, CondRhs, ForDecl, Statement};
use crate::strutil::{
    append_indented, append_lines, concat2, concat3, concat4, concat5, concat6, concat8,
    contains_seq, dec_digits, indent4, join_strings, join_with, lower, push_line, str_contains,
    str_eq, to_lower, u64_to_string,
};
use crate::typename::{extract_type_name, spec_type_name};

verus! {

// The body walker: turns an ordered statement list into the ordered rendered
// interaction lines of one function body, recursing into nested blocks with a
// fixed four-space indent per level.
/// The rendered `name: type` form of one argument, or nothing when the
/// argument carries no usable name or value.
pub open spec fn spec_arg_entry(a: CallArg) -> Seq<Seq<char>> {
    match a {
        CallArg::Identifier { name } => match name {
            Option::Some(n) => seq![n@ + ": "@ + spec_guess_type(n@)],
            Option::None => Seq::<Seq<char>>::empty(),
        },
        CallArg::Literal { value, kind } => match value {
            Option::Some(v) => seq![v@ + ": "@ + spec_literal_type(kind.deep_view())],
            Option::None => Seq::<Seq<char>>::empty(),
        },
        CallArg::Other => Seq::<Seq<char>>::empty(),
    }
}

/// The full rendered argument list of a call or emission.
pub open spec fn spec_args_rendered(args: Seq<CallArg>) -> Seq<char> {
    join_with(args.flat_map(|a: CallArg| spec_arg_entry(a)), ", "@)
}

/// Renders the arguments of a call or event emission.
fn render_args(args: &Vec<CallArg>) -> (r: String)
    ensures
        r@ == spec_args_rendered(args@),
{
    let ghost f = |a: CallArg| spec_arg_entry(a);
    let mut parts: Vec<String> = Vec::new();
    let mut i: usize = 0;
    proof {
        assert(args@.take(0).flat_map(f) =~= Seq::<Seq<char>>::empty());
    }
    while i < args.len()
        invariant
            i <= args.len(),
            f == (|a: CallArg| spec_arg_entry(a)),
            parts.deep_view() == args@.take(i as int).flat_map(f),
        decreases args.len() - i,
    {
        let ghost prev = parts.deep_view();
        match &args[i] {
            CallArg::Identifier { name } => {
                match name {
                    Option::Some(n) => {
                        let g = guess_type_from_name(n.as_str());
                        push_line(&mut parts, concat3(n.as_str(), ": ", g.as_str()));
                    },
                    Option::None => {},
                }
            },
            CallArg::Literal { value, kind } => {
                match value {
                    Option::Some(v) => {
                        let t = get_literal_type(kind);
                        push_line(&mut parts, concat3(v.as_str(), ": ", t.as_str()));
                    },
                    Option::None => {},
                }
            },
            CallArg::Other => {},
        }
        proof {
            args@.lemma_flat_map_take_append(f, i as int);
            assert(parts.deep_view() =~= prev + spec_arg_entry(args@[i as int]));
        }
        i = i + 1;
    }
    proof {
        assert(args@.take(args@.len() as int) =~= args@);
    }
    join_strings(&parts, ", ")
}

/// The description of one loop declaration, when it has a name.
pub open spec fn spec_decl_desc(d: ForDecl) -> Option<Seq<char>> {
    match d.name {
        Option::Some(n) => Option::Some(
            match d.decl_type {
                Option::Some(t) => if spec_type_name(t) != "unknown"@ {
                    "For each "@ + n@ + ": "@ + spec_type_name(t)
                } else {
                    "For each "@ + n@
                },
                Option::None => "For each "@ + n@,
            },
        ),
        Option::None => Option::None,
    }
}

/// The loop description: the description of the last named declaration, or
/// the fixed default.
pub open spec fn spec_loop_desc(decls: Seq<ForDecl>) -> Seq<char>
    decreases decls.len(),
{
    if decls.len() == 0 {
        "For each item"@
    } else {
        match spec_decl_desc(decls.last()) {
            Option::Some(d) => d,
            Option::None => spec_loop_desc(decls.drop_last()),
        }
    }
}

/// Derives the human description of a loop from its declarations.
fn loop_desc(decls: &Vec<ForDecl>) -> (r: String)
    ensures
        r@ == spec_loop_desc(decls@),
{
    let mut desc = String::from_str("For each item");
    let mut i: usize = 0;
    while i < decls.len()
        invariant
            i <= decls.len(),
            desc@ == spec_loop_desc(decls@.take(i as int)),
        decreases decls.len() - i,
    {
        match &decls[i].name {
            Option::Some(n) => {
                let mut d = concat2("For each ", n.as_str());
                match &decls[i].decl_type {
                    Option::Some(t) => {
                        let ty = extract_type_name(t);
                        if !str_eq(ty.as_str(), "unknown") {
                            d = concat4("For each ", n.as_str(), ": ", ty.as_str());
                        }
                    },
                    Option::None => {},
                }
                desc = d;
            },
            Option::None => {},
        }
        proof {
            assert(decls@.take(i + 1 as int).last() == decls@[i as int]);
            assert(decls@.take(i + 1 as int).drop_last() =~= decls@.take(i as int));
        }
        i = i + 1;
    }
    proof {
        assert(decls@.take(decls@.len() as int) =~= decls@);
    }
    desc
}

/// The description of a conditional: `if <var> <op> <value>` when the
/// condition was a recognized comparison, else the fixed default.
pub open spec fn spec_cond_desc(cond: Option<CondDesc>) -> Seq<char> {
    match cond {
        Option::Some(c) => "if "@ + c.left@ + " "@ + c.op@ + " "@ + (match c.rhs {
            CondRhs::Text(s) => s@,
            CondRhs::Number(n) => dec_digits(n as int),
        }),
        Option::None => "if condition"@,
    }
}

/// The lines produced for one statement.
pub open spec fn spec_walk_stmt(c: Seq<char>, s: Statement) -> Seq<Seq<char>>
    decreases s,
{
    match s {
        Statement::For { decls, body } => seq!["loop "@ + spec_loop_desc(decls@)] + indent4(
            spec_walk_stmts(c, body@),
        ) + seq!["end"@],
        Statement::If { cond, true_body, false_body } => seq!["alt "@ + spec_cond_desc(cond)]
            + indent4(spec_walk_stmts(c, true_body@)) + (match false_body {
            Option::Some(fb) => seq!["else"@] + indent4(spec_walk_stmts(c, fb@)),
            Option::None => Seq::<Seq<char>>::empty(),
        }) + seq!["end"@],
        Statement::Emit { event, args } => seq![
            c + "->>Events: emit "@ + event@ + "("@ + spec_args_rendered(args@) + ")"@,
        ],
        Statement::Call { target, member, args } => {
            let tgt = match target {
                Option::Some(t) => t@,
                Option::None => "Unknown"@,
            };
            let mem = match member {
                Option::Some(m) => m@,
                Option::None => "unknown"@,
            };
            let a = spec_args_rendered(args@);
            let note = match spec_function_purpose(mem) {
                Option::Some(p) => seq!["Note right of "@ + c + ": "@ + p],
                Option::None => Seq::<Seq<char>>::empty(),
            };
            if mem == "transfer"@ || mem == "send"@ {
                note + seq![
                    c + "->>+"@ + tgt + ": "@ + mem + "("@ + a + ")"@,
                    tgt + "-->>-"@ + c + ": return (success)"@,
                ]
            } else if (mem == "transferFrom"@ || mem == "transfer"@) && contains_seq(
                lower(tgt),
                "token"@,
            ) {
                note + seq![
                    c + "->>+TokenContract: "@ + mem + "("@ + a + ")"@,
                    "TokenContract-->>-"@ + c + ": return (success)"@,
                ]
            } else {
                note + seq![
                    c + "->>+"@ + tgt + ": "@ + mem + "("@ + a + ")"@,
                    tgt + "-->>-"@ + c + ": return"@,
                ]
            }
        },
        Statement::ConversionCall { member, args } => {
            let mem = match member {
                Option::Some(m) => m@,
                Option::None => "unknown"@,
            };
            if mem == "transfer"@ || mem == "send"@ || mem == "call"@ {
                seq![
                    c + "->>+Recipient: ETH "@ + mem + "("@ + spec_args_rendered(args@) + ")"@,
                    "Recipient-->>-"@ + c + ": return (success)"@,
                ]
            } else {
                Seq::<Seq<char>>::empty()
            }
        },
        Statement::DeclCall { target, member, args, var_names } => {
            let tgt = match target {
                Option::Some(t) => t@,
                Option::None => "Unknown"@,
            };
            let mem = match member {
                Option::Some(m) => m@,
                Option::None => "unknown"@,
            };
            let vars = if var_names@.len() > 0 {
                join_with(var_names.deep_view(), ", "@)
            } else {
                "result"@
            };
            seq![
                c + "->>+"@ + tgt + ": "@ + mem + "("@ + spec_args_rendered(args@) + ")"@,
                tgt + "-->>-"@ + c + ": return → "@ + vars,
            ]
        },
        Statement::Other => Seq::<Seq<char>>::empty(),
    }
}

/// The lines produced for an ordered statement list.
pub open spec fn spec_walk_stmts(c: Seq<char>, stmts: Seq<Statement>) -> Seq<Seq<char>>
    decreases stmts,
{
    if stmts.len() == 0 {
        Seq::<Seq<char>>::empty()
    } else {
        spec_walk_stmt(c, stmts[0]) + spec_walk_stmts(c, stmts.drop_first())
    }
}

proof fn lemma_walk_push(c: Seq<char>, stmts: Seq<Statement>, x: Statement)
    ensures
        spec_walk_stmts(c, stmts.push(x)) == spec_walk_stmts(c, stmts) + spec_walk_stmt(c, x),
    decreases stmts.len(),
{
    if stmts.len() == 0 {
        assert(stmts.push(x)[0] == x);
        assert(stmts.push(x).drop_first() =~= Seq::<Statement>::empty());
        assert(spec_walk_stmts(c, stmts.push(x).drop_first()) == Seq::<Seq<char>>::empty());
        assert(spec_walk_stmts(c, stmts.push(x)) == spec_walk_stmt(c, x) + Seq::<
            Seq<char>,
        >::empty());
        assert(spec_walk_stmt(c, x) + Seq::<Seq<char>>::empty() =~= spec_walk_stmt(c, x));
        assert(spec_walk_stmts(c, stmts) + spec_walk_stmt(c, x) =~= spec_walk_stmt(c, x));
    } else {
        assert(stmts.push(x).drop_first() =~= stmts.drop_first().push(x));
        lemma_walk_push(c, stmts.drop_first(), x);
        assert(spec_walk_stmts(c, stmts.push(x)) == spec_walk_stmt(c, stmts[0]) + (spec_walk_stmts(
            c,
            stmts.drop_first(),
        ) + spec_walk_stmt(c, x)));
        assert(spec_walk_stmt(c, stmts[0]) + (spec_walk_stmts(c, stmts.drop_first())
            + spec_walk_stmt(c, x)) =~= (spec_walk_stmt(c, stmts[0]) + spec_walk_stmts(
            c,
            stmts.drop_first(),
        )) + spec_walk_stmt(c, x));
    }
}

/// Renders one statement's interaction lines.
#[verifier::loop_isolation(false)]
fn walk_statement(contract_name: &str, function_name: &str, s: &Statement) -> (r: Vec<String>)
    ensures
        r.deep_view() == spec_walk_stmt(contract_name@, *s),
    decreases *s,
{
    let mut out: Vec<String> = Vec::new();
    match s {
        Statement::For { decls, body } => {
            let desc = loop_desc(decls);
            push_line(&mut out, concat2("loop ", desc.as_str()));
            proof {
                assert(decreases_to!(*s => body@));
            }
            let inner = process_function_body(contract_name, function_name, body);
            append_indented(&mut out, &inner);
            push_line(&mut out, String::from_str("end"));
            proof {
                assert(out.deep_view() =~= spec_walk_stmt(contract_name@, *s));
            }
        },
        Statement::If { cond, true_body, false_body } => {
            let desc = match cond {
                Option::Some(c) => {
                    let rhs = match &c.rhs {
                        CondRhs::Text(t) => t.clone(),
                        CondRhs::Number(n) => u64_to_string(*n),
                    };
                    concat6("if ", c.left.as_str(), " ", c.op.as_str(), " ", rhs.as_str())
                },
                Option::None => String::from_str("if condition"),
            };
            push_line(&mut out, concat2("alt ", desc.as_str()));
            proof {
                assert(decreases_to!(*s => true_body@));
            }
            let inner = process_function_body(contract_name, function_name, true_body);
            append_indented(&mut out, &inner);
            match false_body {
                Option::Some(fb) => {
                    push_line(&mut out, String::from_str("else"));
                    proof {
                        assert(decreases_to!(*s => fb@));
                    }
                    let felse = process_function_body(contract_name, function_name, fb);
                    append_indented(&mut out, &felse);
                },
                Option::None => {},
            }
            push_line(&mut out, String::from_str("end"));
            proof {
                assert(out.deep_view() =~= spec_walk_stmt(contract_name@, *s));
            }
        },
        Statement::Emit { event, args } => {
            let a = render_args(args);
            push_line(
                &mut out,
                concat6(
                    contract_name,
                    "->>Events: emit ",
                    event.as_str(),
                    "(",
                    a.as_str(),
                    ")",
                ),
            );
            proof {
                assert(out.deep_view() =~= spec_walk_stmt(contract_name@, *s));
            }
        },
        Statement::Call { target, member, args } => {
            let tgt = match target {
                Option::Some(t) => t.clone(),
                Option::None => String::from_str("Unknown"),
            };
            let mem = match member {
                Option::Some(m) => m.clone(),
                Option::None => String::from_str("unknown"),
            };
            let a = render_args(args);
            match get_function_purpose(mem.as_str()) {
                Option::Some(p) => {
                    push_line(
                        &mut out,
                        concat4("Note right of ", contract_name, ": ", p.as_str()),
                    );
                },
                Option::None => {},
            }
            let is_transfer_send = str_eq(mem.as_str(), "transfer") || str_eq(mem.as_str(), "send");
            if is_transfer_send {
                push_line(
                    &mut out,
                    concat8(
                        contract_name,
                        "->>+",
                        tgt.as_str(),
                        ": ",
                        mem.as_str(),
                        "(",
                        a.as_str(),
                        ")",
                    ),
                );
                push_line(
                    &mut out,
                    concat4(tgt.as_str(), "-->>-", contract_name, ": return (success)"),
                );
            } else {
                let lt = to_lower(tgt.as_str());
                let token_route = (str_eq(mem.as_str(), "transferFrom") || str_eq(
                    mem.as_str(),
                    "transfer",
                )) && str_contains(lt.as_str(), "token");
                if token_route {
                    push_line(
                        &mut out,
                        concat6(
                            contract_name,
                            "->>+TokenContract: ",
                            mem.as_str(),
                            "(",
                            a.as_str(),
                            ")",
                        ),
                    );
                    push_line(
                        &mut out,
                        concat3("TokenContract-->>-", contract_name, ": return (success)"),
                    );
                } else {
                    push_line(
                        &mut out,
                        concat8(
                            contract_name,
                            "->>+",
                            tgt.as_str(),
                            ": ",
                            mem.as_str(),
                            "(",
                            a.as_str(),
                            ")",
                        ),
                    );
                    push_line(&mut out, concat4(tgt.as_str(), "-->>-", contract_name, ": return"));
                }
            }
            proof {
                assert(out.deep_view() =~= spec_walk_stmt(contract_name@, *s));
            }
        },
        Statement::ConversionCall { member, args } => {
            let mem = match member {
                Option::Some(m) => m.clone(),
                Option::None => String::from_str("unknown"),
            };
            if str_eq(mem.as_str(), "transfer") || str_eq(mem.as_str(), "send") || str_eq(
                mem.as_str(),
                "call",
            ) {
                let a = render_args(args);
                push_line(
                    &mut out,
                    concat6(
                        contract_name,
                        "->>+Recipient: ETH ",
                        mem.as_str(),
                        "(",
                        a.as_str(),
                        ")",
                    ),
                );
                push_line(
                    &mut out,
                    concat3("Recipient-->>-", contract_name, ": return (success)"),
                );
            }
            proof {
                assert(out.deep_view() =~= spec_walk_stmt(contract_name@, *s));
            }
        },
        Statement::DeclCall { target, member, args, var_names } => {
            let tgt = match target {
                Option::Some(t) => t.clone(),
                Option::None => String::from_str("Unknown"),
            };
            let mem = match member {
                Option::Some(m) => m.clone(),
                Option::None => String::from_str("unknown"),
            };
            let a = render_args(args);
            let vars = if var_names.len() > 0 {
                join_strings(var_names, ", ")
            } else {
                String::from_str("result")
            };
            push_line(
                &mut out,
                concat8(
                    contract_name,
                    "->>+",
                    tgt.as_str(),
                    ": ",
                    mem.as_str(),
                    "(",
                    a.as_str(),
                    ")",
                ),
            );
            push_line(
                &mut out,
                concat5(tgt.as_str(), "-->>-", contract_name, ": return → ", vars.as_str()),
            );
            proof {
                assert(out.deep_view() =~= spec_walk_stmt(contract_name@, *s));
            }
        },
        Statement::Other => {
            proof {
                assert(out.deep_view() =~= spec_walk_stmt(contract_name@, *s));
            }
        },
    }
    out
}

/// Walks an ordered statement list and renders the interaction lines of one
/// function body, nested blocks included.
#[verifier::loop_isolation(false)]
pub fn process_function_body(
    contract_name: &str,
    function_name: &str,
    statements: &Vec<Statement>,
) -> (r: Vec<String>)
    ensures
        r.deep_view() == spec_walk_stmts(contract_name@, statements@),
    decreases statements@,
{
    let mut out: Vec<String> = Vec::new();
    let mut i: usize = 0;
    proof {
        assert(out.deep_view() =~= spec_walk_stmts(contract_name@, statements@.take(0)));
    }
    while i < statements.len()
        invariant
            i <= statements.len(),
            out.deep_view() == spec_walk_stmts(contract_name@, statements@.take(i as int)),
        decreases statements@.len() - i,
    {
        proof {
            assert(decreases_to!(statements@ => statements@[i as int]));
        }
        let lines = walk_statement(contract_name, function_name, &statements[i]);
        append_lines(&mut out, &lines);
        proof {
            assert(statements@.take(i + 1 as int) =~= statements@.take(i as int).push(
                statements@[i as int],
            ));
            lemma_walk_push(contract_name@, statements@.take(i as int), statements@[i as int]);
        }
        i = i + 1;
    }
    proof {
        assert(statements@.take(statements@.len() as int) =~= statements@);
    }
    out
}

} // verus!
