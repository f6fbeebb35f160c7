use vstd::prelude::*;
use crate::nodes::{ArrayLen, TypeName};
use crate::strutil::{concat2, concat3, concat4, concat5, dec_digits, join_strings, join_with, u64_to_string};

verus! {

/// The canonical rendering of a type-description node.  Absent information
/// degrades to `"unknown"`; the function is total.
pub open spec fn spec_type_name(t: TypeName) -> Seq<char>
    decreases t,
{
    match t {
        TypeName::Elementary { name } => match name {
            Option::Some(n) => n@,
            Option::None => "unknown"@,
        },
        TypeName::UserDefined { has_path_node, path_node_name, name } => if has_path_node {
            match path_node_name {
                Option::Some(p) => p@,
                Option::None => match name {
                    Option::Some(n) => n@,
                    Option::None => "unknown"@,
                },
            }
        } else {
            match name {
                Option::Some(n) => n@,
                Option::None => "unknown"@,
            }
        },
        TypeName::Array { base, length } => match length {
            ArrayLen::Text(s) => spec_type_name(*base) + "["@ + s@ + "]"@,
            ArrayLen::Number(n) => spec_type_name(*base) + "["@ + dec_digits(n as int) + "]"@,
            ArrayLen::Absent => spec_type_name(*base) + "[]"@,
        },
        TypeName::Mapping { key, value } => "mapping("@ + spec_type_name(*key) + "=>"@
            + spec_type_name(*value) + ")"@,
        TypeName::Tuple { components } => match components {
            Option::Some(cs) => "("@ + join_with(spec_type_names(cs@), ", "@) + ")"@,
            Option::None => "tuple"@,
        },
        TypeName::Function => "function"@,
        TypeName::Address { payable } => if payable {
            "address payable"@
        } else {
            "address"@
        },
        TypeName::Other { type_string } => match type_string {
            Option::Some(s) => s@,
            Option::None => "unknown"@,
        },
    }
}

/// The renderings of a sequence of type-description nodes, in order.
pub open spec fn spec_type_names(ts: Seq<TypeName>) -> Seq<Seq<char>>
    decreases ts,
{
    if ts.len() == 0 {
        Seq::<Seq<char>>::empty()
    } else {
        seq![spec_type_name(ts[0])] + spec_type_names(ts.drop_first())
    }
}

proof fn lemma_type_names_index(ts: Seq<TypeName>)
    ensures
        spec_type_names(ts).len() == ts.len(),
        forall|i: int| 0 <= i < ts.len() ==> spec_type_names(ts)[i] == spec_type_name(ts[i]),
    decreases ts,
{
    if ts.len() > 0 {
        lemma_type_names_index(ts.drop_first());
        assert forall|i: int| 0 <= i < ts.len() implies spec_type_names(ts)[i] == spec_type_name(
            ts[i],
        ) by {
            if i > 0 {
                assert(spec_type_names(ts.drop_first())[i - 1] == spec_type_name(
                    ts.drop_first()[i - 1],
                ));
                assert(ts.drop_first()[i - 1] == ts[i]);
            }
        }
    }
}

/// Resolves a type-description node to its canonical string.  Total: no
/// input is rejected and no input fails.
#[verifier::loop_isolation(false)]
pub fn extract_type_name(t: &TypeName) -> (r: String)
    ensures
        r@ == spec_type_name(*t),
    decreases *t,
{
    match t {
        TypeName::Elementary { name } => match name {
            Option::Some(n) => n.clone(),
            Option::None => String::from_str("unknown"),
        },
        TypeName::UserDefined { has_path_node, path_node_name, name } => {
            if *has_path_node {
                match path_node_name {
                    Option::Some(p) => p.clone(),
                    Option::None => match name {
                        Option::Some(n) => n.clone(),
                        Option::None => String::from_str("unknown"),
                    },
                }
            } else {
                match name {
                    Option::Some(n) => n.clone(),
                    Option::None => String::from_str("unknown"),
                }
            }
        },
        TypeName::Array { base, length } => {
            let b = extract_type_name(base);
            match length {
                ArrayLen::Text(s) => concat4(b.as_str(), "[", s.as_str(), "]"),
                ArrayLen::Number(n) => {
                    let d = u64_to_string(*n);
                    concat4(b.as_str(), "[", d.as_str(), "]")
                },
                ArrayLen::Absent => concat2(b.as_str(), "[]"),
            }
        },
        TypeName::Mapping { key, value } => {
            let k = extract_type_name(key);
            let v = extract_type_name(value);
            concat5("mapping(", k.as_str(), "=>", v.as_str(), ")")
        },
        TypeName::Tuple { components } => match components {
            Option::Some(cs) => {
                let mut parts: Vec<String> = Vec::new();
                let mut i: usize = 0;
                proof {
                    lemma_type_names_index(cs@);
                }
                while i < cs.len()
                    invariant
                        i <= cs.len(),
                        spec_type_names(cs@).len() == cs@.len(),
                        forall|j: int|
                            0 <= j < cs@.len() ==> spec_type_names(cs@)[j] == spec_type_name(
                                cs@[j],
                            ),
                        parts.deep_view() == spec_type_names(cs@).take(i as int),
                    decreases cs.len() - i,
                {
                    proof {
                        assert(decreases_to!(*t => cs@));
                        assert(decreases_to!(cs@ => cs@[i as int]));
                    }
                    let p = extract_type_name(&cs[i]);
                    parts.push(p);
                    proof {
                        assert(parts.deep_view() =~= spec_type_names(cs@).take(i + 1 as int));
                    }
                    i = i + 1;
                }
                proof {
                    assert(spec_type_names(cs@).take(cs@.len() as int) =~= spec_type_names(cs@));
                }
                let joined = join_strings(&parts, ", ");
                concat3("(", joined.as_str(), ")")
            },
            Option::None => String::from_str("tuple"),
        },
        TypeName::Function => String::from_str("function"),
        TypeName::Address { payable } => {
            if *payable {
                String::from_str("address payable")
            } else {
                String::from_str("address")
            }
        },
        TypeName::Other { type_string } => match type_string {
            Option::Some(s) => s.clone(),
            Option::None => String::from_str("unknown"),
        },
    }
}

/// Well-formedness of a type node: every literal name or free-text type it
/// carries is a non-empty string.
pub open spec fn names_nonempty(t: TypeName) -> bool
    decreases t,
{
    match t {
        TypeName::Elementary { name } => match name {
            Option::Some(n) => n@.len() > 0,
            Option::None => true,
        },
        TypeName::UserDefined { has_path_node, path_node_name, name } => (match path_node_name {
            Option::Some(p) => p@.len() > 0,
            Option::None => true,
        }) && (match name {
            Option::Some(n) => n@.len() > 0,
            Option::None => true,
        }),
        TypeName::Array { base, length } => names_nonempty(*base),
        TypeName::Mapping { key, value } => names_nonempty(*key) && names_nonempty(*value),
        TypeName::Tuple { components } => match components {
            Option::Some(cs) => forall|i: int| 0 <= i < cs@.len() ==> names_nonempty(#[trigger] cs@[i]),
            Option::None => true,
        },
        TypeName::Function => true,
        TypeName::Address { payable } => true,
        TypeName::Other { type_string } => match type_string {
            Option::Some(s) => s@.len() > 0,
            Option::None => true,
        },
    }
}

/// Type resolution is total and never yields an empty rendering: for every
/// type-description node whose literal names are non-empty, the resolved
/// canonical string is non-empty.
pub proof fn lemma_type_resolution_total(t: TypeName)
    requires
        names_nonempty(t),
    ensures
        spec_type_name(t).len() > 0,
    decreases t,
{
    reveal_strlit("unknown");
    reveal_strlit("mapping(");
    reveal_strlit("(");
    reveal_strlit("[]");
    reveal_strlit("[");
    reveal_strlit("tuple");
    reveal_strlit("function");
    reveal_strlit("address payable");
    reveal_strlit("address");
    match t {
        TypeName::Array { base, length } => {
            lemma_type_resolution_total(*base);
        },
        TypeName::Mapping { key, value } => {
            lemma_type_resolution_total(*key);
        },
        _ => {},
    }
}

} // verus!
