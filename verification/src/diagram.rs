use vstd::prelude::*;
use itertools::Itertools;
use crate::classify::{is_important_variable, spec_important_variable};
use crate::extract::{lemma_find_contract, spec_find_contract};
use crate::strutil::{
    append_lines, concat2, concat3, concat4, concat5, concat6, join_strings, join_with, lex_le,
    lex_leq_fn, lemma_lex_total_ordering, lemma_sorted_multiset_unique, push_line, str_eq,
};
use crate::types::{contracts_view, rels_view, ContractInfo, ContractInfoView,
    ContractRelationship, DiagramData, DiagramDataView, RelationshipView};

verus! {

// ------------------------------------------------------------------
// Fixed blocks: theme, section titles, legend
// ------------------------------------------------------------------
/// The theme-configuration block: one of two fixed palettes.
pub open spec fn spec_theme_lines(light: bool) -> Seq<Seq<char>> {
    seq!["%%{init: {"@, "  'theme': 'base',"@, "  'themeVariables': {"@] + (if light {
        seq![
            "    'primaryColor': '#fafbfc',"@,
            "    'primaryTextColor': '#444',"@,
            "    'primaryBorderColor': '#e1e4e8',"@,
            "    'lineColor': '#a0aec0',"@,
            "    'secondaryColor': '#f5fbff',"@,
            "    'tertiaryColor': '#fff8f8'"@,
        ]
    } else {
        seq![
            "    'primaryColor': '#f5f5f5',"@,
            "    'primaryTextColor': '#333',"@,
            "    'primaryBorderColor': '#999',"@,
            "    'lineColor': '#666',"@,
            "    'secondaryColor': '#f0f8ff',"@,
            "    'tertiaryColor': '#fff5f5'"@,
        ]
    }) + seq!["  }"@, "}}%%"@, Seq::<char>::empty()]
}

/// Appends the visual theme block.
pub fn add_theme_config(diagram: &mut Vec<String>, light_colors: bool)
    ensures
        final(diagram).deep_view() == old(diagram).deep_view() + spec_theme_lines(light_colors),
{
    let ghost prev = diagram.deep_view();
    push_line(diagram, String::from_str("%%{init: {"));
    push_line(diagram, String::from_str("  'theme': 'base',"));
    push_line(diagram, String::from_str("  'themeVariables': {"));
    if light_colors {
        push_line(diagram, String::from_str("    'primaryColor': '#fafbfc',"));
        push_line(diagram, String::from_str("    'primaryTextColor': '#444',"));
        push_line(diagram, String::from_str("    'primaryBorderColor': '#e1e4e8',"));
        push_line(diagram, String::from_str("    'lineColor': '#a0aec0',"));
        push_line(diagram, String::from_str("    'secondaryColor': '#f5fbff',"));
        push_line(diagram, String::from_str("    'tertiaryColor': '#fff8f8'"));
    } else {
        push_line(diagram, String::from_str("    'primaryColor': '#f5f5f5',"));
        push_line(diagram, String::from_str("    'primaryTextColor': '#333',"));
        push_line(diagram, String::from_str("    'primaryBorderColor': '#999',"));
        push_line(diagram, String::from_str("    'lineColor': '#666',"));
        push_line(diagram, String::from_str("    'secondaryColor': '#f0f8ff',"));
        push_line(diagram, String::from_str("    'tertiaryColor': '#fff5f5'"));
    }
    push_line(diagram, String::from_str("  }"));
    push_line(diagram, String::from_str("}}%%"));
    push_line(diagram, String::new());
    proof {
        assert(diagram.deep_view() =~= prev + spec_theme_lines(light_colors));
    }
}

/// The rect color of a titled section, by palette and title.
pub open spec fn spec_section_color(title: Seq<char>, light: bool) -> Seq<char> {
    if light {
        if title == "User Interactions"@ {
            "rgb(252, 252, 255)"@
        } else if title == "Contract-to-Contract Interactions"@ {
            "rgb(248, 252, 255)"@
        } else if title == "Event Definitions"@ {
            "rgb(255, 252, 252)"@
        } else if title == "Contract Relationships"@ {
            "rgb(252, 255, 252)"@
        } else {
            "rgb(250, 250, 250)"@
        }
    } else {
        if title == "User Interactions"@ {
            "rgb(245, 245, 245)"@
        } else if title == "Contract-to-Contract Interactions"@ {
            "rgb(240, 248, 255)"@
        } else if title == "Event Definitions"@ {
            "rgb(255, 245, 245)"@
        } else if title == "Contract Relationships"@ {
            "rgb(245, 255, 245)"@
        } else {
            "rgb(240, 240, 240)"@
        }
    }
}

/// The four lines of a titled, colored section block.
pub open spec fn spec_section_lines(title: Seq<char>, light: bool) -> Seq<Seq<char>> {
    seq![
        "rect "@ + spec_section_color(title, light),
        "Note over User: "@ + title,
        "end"@,
        Seq::<char>::empty(),
    ]
}

/// Appends a titled, colored section block.
pub fn add_section_title(diagram: &mut Vec<String>, title: &str, light_colors: bool)
    ensures
        final(diagram).deep_view() == old(diagram).deep_view() + spec_section_lines(
            title@,
            light_colors,
        ),
{
    let ghost prev = diagram.deep_view();
    let color: &str = if light_colors {
        if str_eq(title, "User Interactions") {
            "rgb(252, 252, 255)"
        } else if str_eq(title, "Contract-to-Contract Interactions") {
            "rgb(248, 252, 255)"
        } else if str_eq(title, "Event Definitions") {
            "rgb(255, 252, 252)"
        } else if str_eq(title, "Contract Relationships") {
            "rgb(252, 255, 252)"
        } else {
            "rgb(250, 250, 250)"
        }
    } else {
        if str_eq(title, "User Interactions") {
            "rgb(245, 245, 245)"
        } else if str_eq(title, "Contract-to-Contract Interactions") {
            "rgb(240, 248, 255)"
        } else if str_eq(title, "Event Definitions") {
            "rgb(255, 245, 245)"
        } else if str_eq(title, "Contract Relationships") {
            "rgb(245, 255, 245)"
        } else {
            "rgb(240, 240, 240)"
        }
    };
    push_line(diagram, concat2("rect ", color));
    push_line(diagram, concat2("Note over User: ", title));
    push_line(diagram, String::from_str("end"));
    push_line(diagram, String::new());
    proof {
        assert(diagram.deep_view() =~= prev + spec_section_lines(title@, light_colors));
    }
}

/// The fixed legend block.
pub open spec fn spec_legend_lines(light: bool) -> Seq<Seq<char>> {
    seq![
        Seq::<char>::empty(),
        "%%{init: { 'sequence': { 'showSequenceNumbers': true } }}%%"@,
        Seq::<char>::empty(),
        "rect "@ + (if light {
            "rgb(248, 252, 255)"@
        } else {
            "rgb(240, 240, 255)"@
        }),
        "Note over User: Diagram Legend"@,
        "end"@,
        Seq::<char>::empty(),
        "Note left of User: User→Contract: Public/External function calls"@,
        "Note left of User: User←Contract: Function returns"@,
        "Note left of User: Contract→Contract: Internal interactions"@,
        "Note left of User: Contract→Events: Emitted events"@,
        "Note left of User: Colored sections indicate different interaction types"@,
    ]
}

/// Appends the static legend.
pub fn add_legend(diagram: &mut Vec<String>, light_colors: bool)
    ensures
        final(diagram).deep_view() == old(diagram).deep_view() + spec_legend_lines(light_colors),
{
    let ghost prev = diagram.deep_view();
    push_line(diagram, String::new());
    push_line(
        diagram,
        String::from_str("%%{init: { 'sequence': { 'showSequenceNumbers': true } }}%%"),
    );
    push_line(diagram, String::new());
    let legend_color: &str = if light_colors {
        "rgb(248, 252, 255)"
    } else {
        "rgb(240, 240, 255)"
    };
    push_line(diagram, concat2("rect ", legend_color));
    push_line(diagram, String::from_str("Note over User: Diagram Legend"));
    push_line(diagram, String::from_str("end"));
    push_line(diagram, String::new());
    push_line(
        diagram,
        String::from_str("Note left of User: User→Contract: Public/External function calls"),
    );
    push_line(diagram, String::from_str("Note left of User: User←Contract: Function returns"));
    push_line(
        diagram,
        String::from_str("Note left of User: Contract→Contract: Internal interactions"),
    );
    push_line(diagram, String::from_str("Note left of User: Contract→Events: Emitted events"));
    push_line(
        diagram,
        String::from_str(
            "Note left of User: Colored sections indicate different interaction types",
        ),
    );
    proof {
        assert(diagram.deep_view() =~= prev + spec_legend_lines(light_colors));
    }
}

// ------------------------------------------------------------------
// Participant ordering
// ------------------------------------------------------------------
/// Relies on itertools' sorted: the same strings, in the ascending order of
/// `String`'s comparison, which is lexicographic by code point.
#[verifier::external_body]
fn sorted_strings(v: Vec<String>) -> (r: Vec<String>)
    ensures
        r.deep_view().to_multiset() == v.deep_view().to_multiset(),
        vstd::relations::sorted_by(r.deep_view(), lex_leq_fn()),
{
    v.into_iter().sorted().collect()
}

/// The display order of the participants: "User" first when present, then
/// every other name except "Events" in ascending order, then "Events" last
/// when present.
pub open spec fn spec_order_participants(ps: Seq<Seq<char>>) -> Seq<Seq<char>> {
    (if ps.contains("User"@) {
        seq!["User"@]
    } else {
        Seq::<Seq<char>>::empty()
    }) + ps.filter(|p: Seq<char>| p != "User"@ && p != "Events"@).sort_by(lex_leq_fn()) + (
    if ps.contains("Events"@) {
        seq!["Events"@]
    } else {
        Seq::<Seq<char>>::empty()
    })
}

/// Orders the participants for display.
#[verifier::loop_isolation(false)]
pub fn order_participants(participants: &Vec<String>) -> (r: Vec<String>)
    ensures
        r.deep_view() == spec_order_participants(participants.deep_view()),
{
    let ghost pv = participants.deep_view();
    let ghost pred = |p: Seq<char>| p != "User"@ && p != "Events"@;
    let mut ordered: Vec<String> = Vec::new();
    if crate::extract::contains_string(participants, "User") {
        push_line(&mut ordered, String::from_str("User"));
    }
    let ghost head = ordered.deep_view();

    let mut others: Vec<String> = Vec::new();
    let mut i: usize = 0;
    proof {
        assert(pv.take(0).filter(pred) =~= Seq::<Seq<char>>::empty());
        assert(others.deep_view() =~= pv.take(0).filter(pred));
    }
    while i < participants.len()
        invariant
            i <= participants.len(),
            others.deep_view() == pv.take(i as int).filter(pred),
        decreases participants.len() - i,
    {
        let ghost prev = others.deep_view();
        let p = &participants[i];
        if !str_eq(p.as_str(), "User") && !str_eq(p.as_str(), "Events") {
            push_line(&mut others, p.clone());
        }
        proof {
            assert(pv.take(i + 1 as int).drop_last() =~= pv.take(i as int));
            assert(pv.take(i + 1 as int).last() == pv[i as int]);
            assert(pv.take(i + 1 as int) =~= pv.take(i as int).push(pv[i as int]));
            pv.take(i as int).lemma_filter_push(pv[i as int], pred);
            if pred(pv[i as int]) {
                assert(others.deep_view() =~= prev.push(pv[i as int]));
            }
        }
        i = i + 1;
    }
    proof {
        assert(pv.take(pv.len() as int) =~= pv);
    }
    let sorted = sorted_strings(others);
    proof {
        lemma_lex_total_ordering();
        pv.filter(pred).lemma_sort_by_ensures(lex_leq_fn());
        lemma_sorted_multiset_unique(sorted.deep_view(), pv.filter(pred).sort_by(lex_leq_fn()));
    }
    append_lines(&mut ordered, &sorted);
    if crate::extract::contains_string(participants, "Events") {
        push_line(&mut ordered, String::from_str("Events"));
    }
    proof {
        assert(ordered.deep_view() =~= spec_order_participants(pv));
    }
    ordered
}

// ------------------------------------------------------------------
// Interaction keys
// ------------------------------------------------------------------
/// How many times `ch` occurs in `s`.
pub open spec fn spec_count_char(s: Seq<char>, ch: char) -> int
    decreases s.len(),
{
    if s.len() == 0 {
        0
    } else {
        (if s[0] == ch {
            1int
        } else {
            0int
        }) + spec_count_char(s.drop_first(), ch)
    }
}

proof fn lemma_count_push(s: Seq<char>, ch: char, x: char)
    ensures
        spec_count_char(s.push(x), ch) == spec_count_char(s, ch) + (if x == ch {
            1int
        } else {
            0int
        }),
    decreases s.len(),
{
    if s.len() == 0 {
        assert(s.push(x)[0] == x);
        assert(s.push(x).drop_first() =~= Seq::<char>::empty());
        assert(spec_count_char(s.push(x).drop_first(), ch) == 0);
        assert(spec_count_char(s.push(x), ch) == (if x == ch {
            1int
        } else {
            0int
        }));
    } else {
        assert(s.push(x).drop_first() =~= s.drop_first().push(x));
        lemma_count_push(s.drop_first(), ch, x);
    }
}

/// A sequence without an occurrence has count zero.
proof fn lemma_count_zero(s: Seq<char>, ch: char)
    requires
        forall|k: int| 0 <= k < s.len() ==> s[k] != ch,
    ensures
        spec_count_char(s, ch) == 0,
    decreases s.len(),
{
    if s.len() > 0 {
        assert forall|k: int| 0 <= k < s.drop_first().len() implies s.drop_first()[k] != ch by {
            assert(s.drop_first()[k] == s[k + 1]);
        }
        lemma_count_zero(s.drop_first(), ch);
    }
}

/// The first index of `ch` in `s`, or -1.
pub open spec fn spec_index_of(s: Seq<char>, ch: char) -> int
    decreases s.len(),
{
    if s.len() == 0 {
        -1
    } else if s[0] == ch {
        0
    } else {
        let r = spec_index_of(s.drop_first(), ch);
        if r < 0 {
            -1
        } else {
            r + 1
        }
    }
}

proof fn lemma_index_of(s: Seq<char>, ch: char)
    ensures
        spec_index_of(s, ch) < 0 ==> forall|k: int| 0 <= k < s.len() ==> s[k] != ch,
        spec_index_of(s, ch) >= 0 ==> 0 <= spec_index_of(s, ch) < s.len() && s[spec_index_of(
            s,
            ch,
        )] == ch && forall|k: int| 0 <= k < spec_index_of(s, ch) ==> s[k] != ch,
    decreases s.len(),
{
    if s.len() > 0 && s[0] != ch {
        lemma_index_of(s.drop_first(), ch);
        assert forall|k: int| 1 <= k < s.len() implies s.drop_first()[k - 1] == s[k] by {}
    }
}

/// A `"<contract>.<function>"` key split at its dot: defined exactly when
/// the key holds exactly one dot.
pub open spec fn spec_split_key(key: Seq<char>) -> Option<(Seq<char>, Seq<char>)> {
    if spec_count_char(key, '.') == 1 {
        let d = spec_index_of(key, '.');
        Option::Some((key.take(d), key.skip(d + 1)))
    } else {
        Option::None
    }
}

/// Splits an interaction key into its contract and function part, when the
/// key holds exactly one dot.
#[verifier::loop_isolation(false)]
fn split_interaction_key(key: &str) -> (r: Option<(String, String)>)
    ensures
        r.deep_view() == spec_split_key(key@),
{
    let n = key.unicode_len();
    let mut cnt: usize = 0;
    let mut first: Option<usize> = Option::None;
    let mut i: usize = 0;
    while i < n
        invariant
            n == key@.len(),
            i <= n,
            cnt <= i,
            cnt as int == spec_count_char(key@.take(i as int), '.'),
            match first {
                Option::Some(d) => d < i && key@[d as int] == '.' && forall|k: int|
                    0 <= k < d ==> key@[k] != '.',
                Option::None => forall|k: int| 0 <= k < i ==> key@[k] != '.',
            },
        decreases n - i,
    {
        let c = key.get_char(i);
        proof {
            assert(key@.take(i + 1 as int) =~= key@.take(i as int).push(key@[i as int]));
            lemma_count_push(key@.take(i as int), '.', key@[i as int]);
        }
        if c == '.' {
            cnt = cnt + 1;
            if first.is_none() {
                first = Option::Some(i);
            }
        }
        i = i + 1;
    }
    proof {
        assert(key@.take(n as int) =~= key@);
        lemma_index_of(key@, '.');
    }
    if cnt == 1 {
        match first {
            Option::Some(d) => {
                proof {
                    assert(spec_index_of(key@, '.') == d as int);
                }
                let c = key.substring_char(0, d);
                let f = key.substring_char(d + 1, n);
                proof {
                    assert(c@ =~= key@.take(d as int));
                    assert(f@ =~= key@.skip(d + 1 as int));
                }
                Option::Some((String::from_str(c), String::from_str(f)))
            },
            Option::None => {
                proof {
                    lemma_count_zero(key@, '.');
                    assert(false);
                }
                Option::None
            },
        }
    } else {
        Option::None
    }
}

// ------------------------------------------------------------------
// Section bodies
// ------------------------------------------------------------------
/// The lines shown for one per-function interaction entry.
pub open spec fn spec_entry_lines(e: (Seq<char>, Seq<Seq<char>>)) -> Seq<Seq<char>> {
    if e.1.len() > 0 {
        match spec_split_key(e.0) {
            Option::Some(cf) => seq!["Note right of "@ + cf.0 + ": Processing "@ + cf.1] + e.1
                + seq![Seq::<char>::empty()],
            Option::None => Seq::<Seq<char>>::empty(),
        }
    } else {
        Seq::<Seq<char>>::empty()
    }
}

/// Appends the per-function interaction blocks, in stored order.
#[verifier::loop_isolation(false)]
fn add_interaction_entries(diagram: &mut Vec<String>, entries: &Vec<(String, Vec<String>)>)
    ensures
        final(diagram).deep_view() == old(diagram).deep_view() + entries.deep_view().flat_map(
            (|e: (Seq<char>, Seq<Seq<char>>)| spec_entry_lines(e)),
        ),
{
    let ghost f = |e: (Seq<char>, Seq<Seq<char>>)| spec_entry_lines(e);
    let ghost prev = diagram.deep_view();
    let mut i: usize = 0;
    proof {
        assert(entries.deep_view().take(0).flat_map(f) =~= Seq::<Seq<char>>::empty());
        assert(diagram.deep_view() =~= prev + entries.deep_view().take(0).flat_map(f));
    }
    while i < entries.len()
        invariant
            i <= entries.len(),
            entries.deep_view().len() == entries@.len(),
            diagram.deep_view() == prev + entries.deep_view().take(i as int).flat_map(f),
        decreases entries.len() - i,
    {
        let ghost pl = diagram.deep_view();
        let ghost ev = entries.deep_view()[i as int];
        proof {
            assert(ev == (entries@[i as int].0@, entries@[i as int].1.deep_view()));
        }
        if entries[i].1.len() > 0 {
            match split_interaction_key(entries[i].0.as_str()) {
                Option::Some(cf) => {
                    push_line(
                        diagram,
                        concat4("Note right of ", cf.0.as_str(), ": Processing ", cf.1.as_str()),
                    );
                    append_lines(diagram, &entries[i].1);
                    push_line(diagram, String::new());
                },
                Option::None => {},
            }
        }
        proof {
            entries.deep_view().lemma_flat_map_take_append(f, i as int);
            assert(diagram.deep_view() =~= pl + spec_entry_lines(ev));
        }
        i = i + 1;
    }
    proof {
        assert(entries.deep_view().take(entries@.len() as int) =~= entries.deep_view());
    }
}

/// The participant declaration line of one ordered participant.
pub open spec fn spec_participant_line(p: Seq<char>, cs: Seq<ContractInfoView>) -> Seq<char> {
    if p == "User"@ {
        "participant User as \"External User\""@
    } else if p == "Events"@ {
        "participant Events as \"Blockchain Events\""@
    } else if p == "TokenContract"@ {
        "participant TokenContract as \"ERC20/ERC721 Tokens\""@
    } else {
        let j = spec_find_contract(cs, p);
        if j < 0 {
            "participant "@ + p
        } else {
            let info = cs[j];
            let name_part = if info.contract_type != "contract"@ {
                p + " ("@ + info.contract_type + ")"@
            } else {
                p
            };
            let kv = info.variables.filter(
                (|v: (Seq<char>, Seq<char>)| spec_important_variable(v.0)),
            );
            let shown = kv.take(
                if kv.len() < 2 {
                    kv.len() as int
                } else {
                    2
                },
            ).map_values((|v: (Seq<char>, Seq<char>)| v.0 + ": "@ + v.1));
            let var_part = if kv.len() > 0 {
                seq!["("@ + join_with(shown, ", "@) + ")"@]
            } else {
                Seq::<Seq<char>>::empty()
            };
            let file_part = if info.source_file.len() > 0 {
                seq!["from "@ + info.source_file]
            } else {
                Seq::<Seq<char>>::empty()
            };
            "participant "@ + p + " as \""@ + join_with(
                seq![name_part] + var_part + file_part,
                "<br/>"@,
            ) + "\""@
        }
    }
}

/// Finds the record of the named contract.
#[verifier::loop_isolation(false)]
fn find_contract_ix(cs: &Vec<ContractInfo>, name: &str) -> (r: Option<usize>)
    ensures
        match r {
            Option::Some(j) => j < cs@.len() && spec_find_contract(contracts_view(*cs), name@)
                == j as int,
            Option::None => spec_find_contract(contracts_view(*cs), name@) < 0,
        },
{
    let ghost cv = contracts_view(*cs);
    let mut i: usize = 0;
    while i < cs.len()
        invariant
            i <= cs.len(),
            forall|k: int| 0 <= k < i ==> cv[k].name != name@,
        decreases cs.len() - i,
    {
        if str_eq(cs[i].name.as_str(), name) {
            proof {
                lemma_find_contract(cv, name@);
                assert(cv[i as int].name == name@);
            }
            return Option::Some(i);
        }
        i = i + 1;
    }
    proof {
        lemma_find_contract(cv, name@);
    }
    Option::None
}

/// Renders one participant declaration.
#[verifier::loop_isolation(false)]
fn participant_line(p: &String, contracts: &Vec<ContractInfo>) -> (r: String)
    ensures
        r@ == spec_participant_line(p@, contracts_view(*contracts)),
{
    let ghost cv = contracts_view(*contracts);
    if str_eq(p.as_str(), "User") {
        return String::from_str("participant User as \"External User\"");
    }
    if str_eq(p.as_str(), "Events") {
        return String::from_str("participant Events as \"Blockchain Events\"");
    }
    if str_eq(p.as_str(), "TokenContract") {
        return String::from_str("participant TokenContract as \"ERC20/ERC721 Tokens\"");
    }
    match find_contract_ix(contracts, p.as_str()) {
        Option::None => concat2("participant ", p.as_str()),
        Option::Some(j) => {
            let info = &contracts[j];
            proof {
                assert(cv[j as int] == info@);
            }
            let name_part: String = if !str_eq(info.contract_type.as_str(), "contract") {
                concat4(p.as_str(), " (", info.contract_type.as_str(), ")")
            } else {
                p.clone()
            };
            let ghost pred = |v: (Seq<char>, Seq<char>)| spec_important_variable(v.0);
            let mut kv: Vec<(String, String)> = Vec::new();
            let mut i: usize = 0;
            proof {
                assert(info.variables.deep_view().take(0).filter(pred) =~= Seq::<
                    (Seq<char>, Seq<char>),
                >::empty());
                assert(kv.deep_view() =~= info.variables.deep_view().take(0).filter(pred));
            }
            while i < info.variables.len()
                invariant
                    i <= info.variables.len(),
                    kv.deep_view() == info.variables.deep_view().take(i as int).filter(pred),
                decreases info.variables.len() - i,
            {
                let ghost prev = kv.deep_view();
                let ghost el = info.variables.deep_view()[i as int];
                if is_important_variable(info.variables[i].0.as_str()) {
                    kv.push((info.variables[i].0.clone(), info.variables[i].1.clone()));
                    proof {
                        assert(kv.deep_view() =~= prev.push(el));
                    }
                }
                proof {
                    assert(info.variables.deep_view().take(i + 1 as int)
                        =~= info.variables.deep_view().take(i as int).push(el));
                    info.variables.deep_view().take(i as int).lemma_filter_push(el, pred);
                }
                i = i + 1;
            }
            proof {
                assert(info.variables.deep_view().take(info.variables@.len() as int)
                    =~= info.variables.deep_view());
            }
            let ghost kvv = kv.deep_view();
            let ghost rfn = |v: (Seq<char>, Seq<char>)| v.0 + ": "@ + v.1;
            let k: usize = if kv.len() < 2 {
                kv.len()
            } else {
                2
            };
            let mut rendered: Vec<String> = Vec::new();
            let mut m: usize = 0;
            while m < k
                invariant
                    m <= k,
                    k <= kv.len(),
                    kvv == kv.deep_view(),
                    rendered.deep_view().len() == m,
                    forall|w: int| 0 <= w < m ==> rendered.deep_view()[w] == rfn(kvv[w]),
                decreases k - m,
            {
                push_line(&mut rendered, concat3(kv[m].0.as_str(), ": ", kv[m].1.as_str()));
                m = m + 1;
            }
            proof {
                assert(rendered.deep_view() =~= kvv.take(
                    if kvv.len() < 2 {
                        kvv.len() as int
                    } else {
                        2
                    },
                ).map_values(rfn));
            }
            let ghost infov = cv[j as int];
            let ghost name_spec = (if infov.contract_type != "contract"@ {
                p@ + " ("@ + infov.contract_type + ")"@
            } else {
                p@
            });
            let ghost shown = kvv.take(
                if kvv.len() < 2 {
                    kvv.len() as int
                } else {
                    2
                },
            ).map_values(rfn);
            let ghost var_part = (if kvv.len() > 0 {
                seq!["("@ + join_with(shown, ", "@) + ")"@]
            } else {
                Seq::<Seq<char>>::empty()
            });
            let ghost file_part = (if infov.source_file.len() > 0 {
                seq!["from "@ + infov.source_file]
            } else {
                Seq::<Seq<char>>::empty()
            });
            proof {
                assert(name_part@ == name_spec);
            }
            let mut parts: Vec<String> = Vec::new();
            push_line(&mut parts, name_part);
            if kv.len() > 0 {
                let joined = join_strings(&rendered, ", ");
                push_line(&mut parts, concat3("(", joined.as_str(), ")"));
            }
            if info.source_file.unicode_len() > 0 {
                push_line(&mut parts, concat2("from ", info.source_file.as_str()));
            }
            proof {
                assert(parts.deep_view() =~= seq![name_spec] + var_part + file_part);
            }
            let title = join_strings(&parts, "<br/>");
            let r = concat5("participant ", p.as_str(), " as \"", title.as_str(), "\"");
            proof {
                assert(title@ == join_with(seq![name_spec] + var_part + file_part, "<br/>"@));
                assert(r@ == spec_participant_line(p@, cv));
            }
            r
        },
    }
}

/// Appends one declaration line per ordered participant.
#[verifier::loop_isolation(false)]
pub fn add_participants(
    diagram: &mut Vec<String>,
    ordered_participants: &Vec<String>,
    contracts: &Vec<ContractInfo>,
)
    ensures
        final(diagram).deep_view() == old(diagram).deep_view()
            + ordered_participants.deep_view().map_values(
            (|p: Seq<char>| spec_participant_line(p, contracts_view(*contracts))),
        ),
{
    let ghost f = |p: Seq<char>| spec_participant_line(p, contracts_view(*contracts));
    let ghost prev = diagram.deep_view();
    let ghost ov = ordered_participants.deep_view();
    let mut i: usize = 0;
    proof {
        assert(diagram.deep_view() =~= prev + ov.take(0).map_values(f));
    }
    while i < ordered_participants.len()
        invariant
            i <= ordered_participants.len(),
            diagram.deep_view() == prev + ov.take(i as int).map_values(f),
        decreases ordered_participants.len() - i,
    {
        let line = participant_line(&ordered_participants[i], contracts);
        push_line(diagram, line);
        proof {
            assert(prev + ov.take(i + 1 as int).map_values(f) =~= (prev + ov.take(
                i as int,
            ).map_values(f)).push(f(ov[i as int])));
        }
        i = i + 1;
    }
    proof {
        assert(ov.take(ov.len() as int) =~= ov);
    }
}

/// The annotation line of one recorded event.
pub open spec fn spec_event_line(e: (Seq<char>, Seq<char>)) -> Seq<char> {
    "Note over "@ + e.0 + ","@ + e.0 + ": Event: "@ + e.1
}

/// Appends one annotation line per recorded event.
#[verifier::loop_isolation(false)]
fn add_event_notes(diagram: &mut Vec<String>, events: &Vec<(String, String)>)
    ensures
        final(diagram).deep_view() == old(diagram).deep_view()
            + events.deep_view().map_values((|e: (Seq<char>, Seq<char>)| spec_event_line(e))),
{
    let ghost f = |e: (Seq<char>, Seq<char>)| spec_event_line(e);
    let ghost prev = diagram.deep_view();
    let ghost evv = events.deep_view();
    let mut i: usize = 0;
    proof {
        assert(diagram.deep_view() =~= prev + evv.take(0).map_values(f));
    }
    while i < events.len()
        invariant
            i <= events.len(),
            diagram.deep_view() == prev + evv.take(i as int).map_values(f),
        decreases events.len() - i,
    {
        push_line(
            diagram,
            concat6(
                "Note over ",
                events[i].0.as_str(),
                ",",
                events[i].0.as_str(),
                ": Event: ",
                events[i].1.as_str(),
            ),
        );
        proof {
            assert(evv[i as int] == (events@[i as int].0@, events@[i as int].1@));
            assert(prev + evv.take(i + 1 as int).map_values(f) =~= (prev + evv.take(
                i as int,
            ).map_values(f)).push(f(evv[i as int])));
        }
        i = i + 1;
    }
    proof {
        assert(evv.take(evv.len() as int) =~= evv);
    }
}

/// One function-summary note per contract with functions.
pub open spec fn spec_fn_summaries(cs: Seq<ContractInfoView>) -> Seq<Seq<char>> {
    cs.flat_map(
        (|c: ContractInfoView|
            if c.functions.len() > 0 {
                seq!["Note over "@ + c.name + ": Functions: "@ + join_with(c.functions, ", "@)]
            } else {
                Seq::<Seq<char>>::empty()
            }),
    )
}

/// One inheritance note per contract with bases.
pub open spec fn spec_inherit_notes(cs: Seq<ContractInfoView>) -> Seq<Seq<char>> {
    cs.flat_map(
        (|c: ContractInfoView|
            if c.inherits_from.len() > 0 {
                seq![
                    "Note right of "@ + c.name + ": Inherits from: "@ + join_with(
                        c.inherits_from,
                        ", "@,
                    ),
                ]
            } else {
                Seq::<Seq<char>>::empty()
            }),
    )
}

/// One type note per contract whose kind is not the default.
pub open spec fn spec_type_notes(cs: Seq<ContractInfoView>) -> Seq<Seq<char>> {
    cs.flat_map(
        (|c: ContractInfoView|
            if c.contract_type != "contract"@ {
                seq!["Note right of "@ + c.name + ": Type: "@ + c.contract_type]
            } else {
                Seq::<Seq<char>>::empty()
            }),
    )
}

/// Appends the function summaries.
#[verifier::loop_isolation(false)]
fn add_fn_summaries(diagram: &mut Vec<String>, contracts: &Vec<ContractInfo>)
    ensures
        final(diagram).deep_view() == old(diagram).deep_view() + spec_fn_summaries(
            contracts_view(*contracts),
        ),
{
    let ghost f = |c: ContractInfoView|
        if c.functions.len() > 0 {
            seq!["Note over "@ + c.name + ": Functions: "@ + join_with(c.functions, ", "@)]
        } else {
            Seq::<Seq<char>>::empty()
        };
    let ghost prev = diagram.deep_view();
    let ghost cv = contracts_view(*contracts);
    let mut i: usize = 0;
    proof {
        assert(diagram.deep_view() =~= prev + cv.take(0).flat_map(f));
    }
    while i < contracts.len()
        invariant
            i <= contracts.len(),
            diagram.deep_view() == prev + cv.take(i as int).flat_map(f),
        decreases contracts.len() - i,
    {
        let ghost pl = diagram.deep_view();
        if contracts[i].functions.len() > 0 {
            let joined = join_strings(&contracts[i].functions, ", ");
            push_line(
                diagram,
                concat4(
                    "Note over ",
                    contracts[i].name.as_str(),
                    ": Functions: ",
                    joined.as_str(),
                ),
            );
        }
        proof {
            cv.lemma_flat_map_take_append(f, i as int);
            assert(cv[i as int] == contracts@[i as int]@);
            assert(diagram.deep_view() =~= pl + f(cv[i as int]));
        }
        i = i + 1;
    }
    proof {
        assert(cv.take(cv.len() as int) =~= cv);
    }
}

/// Appends the inheritance notes.
#[verifier::loop_isolation(false)]
fn add_inherit_notes(diagram: &mut Vec<String>, contracts: &Vec<ContractInfo>)
    ensures
        final(diagram).deep_view() == old(diagram).deep_view() + spec_inherit_notes(
            contracts_view(*contracts),
        ),
{
    let ghost f = |c: ContractInfoView|
        if c.inherits_from.len() > 0 {
            seq![
                "Note right of "@ + c.name + ": Inherits from: "@ + join_with(
                    c.inherits_from,
                    ", "@,
                ),
            ]
        } else {
            Seq::<Seq<char>>::empty()
        };
    let ghost prev = diagram.deep_view();
    let ghost cv = contracts_view(*contracts);
    let mut i: usize = 0;
    proof {
        assert(diagram.deep_view() =~= prev + cv.take(0).flat_map(f));
    }
    while i < contracts.len()
        invariant
            i <= contracts.len(),
            diagram.deep_view() == prev + cv.take(i as int).flat_map(f),
        decreases contracts.len() - i,
    {
        let ghost pl = diagram.deep_view();
        if contracts[i].inherits_from.len() > 0 {
            let joined = join_strings(&contracts[i].inherits_from, ", ");
            push_line(
                diagram,
                concat4(
                    "Note right of ",
                    contracts[i].name.as_str(),
                    ": Inherits from: ",
                    joined.as_str(),
                ),
            );
        }
        proof {
            cv.lemma_flat_map_take_append(f, i as int);
            assert(cv[i as int] == contracts@[i as int]@);
            assert(diagram.deep_view() =~= pl + f(cv[i as int]));
        }
        i = i + 1;
    }
    proof {
        assert(cv.take(cv.len() as int) =~= cv);
    }
}

/// Appends the type notes.
#[verifier::loop_isolation(false)]
fn add_type_notes(diagram: &mut Vec<String>, contracts: &Vec<ContractInfo>)
    ensures
        final(diagram).deep_view() == old(diagram).deep_view() + spec_type_notes(
            contracts_view(*contracts),
        ),
{
    let ghost f = |c: ContractInfoView|
        if c.contract_type != "contract"@ {
            seq!["Note right of "@ + c.name + ": Type: "@ + c.contract_type]
        } else {
            Seq::<Seq<char>>::empty()
        };
    let ghost prev = diagram.deep_view();
    let ghost cv = contracts_view(*contracts);
    let mut i: usize = 0;
    proof {
        assert(diagram.deep_view() =~= prev + cv.take(0).flat_map(f));
    }
    while i < contracts.len()
        invariant
            i <= contracts.len(),
            diagram.deep_view() == prev + cv.take(i as int).flat_map(f),
        decreases contracts.len() - i,
    {
        let ghost pl = diagram.deep_view();
        if !str_eq(contracts[i].contract_type.as_str(), "contract") {
            push_line(
                diagram,
                concat4(
                    "Note right of ",
                    contracts[i].name.as_str(),
                    ": Type: ",
                    contracts[i].contract_type.as_str(),
                ),
            );
        }
        proof {
            cv.lemma_flat_map_take_append(f, i as int);
            assert(cv[i as int] == contracts@[i as int]@);
            assert(diagram.deep_view() =~= pl + f(cv[i as int]));
        }
        i = i + 1;
    }
    proof {
        assert(cv.take(cv.len() as int) =~= cv);
    }
}

// ------------------------------------------------------------------
// Deduplicated "calls" notes
// ------------------------------------------------------------------
/// The dedup key of a relationship: the ordered pair as one string.
pub open spec fn spec_rel_key(r: RelationshipView) -> Seq<char> {
    r.source + "->"@ + r.target
}

/// The "calls" relationships whose both endpoints are registered
/// participants, in recorded order.
pub open spec fn spec_eligible(rels: Seq<RelationshipView>, ps: Seq<Seq<char>>) -> Seq<
    RelationshipView,
> {
    rels.filter(
        (|r: RelationshipView|
            r.relation_type == "calls"@ && ps.contains(r.source) && ps.contains(r.target)),
    )
}

/// First-occurrence deduplication by key: of entries whose key was already
/// seen, none is kept.
pub open spec fn spec_kept(xs: Seq<RelationshipView>, seen: Set<Seq<char>>) -> Seq<
    RelationshipView,
>
    decreases xs.len(),
{
    if xs.len() == 0 {
        Seq::<RelationshipView>::empty()
    } else {
        let k = spec_rel_key(xs[0]);
        if seen.contains(k) {
            spec_kept(xs.drop_first(), seen)
        } else {
            seq![xs[0]] + spec_kept(xs.drop_first(), seen.insert(k))
        }
    }
}

/// The note line of one kept relationship.
pub open spec fn spec_calls_note_line(r: RelationshipView) -> Seq<char> {
    "Note right of "@ + r.source + ": Interacts with "@ + r.target
}

/// The deduplicated interaction notes of the "calls" relationships.
pub open spec fn spec_calls_notes(rels: Seq<RelationshipView>, ps: Seq<Seq<char>>) -> Seq<
    Seq<char>,
> {
    spec_kept(spec_eligible(rels, ps), Set::<Seq<char>>::empty()).map_values(
        (|r: RelationshipView| spec_calls_note_line(r)),
    )
}

/// Appends one note per unique (source, target) pair among the "calls"
/// relationships with registered endpoints; the first occurrence wins.
#[verifier::loop_isolation(false)]
fn add_calls_notes(
    diagram: &mut Vec<String>,
    rels: &Vec<ContractRelationship>,
    participants: &Vec<String>,
)
    ensures
        final(diagram).deep_view() == old(diagram).deep_view() + spec_calls_notes(
            rels_view(*rels),
            participants.deep_view(),
        ),
{
    let ghost pv = participants.deep_view();
    let ghost rv = rels_view(*rels);
    let ghost ef = |r: RelationshipView|
        r.relation_type == "calls"@ && pv.contains(r.source) && pv.contains(r.target);
    let ghost prev = diagram.deep_view();
    let ghost nf = |r: RelationshipView| spec_calls_note_line(r);

    // First: the eligible relationships, in order.
    let mut elig: Vec<ContractRelationship> = Vec::new();
    let mut i: usize = 0;
    proof {
        assert(rv.take(0).filter(ef) =~= Seq::<RelationshipView>::empty());
        assert(rels_view(elig) =~= rv.take(0).filter(ef));
    }
    while i < rels.len()
        invariant
            i <= rels.len(),
            rels_view(elig) == rv.take(i as int).filter(ef),
        decreases rels.len() - i,
    {
        let ghost prevv = rels_view(elig);
        let ghost el = rv[i as int];
        let keep = str_eq(rels[i].relation_type.as_str(), "calls")
            && crate::extract::contains_string(participants, rels[i].source.as_str())
            && crate::extract::contains_string(participants, rels[i].target.as_str());
        if keep {
            elig.push(
                ContractRelationship {
                    source: rels[i].source.clone(),
                    target: rels[i].target.clone(),
                    relation_type: rels[i].relation_type.clone(),
                },
            );
            proof {
                assert(rels_view(elig) =~= prevv.push(el));
            }
        }
        proof {
            assert(rv.take(i + 1 as int) =~= rv.take(i as int).push(el));
            rv.take(i as int).lemma_filter_push(el, ef);
        }
        i = i + 1;
    }
    proof {
        assert(rv.take(rv.len() as int) =~= rv);
    }

    // Second: keep the first occurrence of each key.
    let ghost ev = rels_view(elig);
    let mut seen: Vec<String> = Vec::new();
    let ghost mut seen_set = Set::<Seq<char>>::empty();
    let ghost mut kept_prefix = Seq::<RelationshipView>::empty();
    let mut j: usize = 0;
    proof {
        assert(ev.skip(0) =~= ev);
        assert(diagram.deep_view() =~= prev + kept_prefix.map_values(nf));
    }
    while j < elig.len()
        invariant
            j <= elig.len(),
            ev == rels_view(elig),
            spec_kept(ev, Set::<Seq<char>>::empty()) == kept_prefix + spec_kept(
                ev.skip(j as int),
                seen_set,
            ),
            diagram.deep_view() == prev + kept_prefix.map_values(nf),
            forall|x: Seq<char>| seen_set.contains(x) <==> seen.deep_view().contains(x),
        decreases elig.len() - j,
    {
        let ghost e = ev[j as int];
        let ghost k = spec_rel_key(e);
        let key = concat3(elig[j].source.as_str(), "->", elig[j].target.as_str());
        proof {
            assert(key@ == k);
            assert(ev.skip(j as int)[0] == e);
            assert(ev.skip(j as int).drop_first() =~= ev.skip(j + 1 as int));
        }
        if !crate::extract::contains_string(&seen, key.as_str()) {
            let ghost prev_seen = seen.deep_view();
            push_line(
                diagram,
                concat4(
                    "Note right of ",
                    elig[j].source.as_str(),
                    ": Interacts with ",
                    elig[j].target.as_str(),
                ),
            );
            push_line(&mut seen, key);
            proof {
                assert forall|x: Seq<char>|
                    seen.deep_view().contains(x) <==> (prev_seen.contains(x) || x == k) by {
                    let sd = seen.deep_view();
                    assert(sd == prev_seen.push(k));
                    if sd.contains(x) {
                        let w = choose|w: int| 0 <= w < sd.len() && sd[w] == x;
                        if w < sd.len() - 1 {
                            assert(prev_seen[w] == x);
                            assert(prev_seen.contains(x));
                        } else {
                            assert(x == k);
                        }
                    }
                    if prev_seen.contains(x) {
                        let w = choose|w: int| 0 <= w < prev_seen.len() && prev_seen[w] == x;
                        assert(sd[w] == x);
                        assert(sd.contains(x));
                    }
                    if x == k {
                        assert(sd[sd.len() - 1] == x);
                        assert(sd.contains(x));
                    }
                }
                assert(spec_kept(ev.skip(j as int), seen_set) == seq![e] + spec_kept(
                    ev.skip(j + 1 as int),
                    seen_set.insert(k),
                ));
                assert(kept_prefix + (seq![e] + spec_kept(ev.skip(j + 1 as int), seen_set.insert(k)))
                    =~= (kept_prefix.push(e)) + spec_kept(ev.skip(j + 1 as int), seen_set.insert(k)));
                assert((kept_prefix.push(e)).map_values(nf) =~= kept_prefix.map_values(nf).push(
                    nf(e),
                ));
            }
            proof {
                kept_prefix = kept_prefix.push(e);
                seen_set = seen_set.insert(k);
            }
        } else {
            proof {
                assert(seen_set.contains(k));
                assert(spec_kept(ev.skip(j as int), seen_set) == spec_kept(
                    ev.skip(j + 1 as int),
                    seen_set,
                ));
            }
        }
        j = j + 1;
    }
    proof {
        assert(ev.skip(ev.len() as int) =~= Seq::<RelationshipView>::empty());
        assert(spec_kept(Seq::<RelationshipView>::empty(), seen_set) =~= Seq::<
            RelationshipView,
        >::empty());
        assert(spec_kept(ev, Set::<Seq<char>>::empty()) =~= kept_prefix);
        assert(diagram.deep_view() =~= prev + spec_calls_notes(rv, pv));
    }
}

// ------------------------------------------------------------------
// The whole diagram
// ------------------------------------------------------------------
/// Every line of the rendered diagram, in order.
pub open spec fn spec_render_lines(v: DiagramDataView, light: bool) -> Seq<Seq<char>> {
    seq![
        "```mermaid"@,
        "sequenceDiagram"@,
        "title Smart Contract Interaction Sequence Diagram"@,
        "autonumber"@,
        Seq::<char>::empty(),
    ] + spec_theme_lines(light) + spec_order_participants(v.participants).map_values(
        (|p: Seq<char>| spec_participant_line(p, v.contracts)),
    ) + seq![Seq::<char>::empty()] + spec_section_lines("User Interactions"@, light)
        + v.user_interactions + (if v.contract_interactions.len() > 0 {
        seq![Seq::<char>::empty()] + spec_section_lines("Contract-to-Contract Interactions"@, light)
            + v.contract_interactions.flat_map(
            (|e: (Seq<char>, Seq<Seq<char>>)| spec_entry_lines(e)),
        )
    } else {
        Seq::<Seq<char>>::empty()
    }) + (if v.events.len() > 0 {
        seq![Seq::<char>::empty()] + spec_section_lines("Event Definitions"@, light)
            + v.events.map_values((|e: (Seq<char>, Seq<char>)| spec_event_line(e)))
    } else {
        Seq::<Seq<char>>::empty()
    }) + (if v.contracts.len() > 0 {
        seq![Seq::<char>::empty()] + spec_section_lines("Contract Relationships"@, light)
            + spec_fn_summaries(v.contracts) + seq![Seq::<char>::empty()] + spec_inherit_notes(
            v.contracts,
        ) + seq![Seq::<char>::empty()] + spec_type_notes(v.contracts) + (
        if v.contract_relationships.len() > 0 {
            seq![Seq::<char>::empty()] + spec_calls_notes(v.contract_relationships, v.participants)
        } else {
            Seq::<Seq<char>>::empty()
        })
    } else {
        Seq::<Seq<char>>::empty()
    }) + spec_legend_lines(light) + seq!["```"@]
}

/// The rendered diagram: its lines joined by newlines.
pub open spec fn spec_render(v: DiagramDataView, light: bool) -> Seq<char> {
    join_with(spec_render_lines(v, light), "\n"@)
}

/// Renders the populated intermediate model into the diagram text.
/// Rendering is deterministic and never fails: the result is exactly
/// `spec_render` of the model.
#[verifier::rlimit(100)]
pub fn render_diagram(data: &DiagramData, light_colors: bool) -> (r: String)
    ensures
        r@ == spec_render(data@, light_colors),
{
    let ghost v = data@;
    let ghost preamble = seq![
        "```mermaid"@,
        "sequenceDiagram"@,
        "title Smart Contract Interaction Sequence Diagram"@,
        "autonumber"@,
        Seq::<char>::empty(),
    ];
    let mut diagram: Vec<String> = Vec::new();
    push_line(&mut diagram, String::from_str("```mermaid"));
    push_line(&mut diagram, String::from_str("sequenceDiagram"));
    push_line(
        &mut diagram,
        String::from_str("title Smart Contract Interaction Sequence Diagram"),
    );
    push_line(&mut diagram, String::from_str("autonumber"));
    push_line(&mut diagram, String::new());
    proof {
        assert(diagram.deep_view() =~= preamble);
    }

    add_theme_config(&mut diagram, light_colors);
    let ghost acc1 = preamble + spec_theme_lines(light_colors);

    let ordered = order_participants(&data.participants);
    add_participants(&mut diagram, &ordered, &data.contracts);
    push_line(&mut diagram, String::new());
    let ghost acc2 = acc1 + spec_order_participants(v.participants).map_values(
        (|p: Seq<char>| spec_participant_line(p, v.contracts)),
    ) + seq![Seq::<char>::empty()];
    proof {
        assert(diagram.deep_view() =~= acc2);
    }

    add_section_title(&mut diagram, "User Interactions", light_colors);
    append_lines(&mut diagram, &data.user_interactions);
    let ghost acc3 = acc2 + spec_section_lines("User Interactions"@, light_colors)
        + v.user_interactions;
    proof {
        assert(diagram.deep_view() =~= acc3);
    }

    let entries = crate::imap::im_entries(&data.contract_interactions);
    if entries.len() > 0 {
        push_line(&mut diagram, String::new());
        add_section_title(&mut diagram, "Contract-to-Contract Interactions", light_colors);
        add_interaction_entries(&mut diagram, &entries);
    }
    let ghost acc4 = acc3 + (if v.contract_interactions.len() > 0 {
        seq![Seq::<char>::empty()] + spec_section_lines(
            "Contract-to-Contract Interactions"@,
            light_colors,
        ) + v.contract_interactions.flat_map(
            (|e: (Seq<char>, Seq<Seq<char>>)| spec_entry_lines(e)),
        )
    } else {
        Seq::<Seq<char>>::empty()
    });
    proof {
        assert(diagram.deep_view() =~= acc4);
    }

    if data.events.len() > 0 {
        push_line(&mut diagram, String::new());
        add_section_title(&mut diagram, "Event Definitions", light_colors);
        add_event_notes(&mut diagram, &data.events);
    }
    let ghost acc5 = acc4 + (if v.events.len() > 0 {
        seq![Seq::<char>::empty()] + spec_section_lines("Event Definitions"@, light_colors)
            + v.events.map_values((|e: (Seq<char>, Seq<char>)| spec_event_line(e)))
    } else {
        Seq::<Seq<char>>::empty()
    });
    proof {
        assert(diagram.deep_view() =~= acc5);
    }

    if data.contracts.len() > 0 {
        push_line(&mut diagram, String::new());
        add_section_title(&mut diagram, "Contract Relationships", light_colors);
        add_fn_summaries(&mut diagram, &data.contracts);
        push_line(&mut diagram, String::new());
        add_inherit_notes(&mut diagram, &data.contracts);
        push_line(&mut diagram, String::new());
        add_type_notes(&mut diagram, &data.contracts);
        if data.contract_relationships.len() > 0 {
            push_line(&mut diagram, String::new());
            add_calls_notes(&mut diagram, &data.contract_relationships, &data.participants);
        }
    }
    let ghost acc6 = acc5 + (if v.contracts.len() > 0 {
        seq![Seq::<char>::empty()] + spec_section_lines("Contract Relationships"@, light_colors)
            + spec_fn_summaries(v.contracts) + seq![Seq::<char>::empty()] + spec_inherit_notes(
            v.contracts,
        ) + seq![Seq::<char>::empty()] + spec_type_notes(v.contracts) + (
        if v.contract_relationships.len() > 0 {
            seq![Seq::<char>::empty()] + spec_calls_notes(v.contract_relationships, v.participants)
        } else {
            Seq::<Seq<char>>::empty()
        })
    } else {
        Seq::<Seq<char>>::empty()
    });
    proof {
        assert(diagram.deep_view() =~= acc6);
    }

    add_legend(&mut diagram, light_colors);
    push_line(&mut diagram, String::from_str("```"));
    proof {
        assert(diagram.deep_view() =~= acc6 + spec_legend_lines(light_colors) + seq!["```"@]);
        assert(diagram.deep_view() =~= spec_render_lines(v, light_colors));
    }
    join_strings(&diagram, "\n")
}

// ------------------------------------------------------------------
// Laws
// ------------------------------------------------------------------
/// Filtering commutes with counting: the multiset of a filtered sequence
/// counts exactly the matching elements of the input sequence.
proof fn lemma_filter_multiset_count(
    s: Seq<Seq<char>>,
    pred: spec_fn(Seq<char>) -> bool,
    x: Seq<char>,
)
    ensures
        s.filter(pred).to_multiset().count(x) == (if pred(x) {
            s.to_multiset().count(x)
        } else {
            0nat
        }),
    decreases s.len(),
{
    broadcast use vstd::seq_lib::group_to_multiset_ensures;
    broadcast use vstd::multiset::group_multiset_axioms;

    reveal(Seq::<Seq<char>>::filter);
    if s.len() == 0 {
        assert(s.filter(pred) == s);
        assert(s.to_multiset().count(x) == 0);
    } else {
        lemma_filter_multiset_count(s.drop_last(), pred, x);
        assert(s =~= s.drop_last().push(s.last()));
        assert(s.to_multiset() == s.drop_last().push(s.last()).to_multiset());
        assert(s.drop_last().push(s.last()).to_multiset() == s.drop_last().to_multiset().insert(
            s.last(),
        ));
        if pred(s.last()) {
            assert(s.filter(pred) == s.drop_last().filter(pred).push(s.last()));
            assert(s.filter(pred).to_multiset() == s.drop_last().filter(pred).to_multiset().insert(
                s.last(),
            ));
        } else {
            assert(s.filter(pred) == s.drop_last().filter(pred));
        }
    }
}

/// Sequences with equal multisets keep equal multisets after filtering.
proof fn lemma_filter_permutation(
    s1: Seq<Seq<char>>,
    s2: Seq<Seq<char>>,
    pred: spec_fn(Seq<char>) -> bool,
)
    requires
        s1.to_multiset() == s2.to_multiset(),
    ensures
        s1.filter(pred).to_multiset() == s2.filter(pred).to_multiset(),
{
    assert forall|x: Seq<char>|
        s1.filter(pred).to_multiset().count(x) == s2.filter(pred).to_multiset().count(x) by {
        lemma_filter_multiset_count(s1, pred, x);
        lemma_filter_multiset_count(s2, pred, x);
    }
    assert(s1.filter(pred).to_multiset() =~= s2.filter(pred).to_multiset());
}

/// The participant ordering is invariant under permutation of the input:
/// any two participant lists holding the same names in any order are
/// displayed in the same order, with "User" first, "Events" last, and every
/// other name in ascending order in between.
pub proof fn lemma_participant_order_permutation(ps1: Seq<Seq<char>>, ps2: Seq<Seq<char>>)
    requires
        ps1.to_multiset() == ps2.to_multiset(),
    ensures
        spec_order_participants(ps1) == spec_order_participants(ps2),
{
    vstd::seq_lib::to_multiset_contains(ps1, "User"@);
    vstd::seq_lib::to_multiset_contains(ps2, "User"@);
    vstd::seq_lib::to_multiset_contains(ps1, "Events"@);
    vstd::seq_lib::to_multiset_contains(ps2, "Events"@);
    assert(ps1.contains("User"@) <==> ps2.contains("User"@));
    assert(ps1.contains("Events"@) <==> ps2.contains("Events"@));
    let pred = |p: Seq<char>| p != "User"@ && p != "Events"@;
    lemma_filter_permutation(ps1, ps2, pred);
    lemma_lex_total_ordering();
    ps1.filter(pred).lemma_sort_by_ensures(lex_leq_fn());
    ps2.filter(pred).lemma_sort_by_ensures(lex_leq_fn());
    lemma_sorted_multiset_unique(
        ps1.filter(pred).sort_by(lex_leq_fn()),
        ps2.filter(pred).sort_by(lex_leq_fn()),
    );
}

/// The shape of the display order: when present, "User" stands first and
/// "Events" stands last, and everything in between is in ascending order.
pub proof fn lemma_participant_order_shape(ps: Seq<Seq<char>>)
    ensures
        ps.contains("User"@) ==> spec_order_participants(ps).len() > 0 && spec_order_participants(
            ps,
        )[0] == "User"@,
        ps.contains("Events"@) ==> spec_order_participants(ps).len() > 0
            && spec_order_participants(ps).last() == "Events"@,
        forall|i: int, j: int|
            {
                let off: int = if ps.contains("User"@) {
                    1
                } else {
                    0
                };
                let m = ps.filter(
                    (|p: Seq<char>| p != "User"@ && p != "Events"@),
                ).sort_by(lex_leq_fn());
                off <= i < j < off + m.len() ==> lex_le(
                    #[trigger] spec_order_participants(ps)[i],
                    #[trigger] spec_order_participants(ps)[j],
                )
            },
{
    let r = spec_order_participants(ps);
    let pred = |p: Seq<char>| p != "User"@ && p != "Events"@;
    let m = ps.filter(pred).sort_by(lex_leq_fn());
    let off: int = if ps.contains("User"@) {
        1
    } else {
        0
    };
    lemma_lex_total_ordering();
    ps.filter(pred).lemma_sort_by_ensures(lex_leq_fn());
    assert forall|i: int, j: int| off <= i < j < off + m.len() implies lex_le(
        #[trigger] r[i],
        #[trigger] r[j],
    ) by {
        assert(r[i] == m[i - off]);
        assert(r[j] == m[j - off]);
        assert(lex_leq_fn()(m[i - off], m[j - off]));
    }
}

/// The notes subsection never holds more lines than there are distinct
/// (source, target) keys among the recorded relationships.
pub proof fn lemma_calls_notes_count(rels: Seq<RelationshipView>, ps: Seq<Seq<char>>)
    ensures
        spec_calls_notes(rels, ps).len() <= rels.map_values(
            (|r: RelationshipView| spec_rel_key(r)),
        ).to_set().len(),
{
    broadcast use vstd::set::group_set_axioms;
    broadcast use vstd::seq_lib::seq_to_set_is_finite;

    let kf = |r: RelationshipView| spec_rel_key(r);
    let elig = spec_eligible(rels, ps);
    lemma_calls_dedup_count(elig);
    assert(spec_calls_notes(rels, ps).len() == spec_kept(elig, Set::<Seq<char>>::empty()).len());
    let ek = elig.map_values(kf);
    let rk = rels.map_values(kf);
    assert forall|x: Seq<char>| ek.to_set().contains(x) implies rk.to_set().contains(x) by {
        assert(ek.contains(x));
        let i = choose|i: int| 0 <= i < ek.len() && ek[i] == x;
        assert(elig.contains(elig[i]));
        rels.lemma_filter_contains_rev(
            (|r: RelationshipView|
                r.relation_type == "calls"@ && ps.contains(r.source) && ps.contains(r.target)),
            elig[i],
        );
        let w = choose|w: int| 0 <= w < rels.len() && rels[w] == elig[i];
        assert(rk[w] == x);
        assert(rk.contains(x));
    }
    assert(ek.to_set().subset_of(rk.to_set()));
    vstd::set_lib::lemma_len_subset(ek.to_set(), rk.to_set());
}

/// Duplicate-free sequences over the same set of names are permutations of
/// one another.
proof fn lemma_nodup_equal_set_multiset(a: Seq<Seq<char>>, b: Seq<Seq<char>>)
    requires
        a.no_duplicates(),
        b.no_duplicates(),
        a.to_set() == b.to_set(),
    ensures
        a.to_multiset() == b.to_multiset(),
{
    broadcast use vstd::seq_lib::group_to_multiset_ensures;
    broadcast use vstd::set::group_set_axioms;

    a.lemma_multiset_has_no_duplicates();
    b.lemma_multiset_has_no_duplicates();
    assert forall|x: Seq<char>| a.to_multiset().count(x) == b.to_multiset().count(x) by {
        assert(a.to_set().contains(x) == a.contains(x));
        assert(b.to_set().contains(x) == b.contains(x));
        if a.to_multiset().count(x) > 0 {
            assert(a.contains(x));
            assert(b.contains(x));
            assert(b.to_multiset().count(x) > 0);
        }
        if b.to_multiset().count(x) > 0 {
            assert(b.contains(x));
            assert(a.contains(x));
            assert(a.to_multiset().count(x) > 0);
        }
    }
    assert(a.to_multiset() =~= b.to_multiset());
}

/// The display order of the participants depends on the set of names alone:
/// any two extracted models registering the same names, in whatever order,
/// display their participants identically.
pub proof fn lemma_participant_order_canonical(a1: crate::nodes::Ast, a2: crate::nodes::Ast)
    requires
        crate::extract::spec_extract(a1).participants.to_set()
            == crate::extract::spec_extract(a2).participants.to_set(),
    ensures
        spec_order_participants(crate::extract::spec_extract(a1).participants)
            == spec_order_participants(crate::extract::spec_extract(a2).participants),
{
    crate::extract::lemma_extract_participants_unique(a1);
    crate::extract::lemma_extract_participants_unique(a2);
    lemma_nodup_equal_set_multiset(
        crate::extract::spec_extract(a1).participants,
        crate::extract::spec_extract(a2).participants,
    );
    lemma_participant_order_permutation(
        crate::extract::spec_extract(a1).participants,
        crate::extract::spec_extract(a2).participants,
    );
}

/// What first-occurrence deduplication keeps: the kept entries come from the
/// input, their keys are pairwise distinct, and none of their keys was
/// already seen.
proof fn lemma_kept_shape(xs: Seq<RelationshipView>, seen: Set<Seq<char>>)
    ensures
        forall|i: int|
            0 <= i < spec_kept(xs, seen).len() ==> xs.contains(#[trigger] spec_kept(xs, seen)[i]),
        forall|i: int, j: int|
            0 <= i < j < spec_kept(xs, seen).len() ==> spec_rel_key(spec_kept(xs, seen)[i])
                != spec_rel_key(spec_kept(xs, seen)[j]),
        forall|i: int|
            0 <= i < spec_kept(xs, seen).len() ==> !seen.contains(
                spec_rel_key(#[trigger] spec_kept(xs, seen)[i]),
            ),
    decreases xs.len(),
{
    if xs.len() > 0 {
        let k = spec_rel_key(xs[0]);
        let r = spec_kept(xs, seen);
        if seen.contains(k) {
            lemma_kept_shape(xs.drop_first(), seen);
            let rest = spec_kept(xs.drop_first(), seen);
            assert(r == rest);
            assert forall|i: int| 0 <= i < r.len() implies xs.contains(#[trigger] r[i]) by {
                assert(xs.drop_first().contains(r[i]));
                let w = choose|w: int| 0 <= w < xs.drop_first().len() && xs.drop_first()[w] == r[i];
                assert(xs[w + 1] == r[i]);
            }
            assert forall|i: int, j: int|
                0 <= i < j < r.len() implies spec_rel_key(r[i]) != spec_rel_key(r[j]) by {
                assert(spec_rel_key(rest[i]) != spec_rel_key(rest[j]));
            }
            assert forall|i: int| 0 <= i < r.len() implies !seen.contains(
                spec_rel_key(#[trigger] r[i]),
            ) by {
                assert(!seen.contains(spec_rel_key(rest[i])));
            }
        } else {
            lemma_kept_shape(xs.drop_first(), seen.insert(k));
            let rest = spec_kept(xs.drop_first(), seen.insert(k));
            assert(r == seq![xs[0]] + rest);
            assert forall|i: int| 0 <= i < r.len() implies xs.contains(#[trigger] r[i]) by {
                if i == 0 {
                    assert(r[0] == xs[0]);
                } else {
                    assert(rest.contains(r[i]));
                    let w = choose|w: int|
                        0 <= w < xs.drop_first().len() && xs.drop_first()[w] == r[i];
                    assert(xs[w + 1] == r[i]);
                }
            }
            assert forall|i: int, j: int|
                0 <= i < j < r.len() implies spec_rel_key(r[i]) != spec_rel_key(r[j]) by {
                if i == 0 {
                    assert(!seen.insert(k).contains(spec_rel_key(rest[j - 1])));
                    assert(seen.insert(k).contains(k));
                } else {
                    assert(spec_rel_key(rest[i - 1]) != spec_rel_key(rest[j - 1]));
                }
            }
            assert forall|i: int| 0 <= i < r.len() implies !seen.contains(
                spec_rel_key(#[trigger] r[i]),
            ) by {
                if i > 0 {
                    assert(!seen.insert(k).contains(spec_rel_key(rest[i - 1])));
                }
            }
        }
    }
}

/// A list whose keys are pairwise distinct and unseen passes through
/// deduplication unchanged.
proof fn lemma_kept_of_distinct(ys: Seq<RelationshipView>, seen: Set<Seq<char>>)
    requires
        forall|i: int, j: int|
            0 <= i < j < ys.len() ==> spec_rel_key(ys[i]) != spec_rel_key(ys[j]),
        forall|i: int| 0 <= i < ys.len() ==> !seen.contains(spec_rel_key(#[trigger] ys[i])),
    ensures
        spec_kept(ys, seen) == ys,
    decreases ys.len(),
{
    if ys.len() > 0 {
        let k = spec_rel_key(ys[0]);
        assert(!seen.contains(k));
        assert forall|i: int, j: int|
            0 <= i < j < ys.drop_first().len() implies spec_rel_key(ys.drop_first()[i])
            != spec_rel_key(ys.drop_first()[j]) by {
            assert(ys.drop_first()[i] == ys[i + 1]);
            assert(ys.drop_first()[j] == ys[j + 1]);
        }
        assert forall|i: int| 0 <= i < ys.drop_first().len() implies !seen.insert(k).contains(
            spec_rel_key(#[trigger] ys.drop_first()[i]),
        ) by {
            assert(ys.drop_first()[i] == ys[i + 1]);
            assert(spec_rel_key(ys[i + 1]) != k);
        }
        lemma_kept_of_distinct(ys.drop_first(), seen.insert(k));
        assert(spec_kept(ys, seen) =~= ys);
    }
}

/// The "calls" deduplication is idempotent: deduplicating an already
/// deduplicated relationship list changes nothing.
pub proof fn lemma_calls_dedup_idempotent(xs: Seq<RelationshipView>)
    ensures
        spec_kept(spec_kept(xs, Set::<Seq<char>>::empty()), Set::<Seq<char>>::empty())
            == spec_kept(xs, Set::<Seq<char>>::empty()),
{
    broadcast use vstd::set::group_set_axioms;

    lemma_kept_shape(xs, Set::<Seq<char>>::empty());
    lemma_kept_of_distinct(spec_kept(xs, Set::<Seq<char>>::empty()), Set::<Seq<char>>::empty());
}

/// The deduplicated list is never longer than the number of distinct
/// (source, target) keys among the input relationships.
pub proof fn lemma_calls_dedup_count(xs: Seq<RelationshipView>)
    ensures
        spec_kept(xs, Set::<Seq<char>>::empty()).len() <= xs.map_values(
            (|r: RelationshipView| spec_rel_key(r)),
        ).to_set().len(),
{
    broadcast use vstd::set::group_set_axioms;
    broadcast use vstd::seq_lib::seq_to_set_is_finite;

    let kept = spec_kept(xs, Set::<Seq<char>>::empty());
    let kf = |r: RelationshipView| spec_rel_key(r);
    lemma_kept_shape(xs, Set::<Seq<char>>::empty());
    let kk = kept.map_values(kf);
    assert forall|i: int, j: int| 0 <= i < j < kk.len() implies kk[i] != kk[j] by {
        assert(spec_rel_key(kept[i]) != spec_rel_key(kept[j]));
    }
    assert(kk.no_duplicates());
    kk.unique_seq_to_set();
    let xk = xs.map_values(kf);
    assert forall|x: Seq<char>| kk.to_set().contains(x) implies xk.to_set().contains(x) by {
        assert(kk.contains(x));
        let i = choose|i: int| 0 <= i < kk.len() && kk[i] == x;
        assert(xs.contains(kept[i]));
        let w = choose|w: int| 0 <= w < xs.len() && xs[w] == kept[i];
        assert(xk[w] == x);
        assert(xk.contains(x));
    }
    assert(kk.to_set().subset_of(xk.to_set()));
    vstd::set_lib::lemma_len_subset(kk.to_set(), xk.to_set());
}

/// Extraction followed by rendering is a pure function of the decoded tree
/// and the palette flag: equal trees rendered with the same palette give
/// byte-identical output.
pub proof fn lemma_extract_render_deterministic(
    a1: crate::nodes::Ast,
    a2: crate::nodes::Ast,
    light: bool,
    r1: Seq<char>,
    r2: Seq<char>,
)
    requires
        a1 == a2,
        r1 == spec_render(crate::extract::spec_extract(a1), light),
        r2 == spec_render(crate::extract::spec_extract(a2), light),
    ensures
        r1 == r2,
{
}

/// Builds the intermediate model from a decoded tree and renders it: the
/// output is exactly the mathematical rendering of the extracted model.
pub fn diagram_from_ast(ast: &crate::nodes::Ast, light_colors: bool) -> (r: String)
    ensures
        r@ == spec_render(crate::extract::spec_extract(*ast), light_colors),
{
    let data = crate::extract::extract_model(ast);
    render_diagram(&data, light_colors)
}

} // verus!
