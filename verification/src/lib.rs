//! Sequence diagrams from Solidity compiler syntax trees.
//!
//! The library decodes a compiler's JSON syntax tree into closed tagged node
//! forms, extracts an intermediate model of participants, interactions,
//! events and relationships in two passes, and renders deterministic,
//! ordered sequence-diagram markup.  Every step past the decoding boundary
//! carries a contract pinning its result to a mathematical rendering
//! function of its input.

use vstd::prelude::*;

pub mod classify;
pub mod decode;
pub mod diagram;
pub mod extract;
pub mod imap;
pub mod jsonval;
pub mod nodes;
pub mod strutil;
pub mod typename;
pub mod types;
pub mod walker;

pub use classify::{get_function_purpose, guess_type_from_name, is_important_variable};
pub use decode::{decode_ast, AstError};
pub use diagram::{diagram_from_ast, render_diagram};
pub use extract::{extract_model, extract_return_type};
pub use typename::extract_type_name;
pub use types::{
    ContractInfo, ContractRelationship, DiagramData, Interaction, InteractionType, Parameter,
    StateVariable,
};
pub use walker::process_function_body;

verus! {

// The file path type of the configuration is carried through opaquely; only
// the surrounding program reads or writes files.
#[verifier::external_type_specification]
#[verifier::external_body]
pub struct ExPathBuf(std::path::PathBuf);

/// Configuration for diagram generation.
#[derive(Debug, Clone)]
pub struct Config {
    /// Use the lighter of the two fixed color palettes.
    pub light_colors: bool,
    /// Output file path; the diagram goes to the standard output when absent.
    pub output_file: Option<std::path::PathBuf>,
}

impl Default for Config {
    /// The default configuration: default palette, standard output.
    fn default() -> (r: Self)
        ensures
            !r.light_colors,
            r.output_file is None,
    {
        Config { light_colors: false, output_file: Option::None }
    }
}

/// Parses the raw tree and builds the intermediate model: the two passes
/// over every source unit, with the synthetic participants in between.
/// Fails exactly when the tree is structurally damaged at the top level; on
/// success the model is the extraction of some decoded tree.
pub fn extract_contract_info(ast: &serde_json::Value) -> (r: Result<
    DiagramData,
    decode::AstError,
>)
    ensures
        r matches Ok(data) ==> {
            &&& exists|a: nodes::Ast| data@ == extract::spec_extract(a)
            &&& extract::entry_keys_unique(data@.contract_interactions)
        },
{
    match decode::decode_ast(ast) {
        Result::Ok(decoded) => {
            let data = extract::extract_model(&decoded);
            proof {
                assert(data@ == extract::spec_extract(decoded));
            }
            Result::Ok(data)
        },
        Result::Err(e) => Result::Err(e),
    }
}

/// Generates the sequence diagram for a raw tree: decode, extract, render.
/// Fails exactly when decoding fails; on success the output is the
/// deterministic rendering of the extraction of some decoded tree.
pub fn generate_sequence_diagram(ast: &serde_json::Value, light_colors: bool) -> (r: Result<
    String,
    decode::AstError,
>)
    ensures
        r matches Ok(s) ==> exists|a: nodes::Ast|
            s@ == diagram::spec_render(extract::spec_extract(a), light_colors),
{
    match decode::decode_ast(ast) {
        Result::Ok(decoded) => {
            let s = diagram::diagram_from_ast(&decoded, light_colors);
            proof {
                assert(s@ == diagram::spec_render(
                    extract::spec_extract(decoded),
                    light_colors,
                ));
            }
            Result::Ok(s)
        },
        Result::Err(e) => Result::Err(e),
    }
}

} // verus!
