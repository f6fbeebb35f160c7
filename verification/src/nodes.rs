use vstd::prelude::*;

verus! {

// Closed tagged-variant forms of the abstract-syntax-tree nodes that the
// extraction engine consumes.  Every field that the source tree may omit is an
// `Option`; the verified extraction code applies the documented placeholder
// fallbacks ("unknown", "Unknown", ...), so missing data never aborts a pass.
/// The length annotation of an array type node.
#[derive(Debug, Clone)]
pub enum ArrayLen {
    /// No usable length: rendered as `[]`.
    Absent,
    /// A string-encoded length literal.
    Text(String),
    /// A numeric length literal.
    Number(u64),
}

/// A type-description node.
#[derive(Debug)]
pub enum TypeName {
    /// An elementary type keyword such as `uint256`.
    Elementary { name: Option<String> },
    /// A user-defined type, optionally carrying a qualified path node.
    UserDefined { has_path_node: bool, path_node_name: Option<String>, name: Option<String> },
    /// An array of a base type, with an optional fixed length.
    Array { base: Box<TypeName>, length: ArrayLen },
    /// A mapping from a key type to a value type.
    Mapping { key: Box<TypeName>, value: Box<TypeName> },
    /// A tuple of component types; `None` when the components are absent.
    Tuple { components: Option<Vec<TypeName>> },
    /// A function type.
    Function,
    /// An address type, possibly payable.
    Address { payable: bool },
    /// Any other or missing variant, with the free-text type description if present.
    Other { type_string: Option<String> },
}

/// One declaration of a loop initialization expression.
#[derive(Debug)]
pub struct ForDecl {
    pub name: Option<String>,
    pub decl_type: Option<TypeName>,
}

/// The right-hand side of a binary comparison against a literal.
#[derive(Debug, Clone)]
pub enum CondRhs {
    Text(String),
    Number(u64),
}

/// A condition of the form `<identifier> <op> <literal>`.
#[derive(Debug, Clone)]
pub struct CondDesc {
    pub left: String,
    pub op: String,
    pub rhs: CondRhs,
}

/// An argument of a call or event emission.
#[derive(Debug, Clone)]
pub enum CallArg {
    /// An identifier argument; unnamed identifiers produce no output.
    Identifier { name: Option<String> },
    /// A literal argument with its rendered value and literal kind.
    Literal { value: Option<String>, kind: Option<String> },
    /// Any other expression kind; produces no output.
    Other,
}

/// A statement node of a function body.
#[derive(Debug)]
pub enum Statement {
    /// A for-loop with its initialization declarations and body.
    For { decls: Vec<ForDecl>, body: Vec<Statement> },
    /// A conditional with an optional recognized comparison description and
    /// an optional false branch.
    If { cond: Option<CondDesc>, true_body: Vec<Statement>, false_body: Option<Vec<Statement>> },
    /// An event emission with a resolved event name.
    Emit { event: String, args: Vec<CallArg> },
    /// A bare member-access call on an identifier target.
    Call { target: Option<String>, member: Option<String>, args: Vec<CallArg> },
    /// A member-access call whose target is a type-conversion call.
    ConversionCall { member: Option<String>, args: Vec<CallArg> },
    /// A variable declaration initialized by a member-access call.
    DeclCall {
        target: Option<String>,
        member: Option<String>,
        args: Vec<CallArg>,
        var_names: Vec<String>,
    },
    /// Any other statement kind; produces no output.
    Other,
}

/// A declared function parameter.
#[derive(Debug)]
pub struct ParamNode {
    pub name: String,
    pub decl_type: Option<TypeName>,
    pub type_desc: Option<String>,
}

/// A declared return parameter.
#[derive(Debug)]
pub struct RetParam {
    pub name: Option<String>,
    pub decl_type: Option<TypeName>,
    pub type_desc: Option<String>,
}

/// A function definition inside a contract.
#[derive(Debug)]
pub struct FunctionNode {
    pub name: String,
    pub kind: Option<String>,
    pub visibility: Option<String>,
    pub params: Vec<ParamNode>,
    pub ret_params: Option<Vec<RetParam>>,
    pub state_mutability: Option<String>,
    pub body: Option<Vec<Statement>>,
}

/// A node nested inside a contract definition.
#[derive(Debug)]
pub enum ContractPart {
    Event { name: Option<String> },
    Variable { name: Option<String>, decl_type: TypeName },
    Function(FunctionNode),
    Other,
}

/// A top-level contract definition.
#[derive(Debug)]
pub struct ContractNode {
    pub name: Option<String>,
    pub kind: Option<String>,
    pub bases: Vec<String>,
    pub parts: Vec<ContractPart>,
}

/// A top-level declaration node of a source unit.
#[derive(Debug)]
pub enum TopNode {
    Contract(ContractNode),
    Other,
}

/// One source unit: its file path and its top-level declarations.
#[derive(Debug)]
pub struct SourceUnit {
    pub absolute_path: Option<String>,
    pub nodes: Vec<TopNode>,
}

/// A whole decoded tree: either one flat source unit, or the combined
/// multi-file shape holding one unit per source entry.
#[derive(Debug)]
pub enum Ast {
    Flat(SourceUnit),
    Combined(Vec<SourceUnit>),
}

} // verus!
