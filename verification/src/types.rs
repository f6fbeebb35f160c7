use vstd::prelude::*;
use crate::imap::{InteractionMap, interaction_entries, im_new};

verus! {

/// A contract's state variable.
#[derive(Debug, Clone)]
pub struct StateVariable {
    pub name: String,
    pub var_type: String,
    pub visibility: String,
}

/// A function parameter or return value.
#[derive(Debug, Clone)]
pub struct Parameter {
    pub name: String,
    pub param_type: String,
}

/// The kind of a sequence-diagram interaction.
#[derive(Debug, Clone)]
pub enum InteractionType {
    Call,
    Return,
    Event,
}

/// A diagram interaction between two participants.
#[derive(Debug, Clone)]
pub struct Interaction {
    pub interaction_type: InteractionType,
    pub from: String,
    pub to: String,
    pub message: String,
    pub inside_loop: bool,
    pub origin_function: Option<String>,
}

/// The recorded information about one contract.
#[derive(Debug, Clone)]
pub struct ContractInfo {
    pub name: String,
    pub events: Vec<String>,
    pub functions: Vec<String>,
    pub variables: Vec<(String, String)>,
    pub inherits_from: Vec<String>,
    pub contract_type: String,
    pub source_file: String,
}

/// The mathematical image of a `ContractInfo`.
#[verifier::ext_equal]
pub ghost struct ContractInfoView {
    pub name: Seq<char>,
    pub events: Seq<Seq<char>>,
    pub functions: Seq<Seq<char>>,
    pub variables: Seq<(Seq<char>, Seq<char>)>,
    pub inherits_from: Seq<Seq<char>>,
    pub contract_type: Seq<char>,
    pub source_file: Seq<char>,
}

impl View for ContractInfo {
    type V = ContractInfoView;

    open spec fn view(&self) -> ContractInfoView {
        ContractInfoView {
            name: self.name@,
            events: self.events.deep_view(),
            functions: self.functions.deep_view(),
            variables: self.variables.deep_view(),
            inherits_from: self.inherits_from.deep_view(),
            contract_type: self.contract_type@,
            source_file: self.source_file@,
        }
    }
}

impl Default for ContractInfo {
    /// An empty record with empty name, kind and path.
    fn default() -> (r: Self)
        ensures
            r@.name.len() == 0,
            r@.events.len() == 0,
            r@.functions.len() == 0,
            r@.variables.len() == 0,
            r@.inherits_from.len() == 0,
            r@.contract_type.len() == 0,
            r@.source_file.len() == 0,
    {
        ContractInfo {
            name: String::new(),
            events: Vec::new(),
            functions: Vec::new(),
            variables: Vec::new(),
            inherits_from: Vec::new(),
            contract_type: String::new(),
            source_file: String::new(),
        }
    }
}

/// A directed relationship between two contracts.
#[derive(Debug, Clone)]
pub struct ContractRelationship {
    pub source: String,
    pub target: String,
    pub relation_type: String,
}

/// The mathematical image of a `ContractRelationship`.
#[verifier::ext_equal]
pub ghost struct RelationshipView {
    pub source: Seq<char>,
    pub target: Seq<char>,
    pub relation_type: Seq<char>,
}

impl View for ContractRelationship {
    type V = RelationshipView;

    open spec fn view(&self) -> RelationshipView {
        RelationshipView {
            source: self.source@,
            target: self.target@,
            relation_type: self.relation_type@,
        }
    }
}

/// The intermediate model: everything one extraction pass records, consumed
/// once by the renderer.
#[derive(Debug, Clone)]
pub struct DiagramData {
    /// Participant names; no name occurs twice.
    pub participants: Vec<String>,
    /// Per-contract records, in first-registration order; names are unique.
    pub contracts: Vec<ContractInfo>,
    /// Rendered interaction lines involving the external caller, in order.
    pub user_interactions: Vec<String>,
    /// Rendered interaction lines per `"<contract>.<function>"` key.
    pub contract_interactions: InteractionMap,
    /// (contract, event) pairs in recording order; duplicates permitted.
    pub events: Vec<(String, String)>,
    /// Append-only relationship log.
    pub contract_relationships: Vec<ContractRelationship>,
}

/// The images of a vector of contract records.
pub open spec fn contracts_view(cs: Vec<ContractInfo>) -> Seq<ContractInfoView> {
    Seq::new(cs@.len(), |i: int| cs@[i]@)
}

/// The images of a vector of relationships.
pub open spec fn rels_view(rs: Vec<ContractRelationship>) -> Seq<RelationshipView> {
    Seq::new(rs@.len(), |i: int| rs@[i]@)
}

/// The mathematical image of a `DiagramData`.
#[verifier::ext_equal]
pub ghost struct DiagramDataView {
    pub participants: Seq<Seq<char>>,
    pub contracts: Seq<ContractInfoView>,
    pub user_interactions: Seq<Seq<char>>,
    pub contract_interactions: Seq<(Seq<char>, Seq<Seq<char>>)>,
    pub events: Seq<(Seq<char>, Seq<char>)>,
    pub contract_relationships: Seq<RelationshipView>,
}

impl View for DiagramData {
    type V = DiagramDataView;

    open spec fn view(&self) -> DiagramDataView {
        DiagramDataView {
            participants: self.participants.deep_view(),
            contracts: contracts_view(self.contracts),
            user_interactions: self.user_interactions.deep_view(),
            contract_interactions: interaction_entries(self.contract_interactions),
            events: self.events.deep_view(),
            contract_relationships: rels_view(self.contract_relationships),
        }
    }
}

impl Default for DiagramData {
    /// A fresh, fully empty model.
    fn default() -> (r: Self)
        ensures
            r@.participants.len() == 0,
            r@.contracts.len() == 0,
            r@.user_interactions.len() == 0,
            r@.contract_interactions.len() == 0,
            r@.events.len() == 0,
            r@.contract_relationships.len() == 0,
    {
        let r = DiagramData {
            participants: Vec::new(),
            contracts: Vec::new(),
            user_interactions: Vec::new(),
            contract_interactions: im_new(),
            events: Vec::new(),
            contract_relationships: Vec::new(),
        };
        proof {
            assert(r@.participants =~= Seq::<Seq<char>>::empty());
        }
        r
    }
}

} // verus!
