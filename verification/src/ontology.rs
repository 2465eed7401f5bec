//! The registry definition bodies that the library reads: verb contracts,
//! entity types, attributes and relationship types, each with the fields the
//! library's logic uses.

use vstd::prelude::*;

verus! {

/// A registry lookup behind a verb argument.
#[derive(Debug, Clone, PartialEq, Eq)]
pub struct VerbArgLookup {
    pub table: String,
    pub entity_type: String,
    pub schema: Option<String>,
}

/// One argument of a verb contract.
#[derive(Debug, Clone, PartialEq, Eq)]
pub struct VerbArgDef {
    pub name: String,
    pub required: bool,
    pub lookup: Option<VerbArgLookup>,
    pub valid_values: Option<Vec<String>>,
    /// The argument's default value written as JSON, when it declares one.
    pub default: Option<String>,
}

/// The entity type a verb produces.
#[derive(Debug, Clone, PartialEq, Eq)]
pub struct VerbProducesSpec {
    pub entity_type: String,
}

/// How a verb maps onto a table operation.
#[derive(Debug, Clone, PartialEq, Eq)]
pub struct VerbCrudMapping {
    pub operation: String,
    pub table: Option<String>,
    pub schema: Option<String>,
}

/// A verb contract.
#[derive(Debug, Clone, PartialEq, Eq)]
pub struct VerbContractBody {
    pub fqn: String,
    pub domain: String,
    pub action: String,
    pub description: String,
    pub args: Vec<VerbArgDef>,
    pub produces: Option<VerbProducesSpec>,
    pub consumes: Vec<String>,
    pub invocation_phrases: Vec<String>,
    pub subject_kinds: Vec<String>,
    pub requires_subject: bool,
    pub crud_mapping: Option<VerbCrudMapping>,
    pub reads_from: Vec<String>,
    pub writes_to: Vec<String>,
}

/// The physical table of an entity type.
#[derive(Debug, Clone, PartialEq, Eq)]
pub struct DbTableMapping {
    pub schema: String,
    pub table: String,
}

/// An entity type definition.
#[derive(Debug, Clone, PartialEq, Eq)]
pub struct EntityTypeDefBody {
    pub fqn: String,
    pub db_table: Option<DbTableMapping>,
}

/// Where an attribute's value comes from.
#[derive(Debug, Clone, PartialEq, Eq)]
pub struct AttributeSource {
    pub producing_verb: Option<String>,
    pub schema: Option<String>,
    pub table: Option<String>,
    pub column: Option<String>,
}

/// A verb that consumes an attribute through one of its arguments.
#[derive(Debug, Clone, PartialEq, Eq)]
pub struct AttributeSink {
    pub consuming_verb: String,
    pub arg_name: String,
}

/// An attribute definition.
#[derive(Debug, Clone, PartialEq, Eq)]
pub struct AttributeDefBody {
    pub fqn: String,
    pub source: Option<AttributeSource>,
    pub sinks: Vec<AttributeSink>,
}

/// How many entities a relationship joins on each side.
#[derive(Debug, Clone, Copy, PartialEq, Eq, Structural)]
pub enum RelationshipCardinality {
    OneToOne,
    OneToMany,
    ManyToOne,
    ManyToMany,
}

/// Which way a relationship reads.
#[derive(Debug, Clone, Copy, PartialEq, Eq, Structural)]
pub enum Directionality {
    Forward,
    Reverse,
    Bidirectional,
}

/// A relationship type between two entity types.
#[derive(Debug, Clone, PartialEq, Eq)]
pub struct RelationshipTypeDefBody {
    pub fqn: String,
    pub name: String,
    pub domain: String,
    pub source_entity_type_fqn: String,
    pub target_entity_type_fqn: String,
    pub cardinality: RelationshipCardinality,
    pub edge_class: Option<String>,
    pub directionality: Option<Directionality>,
    pub description: String,
    pub inverse_fqn: Option<String>,
}

/// A column of a view: the attribute it shows and whether it is visible.
#[derive(Debug, Clone, PartialEq, Eq)]
pub struct ViewColumn {
    pub attribute_fqn: String,
    pub visible: bool,
}

/// A filter of a view, on one attribute.
#[derive(Debug, Clone, PartialEq, Eq)]
pub struct ViewFilter {
    pub attribute_fqn: String,
}

/// A view definition: a perspective over a base entity type.
#[derive(Debug, Clone, PartialEq, Eq)]
pub struct ViewDefBody {
    pub fqn: String,
    pub name: String,
    pub description: String,
    pub domain: String,
    pub base_entity_type: String,
    pub columns: Vec<ViewColumn>,
    pub filters: Vec<ViewFilter>,
    /// The attributes the view sorts by, in order.
    pub sort_order: Vec<String>,
    pub includes_operational: bool,
}

/// A view definition as plain values.
pub struct ViewDefView {
    pub fqn: Seq<char>,
    pub name: Seq<char>,
    pub description: Seq<char>,
    pub domain: Seq<char>,
    pub base_entity_type: Seq<char>,
    pub columns: Seq<(Seq<char>, bool)>,
    pub filters: Seq<Seq<char>>,
    pub sort_order: Seq<Seq<char>>,
    pub includes_operational: bool,
}

impl View for ViewDefBody {
    type V = ViewDefView;

    open spec fn view(&self) -> ViewDefView {
        ViewDefView {
            fqn: self.fqn@,
            name: self.name@,
            description: self.description@,
            domain: self.domain@,
            base_entity_type: self.base_entity_type@,
            columns: self.columns@.map_values(|c: ViewColumn| (c.attribute_fqn@, c.visible)),
            filters: self.filters@.map_values(|f: ViewFilter| f.attribute_fqn@),
            sort_order: self.sort_order@.map_values(|t: String| t@),
            includes_operational: self.includes_operational,
        }
    }
}

impl ViewDefBody {
    /// A copy of this view definition.
    pub fn copy(&self) -> (r: ViewDefBody)
        ensures
            r@ == self@,
    {
        let mut columns: Vec<ViewColumn> = Vec::new();
        let mut i: usize = 0;
        while i < self.columns.len()
            invariant
                i <= self.columns.len(),
                columns@.len() == i,
                forall|k: int| 0 <= k < i ==> #[trigger] columns@[k] == self.columns@[k],
            decreases self.columns.len() - i,
        {
            columns.push(
                ViewColumn {
                    attribute_fqn: self.columns[i].attribute_fqn.clone(),
                    visible: self.columns[i].visible,
                },
            );
            i += 1;
        }
        let mut filters: Vec<ViewFilter> = Vec::new();
        let mut j: usize = 0;
        while j < self.filters.len()
            invariant
                j <= self.filters.len(),
                filters@.len() == j,
                forall|k: int| 0 <= k < j ==> #[trigger] filters@[k] == self.filters@[k],
            decreases self.filters.len() - j,
        {
            filters.push(ViewFilter { attribute_fqn: self.filters[j].attribute_fqn.clone() });
            j += 1;
        }
        let mut sort_order: Vec<String> = Vec::new();
        let mut t: usize = 0;
        while t < self.sort_order.len()
            invariant
                t <= self.sort_order.len(),
                sort_order@.len() == t,
                forall|k: int| 0 <= k < t ==> #[trigger] sort_order@[k] == self.sort_order@[k],
            decreases self.sort_order.len() - t,
        {
            sort_order.push(self.sort_order[t].clone());
            t += 1;
        }
        let r = ViewDefBody {
            fqn: self.fqn.clone(),
            name: self.name.clone(),
            description: self.description.clone(),
            domain: self.domain.clone(),
            base_entity_type: self.base_entity_type.clone(),
            columns,
            filters,
            sort_order,
            includes_operational: self.includes_operational,
        };
        assert(r.columns@ =~= self.columns@);
        assert(r.filters@ =~= self.filters@);
        assert(r.sort_order@ =~= self.sort_order@);
        r
    }
}

/// A condition of a policy rule: a kind, an operator and the value it
/// compares with, when that value is a text.
#[derive(Debug, Clone, PartialEq, Eq)]
pub struct PolicyPredicate {
    pub kind: String,
    pub operator: String,
    pub value: Option<String>,
}

/// What a policy rule does when it applies.
#[derive(Debug, Clone, PartialEq, Eq)]
pub struct PolicyAction {
    pub kind: String,
    pub description: Option<String>,
}

/// A policy rule.
#[derive(Debug, Clone, PartialEq, Eq)]
pub struct PolicyRuleBody {
    pub fqn: String,
    pub name: String,
    pub enabled: bool,
    pub predicates: Vec<PolicyPredicate>,
    pub actions: Vec<PolicyAction>,
}

/// How a target belongs to a taxonomy node.
#[derive(Debug, Clone, Copy, PartialEq, Eq, Structural)]
pub enum MembershipKind {
    Direct,
    Conditional,
    Excluded,
}

/// A condition of a conditional membership.
#[derive(Debug)]
pub struct MembershipCondition {
    pub kind: String,
    pub field: String,
    pub operator: String,
    pub value: serde_json::Value,
}

/// A rule that puts a target into a taxonomy node.
#[derive(Debug)]
pub struct MembershipRuleBody {
    pub fqn: String,
    pub name: String,
    pub description: Option<String>,
    pub taxonomy_fqn: String,
    pub node_fqn: String,
    pub membership_kind: MembershipKind,
    pub target_type: String,
    pub target_fqn: String,
    pub conditions: Vec<MembershipCondition>,
}

} // verus!
