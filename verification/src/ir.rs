//! The intermediate representation of a CloudFormation template that the
//! synthesizer turns into CDK source code.
use vstd::prelude::*;

verus! {

/// A CloudFormation pseudo parameter.
#[derive(Clone, Copy, Debug, PartialEq, Eq)]
pub enum PseudoParameter {
    Partition,
    Region,
    StackId,
    StackName,
    URLSuffix,
    AccountId,
    NotificationArns,
}

/// What a reference points at.
#[derive(Debug, PartialEq, Eq)]
pub enum Origin {
    /// A template parameter.
    Parameter,
    /// A resource, by its logical id; `conditional` when the resource is
    /// created only under a condition.
    LogicalId { conditional: bool },
    /// A condition.
    Condition,
    /// An attribute of a resource.
    GetAttribute { attribute: String, conditional: bool },
    /// A pseudo parameter.
    PseudoParameter(PseudoParameter),
}

/// A reference to a named entity of the template.
#[derive(Debug, PartialEq, Eq)]
pub struct Reference {
    pub origin: Origin,
    pub name: String,
}

/// A primitive type of the resource specification.
#[derive(Debug, Clone, Copy, PartialEq, Eq)]
pub enum CfnType {
    Boolean,
    Integer,
    Double,
    Long,
    Json,
    String,
    Timestamp,
}

/// The shape of a collection value: a primitive type or a composite
/// property type (by name).
#[derive(Debug, PartialEq, Eq)]
pub enum Structure {
    Simple(CfnType),
    Composite(String),
}

/// A floating-point number, held as the texts that Rust gives for it: by
/// `Display` (`1`, `0.5`) and by `Debug` (`1.0`, `0.5`, `1e20`).
#[derive(Debug, PartialEq, Eq)]
pub struct FloatText {
    pub display: String,
    pub debug: String,
}

/// A value of a resource property, output or attribute.
#[derive(Debug, PartialEq, Eq)]
pub enum ResourceIr {
    Null,
    Bool(bool),
    Number(i64),
    /// A floating-point literal, held as the texts that Rust's `Display` and
    /// `Debug` give for it.
    Double(FloatText),
    String(String),
    Array(Structure, Vec<ResourceIr>),
    /// Entries in template order.
    Object(Structure, Vec<(String, ResourceIr)>),
    If(String, Box<ResourceIr>, Box<ResourceIr>),
    Join(String, Vec<ResourceIr>),
    Split(String, Box<ResourceIr>),
    Ref(Reference),
    Sub(Vec<ResourceIr>),
    FindInMap(String, Box<ResourceIr>, Box<ResourceIr>),
    Base64(Box<ResourceIr>),
    ImportValue(String),
    GetAZs(Box<ResourceIr>),
    Select(usize, Box<ResourceIr>),
    Cidr(Box<ResourceIr>, Box<ResourceIr>, Box<ResourceIr>),
}

/// A condition expression.
#[derive(Debug, PartialEq, Eq)]
pub enum ConditionIr {
    Ref(Reference),
    Str(String),
    Condition(String),
    And(Vec<ConditionIr>),
    Or(Vec<ConditionIr>),
    Not(Box<ConditionIr>),
    Equals(Box<ConditionIr>, Box<ConditionIr>),
    FindInMap(String, Box<ConditionIr>, Box<ConditionIr>),
    Split(String, Box<ConditionIr>),
    Select(String, Box<ConditionIr>),
}

/// A condition is simple when it needs no parentheses under a negation.
pub open spec fn spec_is_simple(c: ConditionIr) -> bool {
    match c {
        ConditionIr::Ref(_) | ConditionIr::Str(_) | ConditionIr::Condition(_) => true,
        _ => false,
    }
}

impl ConditionIr {
    /// Whether the condition is a reference, a string or a condition name.
    pub fn is_simple(&self) -> (r: bool)
        ensures
            r == spec_is_simple(*self),
    {
        match self {
            ConditionIr::Ref(_) | ConditionIr::Str(_) | ConditionIr::Condition(_) => true,
            _ => false,
        }
    }
}

/// A value of a mapping.
#[derive(Debug, PartialEq, Eq)]
pub enum MappingInnerValue {
    Number(i64),
    /// A floating-point value, held as the decimal text that Rust's
    /// `Display` gives for it.
    Float(String),
    Bool(bool),
    String(String),
    List(Vec<String>),
}

/// A mapping: for each top-level key, its second-level keys and values, in
/// template order.
#[derive(Debug, PartialEq, Eq)]
pub struct MappingInstruction {
    pub name: String,
    pub map: Vec<(String, Vec<(String, MappingInnerValue)>)>,
}

/// A named condition.
#[derive(Debug, PartialEq, Eq)]
pub struct ConditionInstruction {
    pub name: String,
    pub value: ConditionIr,
}

/// A module to import: the package path and the module name.
#[derive(Debug, PartialEq, Eq)]
pub struct ImportInstruction {
    pub name: String,
    pub path: Vec<String>,
}

/// A resource type, such as `AWS::S3::Bucket` (service `S3`, short name
/// `Bucket`).
#[derive(Debug, PartialEq, Eq)]
pub struct ResourceType {
    pub service: String,
    pub name: String,
}

impl ResourceType {
    /// The type's own name, without the service.
    pub fn short_name(&self) -> (r: &str)
        ensures
            r@ == self.name@,
    {
        self.name.as_str()
    }
}

/// A resource of the template.
#[derive(Debug, PartialEq, Eq)]
pub struct ResourceInstruction {
    pub name: String,
    pub condition: Option<String>,
    pub metadata: Option<ResourceIr>,
    pub update_policy: Option<ResourceIr>,
    pub deletion_policy: Option<String>,
    pub dependencies: Vec<String>,
    pub resource_type: ResourceType,
    pub properties: Vec<(String, ResourceIr)>,
}

/// A parameter of the stack's constructor.
#[derive(Debug, PartialEq, Eq)]
pub struct ConstructorParameter {
    pub name: String,
    pub description: Option<String>,
    pub constructor_type: String,
    pub default_value: Option<String>,
}

/// The stack's constructor.
#[derive(Debug, PartialEq, Eq)]
pub struct Constructor {
    pub inputs: Vec<ConstructorParameter>,
}

/// An output of the template.
#[derive(Debug, PartialEq, Eq)]
pub struct OutputInstruction {
    pub name: String,
    pub export: Option<ResourceIr>,
    pub value: ResourceIr,
    pub condition: Option<String>,
    pub description: Option<String>,
}

/// A whole template.
#[derive(Debug, PartialEq, Eq)]
pub struct CloudformationProgramIr {
    pub description: Option<String>,
    pub imports: Vec<ImportInstruction>,
    pub constructor: Constructor,
    pub outputs: Vec<OutputInstruction>,
    pub mappings: Vec<MappingInstruction>,
    pub conditions: Vec<ConditionInstruction>,
    pub resources: Vec<ResourceInstruction>,
}

} // verus!
