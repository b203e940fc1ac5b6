//! The parts of the generated code's model that orchestration looks at.

use vstd::prelude::*;

verus! {

/// Where an operation of the document comes from.
#[derive(Debug, Clone, Copy, PartialEq, Eq, Structural)]
pub enum OperationKind {
    /// A request that the API answers.
    Http,
    /// A request that the API provider initiates.
    Webhook,
}

/// Where a request carries a parameter.
#[derive(Debug, Clone, Copy, PartialEq, Eq, Structural)]
pub enum ParameterLocation {
    Query,
    Path,
    Header,
    Cookie,
}

/// A parameter of a converted operation.
#[derive(Debug, Clone)]
pub struct OperationParameter {
    /// The name that the document gives to the parameter.
    pub original_name: Option<String>,
    pub parameter_location: Option<ParameterLocation>,
}

/// A converted operation. `D` is what the code generator needs to know beyond these fields.
#[derive(Debug, Clone)]
pub struct OperationInfo<D> {
    pub operation_id: String,
    pub kind: OperationKind,
    pub parameters: Vec<OperationParameter>,
    pub warnings: Vec<String>,
    pub detail: D,
}

/// An enum of the generated code, with the names of its helper methods.
#[derive(Debug, Clone)]
pub struct EnumDef<D> {
    pub definition: D,
    pub methods: Vec<String>,
}

/// An item of the generated code. `D` is the item's definition.
#[derive(Debug, Clone)]
pub enum RustType<D> {
    Struct(D),
    Enum(EnumDef<D>),
    TypeAlias(D),
    DiscriminatedEnum(D),
    ResponseEnum(D),
}

} // verus!
