//! Java source generation for AWS CDK stacks from a CloudFormation
//! template's intermediate representation.
pub mod code;
pub mod debug;
pub mod emit;
pub mod expr;
pub mod ir;
pub mod item_laws;
pub mod java;
pub mod laws;
pub mod layout;
pub mod listing;
pub mod text;
