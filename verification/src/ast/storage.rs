//! Per-layer maps of defined types, type aliases, and known variables.

use vstd::prelude::*;
use crate::ast::decl::{EnumVariant, GenericParam, StructField};
use crate::ast::expr::{Expression, SpecExpression};
use crate::ast::source::SourceLocation;
use crate::ast::ty::{SpecType, Type};
use crate::names::NameMap;

verus! {

/// Where we store types for each layer.
#[derive(Debug, Clone, PartialEq)]
pub struct TypeStorage {
    pub DefinedTypes: NameMap<TypeDefinition>,
    pub TypeAliases: NameMap<Type>,
}

impl Default for TypeStorage {
    fn default() -> (s: Self)
        ensures
            s.DefinedTypes@ == Map::<Seq<char>, TypeDefinition>::empty(),
            s.TypeAliases@ == Map::<Seq<char>, Type>::empty(),
    {
        TypeStorage { DefinedTypes: NameMap::New(), TypeAliases: NameMap::New() }
    }
}

/// Where we store variables for each layer.
#[derive(Debug, Clone, PartialEq)]
pub struct VariableStorage {
    pub Variables: NameMap<VariableDefinition>,
}

impl Default for VariableStorage {
    fn default() -> (s: Self)
        ensures
            s.Variables@ == Map::<Seq<char>, VariableDefinition>::empty(),
    {
        VariableStorage { Variables: NameMap::New() }
    }
}

/// Full definition of a variable in the environment.
#[derive(Debug, Clone, PartialEq)]
pub struct VariableDefinition {
    pub Name: String,
    pub TypeAnnotation: Option<Type>,
    pub IsMutable: bool,
    pub Value: Expression,
}

/// The mathematical value of a [`VariableDefinition`].
pub struct SpecVariable {
    pub Name: Seq<char>,
    pub TypeAnnotation: Option<SpecType>,
    pub IsMutable: bool,
    pub Value: SpecExpression,
}

impl View for VariableDefinition {
    type V = SpecVariable;

    open spec fn view(&self) -> SpecVariable {
        SpecVariable {
            Name: self.Name@,
            TypeAnnotation: match self.TypeAnnotation {
                Some(t) => Some(t@),
                None => None,
            },
            IsMutable: self.IsMutable,
            Value: self.Value@,
        }
    }
}

/// The variables of a scope, each by its value.
pub open spec fn variables_view(m: Map<Seq<char>, VariableDefinition>) -> Map<Seq<char>, SpecVariable> {
    m.map_values(|v: VariableDefinition| v@)
}

/// Full definition of a user type.
#[derive(Debug, Clone, PartialEq)]
pub struct TypeDefinition {
    pub Name: String,
    pub Kind: TypeKind,
    pub SourceLocation: SourceLocation,
    pub Docs: Option<String>,
}

/// The physical layout of a type.
#[derive(Debug, Clone, PartialEq)]
pub enum TypeKind {
    Struct(Vec<StructField>),
    Enum(Vec<EnumVariant>),
    Alias(Box<Type>),
    Generic(Vec<GenericParam>),
}

} // verus!
