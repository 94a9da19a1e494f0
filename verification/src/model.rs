//! Owned, plain-data model of the schema elements that federation
//! resolution reads: an element's attached directives, each directive's
//! named arguments, and the declaring-service context.
//!
//! Values of these types are built by the caller from a parsed schema
//! document; resolution only reads them.

use vstd::prelude::*;

verus! {

/// The value of one directive argument, as far as resolution cares:
/// either a string (the only shape the federation directives accept for
/// their `fields` argument) or anything else.
pub enum ArgumentValue {
    Text(String),
    NonText,
}

/// One named argument of a directive, e.g. `fields: "id"`.
pub struct Argument {
    pub name: String,
    pub value: ArgumentValue,
}

/// One directive attached to a schema element, e.g. `@key(fields: "id")`.
pub struct Directive {
    pub name: String,
    pub arguments: Vec<Argument>,
}

/// A field definition: its name, its attached directives, and the name of
/// the subgraph service in whose schema its parent type was declared
/// (absent when unknown). A field's owning service is inherited from its
/// parent type.
pub struct FieldDef {
    pub name: String,
    pub directives: Vec<Directive>,
    pub parent_service: Option<String>,
}

/// A top-level type definition of any kind (object, interface, union,
/// scalar, enum, input): its name, its attached directives, and the name
/// of the subgraph service in whose schema it was declared.
pub struct TypeDef {
    pub name: String,
    pub directives: Vec<Directive>,
    pub service: Option<String>,
}

/// An object type definition specifically, the most common federated
/// element; same data as [`TypeDef`], kept as its own kind so that the
/// reference union mirrors the three grammatical levels of a schema.
pub struct ObjectTypeDef {
    pub name: String,
    pub directives: Vec<Directive>,
    pub service: Option<String>,
}

/// A non-owning, tagged reference to one of the three kinds of schema
/// elements that can carry federation directives. It never outlives the
/// element it borrows from and is a purely read-only view.
pub enum SchemaRef<'q> {
    FieldDef(&'q FieldDef),
    TypeDef(&'q TypeDef),
    ObjType(&'q ObjectTypeDef),
}

impl<'q> From<&'q FieldDef> for SchemaRef<'q> {
    fn from(r: &'q FieldDef) -> Self {
        SchemaRef::FieldDef(r)
    }
}

impl<'q> vstd::std_specs::convert::FromSpecImpl<&'q FieldDef> for SchemaRef<'q> {
    open spec fn obeys_from_spec() -> bool {
        true
    }

    open spec fn from_spec(r: &'q FieldDef) -> Self {
        SchemaRef::FieldDef(r)
    }
}

impl<'q> From<&'q TypeDef> for SchemaRef<'q> {
    fn from(r: &'q TypeDef) -> Self {
        SchemaRef::TypeDef(r)
    }
}

impl<'q> vstd::std_specs::convert::FromSpecImpl<&'q TypeDef> for SchemaRef<'q> {
    open spec fn obeys_from_spec() -> bool {
        true
    }

    open spec fn from_spec(r: &'q TypeDef) -> Self {
        SchemaRef::TypeDef(r)
    }
}

impl<'q> From<&'q ObjectTypeDef> for SchemaRef<'q> {
    fn from(r: &'q ObjectTypeDef) -> Self {
        SchemaRef::ObjType(r)
    }
}

impl<'q> vstd::std_specs::convert::FromSpecImpl<&'q ObjectTypeDef> for SchemaRef<'q> {
    open spec fn obeys_from_spec() -> bool {
        true
    }

    open spec fn from_spec(r: &'q ObjectTypeDef) -> Self {
        SchemaRef::ObjType(r)
    }
}

impl<'q> SchemaRef<'q> {
    /// Wraps a borrowed field definition into the reference union.
    pub fn from_field(f: &'q FieldDef) -> (r: SchemaRef<'q>)
        ensures
            r == SchemaRef::FieldDef(f),
    {
        SchemaRef::FieldDef(f)
    }

    /// Wraps a borrowed type definition into the reference union.
    pub fn from_type(t: &'q TypeDef) -> (r: SchemaRef<'q>)
        ensures
            r == SchemaRef::TypeDef(t),
    {
        SchemaRef::TypeDef(t)
    }

    /// Wraps a borrowed object type definition into the reference union.
    pub fn from_object_type(o: &'q ObjectTypeDef) -> (r: SchemaRef<'q>)
        ensures
            r == SchemaRef::ObjType(o),
    {
        SchemaRef::ObjType(o)
    }
}

} // verus!
