use vstd::prelude::*;

verus! {

/// Errors of one generation run.
///
/// Schema-level errors (`SchemaNotFound`, `SchemaParseError`, `IoError`)
/// abort the whole run; `UnresolvedTypeReference` and `NameCollision` are
/// scoped to the entity they occur in and reported beside the models of
/// the entities that did succeed.
///
/// Who produces what: the library itself raises `SchemaParseError` (from
/// the normalizer) and `UnresolvedTypeReference` (from the resolver);
/// entity-scoped collisions surface as `EntityErrorKind` values, not as
/// `NameCollision` here. `SchemaNotFound` and `IoError` exist for the
/// caller that reads the schema file and writes the plan: the library
/// performs no I/O of its own.
pub enum GenError {
    /// The schema file does not exist.
    SchemaNotFound,
    /// Neither encoding accepted the schema text; the position is the
    /// character index, in the whitespace-stripped text, at which the
    /// legacy parse gave up.
    SchemaParseError { position: usize },
    /// A `Defined` type name has no declaration in the schema, or a
    /// `Generic` parameter is not declared by the enclosing type.
    UnresolvedTypeReference { name: String },
    /// Two entities of one category normalize to the same module name.
    NameCollision { module_name: String },
    /// A filesystem write failed during emission.
    IoError,
}

/// What went wrong while processing one entity.
pub enum EntityErrorKind {
    /// The named field's type could not be resolved; `referenced` is the
    /// unresolvable `Defined` or `Generic` name.
    UnresolvedField { field: String, referenced: String },
    /// The entity's module name equals that of an earlier entity of the
    /// same category.
    ModuleNameCollision { module_name: String },
}

/// An entity-scoped failure: the entity's declared name and the cause.
pub struct EntityError {
    pub entity: String,
    pub kind: EntityErrorKind,
}

} // verus!
