use vstd::prelude::*;

use crate::errors::{EntityError, EntityErrorKind, GenError};
use crate::ir::{
    expr_of, first_unresolved, oversized_in, resolvable, spec_type_table, type_table, views_of,
    EntityDecl, Schema,
};
use crate::naming::{snake_of, to_snake_case, to_upper_camel_case, upper_camel_of};
use crate::resolve::resolve;

verus! {

/// One field of a render model: its name, its resolved target-language
/// type expression, and whether an oversized fixed array occurs in it.
pub struct FieldModel {
    pub name: String,
    pub type_expression: String,
    pub is_oversized_array: bool,
}

/// The flat render model of one entity, consumed by the module assembler.
pub struct EntityModel {
    pub name: String,
    pub module_name: String,
    pub discriminator: Vec<u8>,
    pub generics: Vec<String>,
    pub fields: Vec<FieldModel>,
    pub needs_big_array: bool,
}

/// Whether every field type of the declaration resolves against the
/// schema's type table, with the declaration's own generic parameters in
/// scope.
pub open spec fn fields_resolvable(e: EntityDecl, table: Seq<Seq<char>>) -> bool {
    forall|k: int|
        0 <= k < e.fields@.len() ==> resolvable(
            #[trigger] e.fields@[k].ty,
            views_of(e.generics@),
            table,
        )
}

/// Whether an earlier declaration of the same category normalizes to the
/// same module name.
pub open spec fn collides_earlier(decls: Seq<EntityDecl>, i: int) -> bool {
    exists|j: int| 0 <= j < i && snake_of(#[trigger] decls[j].name@) == snake_of(decls[i].name@)
}

/// Whether declaration `i` yields a model: all its field types resolve
/// and its module name collides with no earlier declaration.
pub open spec fn entity_succeeds(decls: Seq<EntityDecl>, i: int, table: Seq<Seq<char>>) -> bool {
    fields_resolvable(decls[i], table) && !collides_earlier(decls, i)
}

/// Whether `m` is the render model of the declaration `e`.
pub open spec fn is_model_of(m: EntityModel, e: EntityDecl) -> bool {
    &&& m.name@ == upper_camel_of(e.name@)
    &&& m.module_name@ == snake_of(e.name@)
    &&& m.discriminator@ == e.discriminator@
    &&& m.generics@.len() == e.generics@.len()
    &&& forall|g: int| 0 <= g < m.generics@.len() ==> (#[trigger] m.generics@[g])@ == e.generics@[g]@
    &&& m.fields@.len() == e.fields@.len()
    &&& forall|k: int|
        0 <= k < m.fields@.len() ==> (#[trigger] m.fields@[k]).name@ == e.fields@[k].name@
    &&& forall|k: int|
        0 <= k < m.fields@.len() ==> (#[trigger] m.fields@[k]).type_expression@ == expr_of(
            e.fields@[k].ty,
        )
    &&& forall|k: int|
        0 <= k < m.fields@.len() ==> (#[trigger] m.fields@[k]).is_oversized_array == oversized_in(
            e.fields@[k].ty,
        )
    &&& m.needs_big_array == exists|k: int|
        0 <= k < e.fields@.len() && oversized_in(#[trigger] e.fields@[k].ty)
}

/// Whether `err` reports the failure of declaration `i` correctly: a
/// module-name collision when there is one, otherwise the first field
/// whose type does not resolve.
pub open spec fn is_error_of(
    err: EntityError,
    decls: Seq<EntityDecl>,
    i: int,
    table: Seq<Seq<char>>,
) -> bool {
    &&& err.entity@ == decls[i].name@
    &&& if collides_earlier(decls, i) {
        err.kind matches EntityErrorKind::ModuleNameCollision { module_name } && module_name@
            == snake_of(decls[i].name@)
    } else {
        err.kind matches EntityErrorKind::UnresolvedField { field, referenced } && exists|k: int|
            {
                &&& 0 <= k < decls[i].fields@.len()
                &&& !resolvable(#[trigger] decls[i].fields@[k].ty, views_of(decls[i].generics@), table)
                &&& field@ == decls[i].fields@[k].name@
                &&& referenced@ == first_unresolved(
                    decls[i].fields@[k].ty,
                    views_of(decls[i].generics@),
                    table,
                )
                &&& forall|k2: int|
                    0 <= k2 < k ==> resolvable(
                        #[trigger] decls[i].fields@[k2].ty,
                        views_of(decls[i].generics@),
                        table,
                    )
            }
    }
}

/// The models are exactly those of the successful declarations below
/// `upto`, in declaration order.
pub open spec fn models_match(
    decls: Seq<EntityDecl>,
    upto: int,
    models: Seq<EntityModel>,
    table: Seq<Seq<char>>,
) -> bool
    decreases upto,
{
    if upto <= 0 {
        models.len() == 0
    } else {
        let i = upto - 1;
        if entity_succeeds(decls, i, table) {
            models.len() > 0 && is_model_of(models.last(), decls[i]) && models_match(
                decls,
                i,
                models.drop_last(),
                table,
            )
        } else {
            models_match(decls, i, models, table)
        }
    }
}

/// The errors are exactly those of the failed declarations below `upto`,
/// in declaration order.
pub open spec fn errors_match(
    decls: Seq<EntityDecl>,
    upto: int,
    errs: Seq<EntityError>,
    table: Seq<Seq<char>>,
) -> bool
    decreases upto,
{
    if upto <= 0 {
        errs.len() == 0
    } else {
        let i = upto - 1;
        if entity_succeeds(decls, i, table) {
            errors_match(decls, i, errs, table)
        } else {
            errs.len() > 0 && is_error_of(errs.last(), decls, i, table) && errors_match(
                decls,
                i,
                errs.drop_last(),
                table,
            )
        }
    }
}

/// Processes the declarations of one category into render models.
///
/// A declaration whose fields all resolve and whose module name is new
/// yields a model; every other declaration yields an entity-scoped error;
/// both lists keep declaration order.
pub fn process_entities(decls: &Vec<EntityDecl>, table: &Vec<String>) -> (r: (
    Vec<EntityModel>,
    Vec<EntityError>,
))
    ensures
        models_match(decls@, decls@.len() as int, r.0@, views_of(table@)),
        errors_match(decls@, decls@.len() as int, r.1@, views_of(table@)),
{
    let ghost tbl = views_of(table@);
    let mut models: Vec<EntityModel> = Vec::new();
    let mut errs: Vec<EntityError> = Vec::new();
    let mut seen: Vec<String> = Vec::new();
    let mut i: usize = 0;
    while i < decls.len()
        invariant
            i <= decls@.len(),
            tbl == views_of(table@),
            seen@.len() == i,
            forall|j: int| 0 <= j < i ==> (#[trigger] seen@[j])@ == snake_of(decls@[j].name@),
            models_match(decls@, i as int, models@, tbl),
            errors_match(decls@, i as int, errs@, tbl),
        decreases decls@.len() - i,
    {
        let decl = &decls[i];
        proof {
            assert(*decl == decls@[i as int]);
        }
        let module_name = to_snake_case(decl.name.as_str());
        let collides = crate::ir::contains_name(&seen, module_name.as_str());
        proof {
            if collides {
                let j = choose|j: int|
                    0 <= j < views_of(seen@).len() && views_of(seen@)[j] == module_name@;
                assert(seen@[j]@ == snake_of(decls@[j].name@));
                assert(collides_earlier(decls@, i as int));
            } else {
                assert forall|j: int| 0 <= j < i implies snake_of(
                    #[trigger] decls@[j].name@,
                ) != snake_of(decls@[i as int].name@) by {
                    assert(views_of(seen@)[j] == seen@[j]@);
                }
                assert(!collides_earlier(decls@, i as int));
            }
        }
        if collides {
            let ghost errs0 = errs@;
            let err = EntityError {
                entity: decl.name.clone(),
                kind: EntityErrorKind::ModuleNameCollision { module_name: module_name.clone() },
            };
            errs.push(err);
            proof {
                assert(!entity_succeeds(decls@, i as int, tbl));
                assert(errs@.drop_last() =~= errs0);
                assert(is_error_of(errs@.last(), decls@, i as int, tbl));
                assert(errors_match(decls@, i as int + 1, errs@, tbl));
                assert(models_match(decls@, i as int + 1, models@, tbl));
            }
        } else {
            let mut fields: Vec<FieldModel> = Vec::new();
            let mut any_big = false;
            let mut failed: Option<EntityError> = None;
            let mut k: usize = 0;
            while k < decl.fields.len() && failed.is_none()
                invariant
                    k <= decl.fields@.len(),
                    tbl == views_of(table@),
                    0 <= i < decls@.len(),
                    *decl == decls@[i as int],
                    !collides_earlier(decls@, i as int),
                    failed is None ==> {
                        &&& fields@.len() == k
                        &&& forall|k2: int|
                            0 <= k2 < k ==> (#[trigger] fields@[k2]).name@
                                == decl.fields@[k2].name@
                        &&& forall|k2: int|
                            0 <= k2 < k ==> (#[trigger] fields@[k2]).type_expression@ == expr_of(
                                decl.fields@[k2].ty,
                            )
                        &&& forall|k2: int|
                            0 <= k2 < k ==> (#[trigger] fields@[k2]).is_oversized_array
                                == oversized_in(decl.fields@[k2].ty)
                        &&& any_big == exists|k2: int|
                            0 <= k2 < k && oversized_in(#[trigger] decl.fields@[k2].ty)
                        &&& forall|k2: int|
                            0 <= k2 < k ==> resolvable(
                                #[trigger] decl.fields@[k2].ty,
                                views_of(decl.generics@),
                                tbl,
                            )
                    },
                    failed matches Some(err) ==> is_error_of(err, decls@, i as int, tbl),
                decreases decl.fields@.len() - k, (if failed is None {
                    1int
                } else {
                    0int
                }),
            {
                match resolve(&decl.fields[k].ty, &decl.generics, table) {
                    Ok(res) => {
                        let big = res.is_oversized;
                        fields.push(
                            FieldModel {
                                name: decl.fields[k].name.clone(),
                                type_expression: res.expr,
                                is_oversized_array: big,
                            },
                        );
                        any_big = any_big || big;
                    },
                    Err(e) => {
                        let referenced = match e {
                            GenError::UnresolvedTypeReference { name } => name,
                            _ => String::new(),
                        };
                        proof {
                            assert(referenced@ == first_unresolved(
                                decls@[i as int].fields@[k as int].ty,
                                views_of(decls@[i as int].generics@),
                                tbl,
                            ));
                        }
                        failed = Some(
                            EntityError {
                                entity: decl.name.clone(),
                                kind: EntityErrorKind::UnresolvedField {
                                    field: decl.fields[k].name.clone(),
                                    referenced,
                                },
                            },
                        );
                        proof {
                            let ghost ki = k as int;
                            assert(!resolvable(
                                decls@[i as int].fields@[ki].ty,
                                views_of(decls@[i as int].generics@),
                                tbl,
                            ));
                            assert(forall|k2: int|
                                0 <= k2 < ki ==> resolvable(
                                    #[trigger] decls@[i as int].fields@[k2].ty,
                                    views_of(decls@[i as int].generics@),
                                    tbl,
                                ));
                            assert(!collides_earlier(decls@, i as int));
                        }
                    },
                }
                if failed.is_none() {
                    k = k + 1;
                }
            }
            match failed {
                Some(err) => {
                    let ghost errs0 = errs@;
                    proof {
                        assert(is_error_of(err, decls@, i as int, tbl));
                        assert(exists|kb: int|
                            0 <= kb < decls@[i as int].fields@.len() && !resolvable(
                                #[trigger] decls@[i as int].fields@[kb].ty,
                                views_of(decls@[i as int].generics@),
                                tbl,
                            ));
                        assert(!fields_resolvable(decls@[i as int], tbl));
                        assert(!entity_succeeds(decls@, i as int, tbl));
                    }
                    errs.push(err);
                    proof {
                        assert(errs@.drop_last() =~= errs0);
                        assert(errors_match(decls@, i as int + 1, errs@, tbl));
                        assert(models_match(decls@, i as int + 1, models@, tbl));
                    }
                },
                None => {
                    let ghost models0 = models@;
                    let camel = to_upper_camel_case(decl.name.as_str());
                    let generics = crate::ir::clone_names(&decl.generics);
                    let m = EntityModel {
                        name: camel,
                        module_name: module_name.clone(),
                        discriminator: crate::ir::clone_bytes(&decl.discriminator),
                        generics,
                        fields,
                        needs_big_array: any_big,
                    };
                    models.push(m);
                    proof {
                        assert(fields_resolvable(decls@[i as int], tbl));
                        assert(entity_succeeds(decls@, i as int, tbl));
                        assert(models@.drop_last() =~= models0);
                        assert(is_model_of(models@.last(), decls@[i as int]));
                        assert(models_match(decls@, i as int + 1, models@, tbl));
                        assert(errors_match(decls@, i as int + 1, errs@, tbl));
                    }
                },
            }
        }
        seen.push(module_name);
        i = i + 1;
    }
    (models, errs)
}

/// Processes the schema's account declarations.
pub fn process_accounts(schema: &Schema) -> (r: (Vec<EntityModel>, Vec<EntityError>))
    ensures
        models_match(schema.accounts@, schema.accounts@.len() as int, r.0@, spec_type_table(schema.types@)),
        errors_match(schema.accounts@, schema.accounts@.len() as int, r.1@, spec_type_table(schema.types@)),
{
    let table = type_table(&schema.types);
    process_entities(&schema.accounts, &table)
}

/// Processes the schema's instruction declarations.
pub fn process_instructions(schema: &Schema) -> (r: (Vec<EntityModel>, Vec<EntityError>))
    ensures
        models_match(schema.instructions@, schema.instructions@.len() as int, r.0@, spec_type_table(schema.types@)),
        errors_match(schema.instructions@, schema.instructions@.len() as int, r.1@, spec_type_table(schema.types@)),
{
    let table = type_table(&schema.types);
    process_entities(&schema.instructions, &table)
}

/// Processes the schema's user-defined type declarations.
pub fn process_types(schema: &Schema) -> (r: (Vec<EntityModel>, Vec<EntityError>))
    ensures
        models_match(schema.types@, schema.types@.len() as int, r.0@, spec_type_table(schema.types@)),
        errors_match(schema.types@, schema.types@.len() as int, r.1@, spec_type_table(schema.types@)),
{
    let table = type_table(&schema.types);
    process_entities(&schema.types, &table)
}

/// Processes the schema's event declarations.
pub fn process_events(schema: &Schema) -> (r: (Vec<EntityModel>, Vec<EntityError>))
    ensures
        models_match(schema.events@, schema.events@.len() as int, r.0@, spec_type_table(schema.types@)),
        errors_match(schema.events@, schema.events@.len() as int, r.1@, spec_type_table(schema.types@)),
{
    let table = type_table(&schema.types);
    process_entities(&schema.events, &table)
}

/// Two distinct declared names that normalize to the same module name
/// never both succeed: the later one fails with a name collision.
pub proof fn lemma_name_collision_is_raised(
    decls: Seq<EntityDecl>,
    i: int,
    j: int,
    table: Seq<Seq<char>>,
)
    requires
        0 <= j < i < decls.len(),
        snake_of(decls[j].name@) == snake_of(decls[i].name@),
    ensures
        !entity_succeeds(decls, i, table),
{
    assert(collides_earlier(decls, i));
}

/// A field whose type does not resolve makes its entity fail.
pub proof fn lemma_unresolved_field_fails_entity(
    decls: Seq<EntityDecl>,
    i: int,
    k: int,
    table: Seq<Seq<char>>,
)
    requires
        0 <= i < decls.len(),
        0 <= k < decls[i].fields@.len(),
        !resolvable(decls[i].fields@[k].ty, views_of(decls[i].generics@), table),
    ensures
        !entity_succeeds(decls, i, table),
{
    assert(!fields_resolvable(decls[i], table));
}

/// Processing ignores discriminators: two declaration lists that agree
/// on names, generics and fields — as a current-encoding schema and the
/// legacy-encoding schema of the same entities do — succeed and fail on
/// the same declarations and yield models with the same module names,
/// position by position.
pub proof fn lemma_models_shape_ignores_discriminators(
    decls1: Seq<EntityDecl>,
    decls2: Seq<EntityDecl>,
    upto: int,
    models1: Seq<EntityModel>,
    models2: Seq<EntityModel>,
    table: Seq<Seq<char>>,
)
    requires
        decls1.len() == decls2.len(),
        upto <= decls1.len(),
        forall|j: int|
            0 <= j < decls1.len() ==> (#[trigger] decls1[j]).name == decls2[j].name && decls1[j].generics
                == decls2[j].generics && decls1[j].fields == decls2[j].fields,
        models_match(decls1, upto, models1, table),
        models_match(decls2, upto, models2, table),
    ensures
        models1.len() == models2.len(),
        forall|j: int|
            0 <= j < models1.len() ==> (#[trigger] models1[j]).module_name@
                == models2[j].module_name@,
    decreases upto,
{
    if upto > 0 {
        let i = upto - 1;
        assert(fields_resolvable(decls1[i], table) == fields_resolvable(decls2[i], table)) by {
            assert(decls1[i].fields == decls2[i].fields);
            assert(decls1[i].generics == decls2[i].generics);
        }
        assert(collides_earlier(decls1, i) == collides_earlier(decls2, i)) by {
            if collides_earlier(decls1, i) {
                let j = choose|j: int|
                    0 <= j < i && snake_of(#[trigger] decls1[j].name@) == snake_of(
                        decls1[i].name@,
                    );
                assert(snake_of(decls2[j].name@) == snake_of(decls2[i].name@));
            }
            if collides_earlier(decls2, i) {
                let j = choose|j: int|
                    0 <= j < i && snake_of(#[trigger] decls2[j].name@) == snake_of(
                        decls2[i].name@,
                    );
                assert(snake_of(decls1[j].name@) == snake_of(decls1[i].name@));
            }
        }
        if entity_succeeds(decls1, i, table) {
            lemma_models_shape_ignores_discriminators(
                decls1,
                decls2,
                i,
                models1.drop_last(),
                models2.drop_last(),
                table,
            );
            assert(models1.last().module_name@ == snake_of(decls1[i].name@));
            assert(models2.last().module_name@ == snake_of(decls2[i].name@));
            assert forall|j: int| 0 <= j < models1.len() implies (#[trigger] models1[j]).module_name@
                == models2[j].module_name@ by {
                if j < models1.len() - 1 {
                    assert(models1.drop_last()[j] == models1[j]);
                    assert(models2.drop_last()[j] == models2[j]);
                }
            }
        } else {
            lemma_models_shape_ignores_discriminators(decls1, decls2, i, models1, models2, table);
        }
    }
}

/// Partial-result emission: whatever fails elsewhere in the category, a
/// declaration that succeeds always has its render model in the output.
pub proof fn lemma_sibling_models_survive(
    decls: Seq<EntityDecl>,
    upto: int,
    models: Seq<EntityModel>,
    table: Seq<Seq<char>>,
    j: int,
)
    requires
        models_match(decls, upto, models, table),
        0 <= j < upto,
        entity_succeeds(decls, j, table),
    ensures
        exists|mi: int| 0 <= mi < models.len() && is_model_of(#[trigger] models[mi], decls[j]),
    decreases upto,
{
    let i = upto - 1;
    if i == j {
        assert(is_model_of(models[models.len() - 1], decls[j]));
    } else if entity_succeeds(decls, i, table) {
        lemma_sibling_models_survive(decls, i, models.drop_last(), table, j);
        let mi = choose|mi: int|
            0 <= mi < models.drop_last().len() && is_model_of(
                #[trigger] models.drop_last()[mi],
                decls[j],
            );
        assert(models.drop_last()[mi] == models[mi]);
        assert(is_model_of(models[mi], decls[j]));
    } else {
        lemma_sibling_models_survive(decls, i, models, table, j);
    }
}

/// Entity failure is scoped: whether a declaration succeeds depends only
/// on its own fields and on the names declared before it, never on the
/// fields of any sibling.
pub proof fn lemma_entity_failure_scoped(
    decls1: Seq<EntityDecl>,
    decls2: Seq<EntityDecl>,
    i: int,
    table: Seq<Seq<char>>,
)
    requires
        0 <= i < decls1.len(),
        decls1.len() == decls2.len(),
        decls1[i] == decls2[i],
        forall|j: int| 0 <= j < i ==> (#[trigger] decls1[j]).name@ == decls2[j].name@,
    ensures
        entity_succeeds(decls1, i, table) == entity_succeeds(decls2, i, table),
{
    assert(collides_earlier(decls1, i) == collides_earlier(decls2, i)) by {
        if collides_earlier(decls1, i) {
            let j = choose|j: int|
                0 <= j < i && snake_of(#[trigger] decls1[j].name@) == snake_of(decls1[i].name@);
            assert(snake_of(decls2[j].name@) == snake_of(decls2[i].name@));
        }
        if collides_earlier(decls2, i) {
            let j = choose|j: int|
                0 <= j < i && snake_of(#[trigger] decls2[j].name@) == snake_of(decls2[i].name@);
            assert(snake_of(decls1[j].name@) == snake_of(decls1[i].name@));
        }
    }
}

} // verus!
