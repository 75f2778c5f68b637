pub mod assemble;
pub mod encode;
pub mod errors;
pub mod naming;
pub mod ir;
pub mod normalize;
pub mod numtext;
pub mod process;
pub mod render;
pub mod resolve;

use vstd::prelude::*;

use crate::assemble::{assemble, plan_matches, FilePlan};
use crate::encode::{current_text_of, legacy_text_of};
use crate::errors::{EntityError, GenError};
use crate::ir::{spec_type_table, Schema};
use crate::normalize::{legacy_discs_filled, load_schema};
use crate::process::{
    errors_match, models_match, process_accounts, process_events, process_instructions,
    process_types, EntityModel,
};

verus! {

/// Threshold above which a fixed-size array needs the auxiliary
/// big-array serialization capability in the generated code.
pub const MAX_NATIVE_ARRAY_LEN: u64 = 32;

/// A fixed array longer than the native serialization ceiling is oversized.
pub open spec fn spec_is_oversized(len: u64) -> bool {
    len > MAX_NATIVE_ARRAY_LEN
}

/// Decides whether a fixed-array length needs the big-array capability.
pub fn is_oversized_len(len: u64) -> (r: bool)
    ensures
        r == spec_is_oversized(len),
{
    len > MAX_NATIVE_ARRAY_LEN
}

/// Everything one run computes: the normalized schema, the render
/// models and entity-scoped errors of each category, and the file plan.
pub struct Generation {
    pub schema: Schema,
    pub accounts: Vec<EntityModel>,
    pub instructions: Vec<EntityModel>,
    pub types: Vec<EntityModel>,
    pub events: Vec<EntityModel>,
    pub account_errors: Vec<EntityError>,
    pub instruction_errors: Vec<EntityError>,
    pub type_errors: Vec<EntityError>,
    pub event_errors: Vec<EntityError>,
    pub plan: FilePlan,
}

/// Runs the whole pipeline on one schema text: normalize (current
/// encoding first, legacy as fallback), process each entity category,
/// and lay out the output tree. Schema-level failure aborts the run;
/// entity-scoped failures are reported beside the surviving models.
pub fn generate(schema_text: &str, output: &str, as_package: bool) -> (r: Result<
    Generation,
    GenError,
>)
    ensures
        r matches Ok(g) ==> {
            &&& (crate::normalize::canonical_of(schema_text@) == current_text_of(g.schema) || (
            crate::normalize::canonical_of(schema_text@) == legacy_text_of(g.schema)
                && legacy_discs_filled(g.schema)))
            &&& models_match(
                g.schema.accounts@,
                g.schema.accounts@.len() as int,
                g.accounts@,
                spec_type_table(g.schema.types@),
            )
            &&& errors_match(
                g.schema.accounts@,
                g.schema.accounts@.len() as int,
                g.account_errors@,
                spec_type_table(g.schema.types@),
            )
            &&& models_match(
                g.schema.instructions@,
                g.schema.instructions@.len() as int,
                g.instructions@,
                spec_type_table(g.schema.types@),
            )
            &&& errors_match(
                g.schema.instructions@,
                g.schema.instructions@.len() as int,
                g.instruction_errors@,
                spec_type_table(g.schema.types@),
            )
            &&& models_match(
                g.schema.types@,
                g.schema.types@.len() as int,
                g.types@,
                spec_type_table(g.schema.types@),
            )
            &&& errors_match(
                g.schema.types@,
                g.schema.types@.len() as int,
                g.type_errors@,
                spec_type_table(g.schema.types@),
            )
            &&& models_match(
                g.schema.events@,
                g.schema.events@.len() as int,
                g.events@,
                spec_type_table(g.schema.types@),
            )
            &&& errors_match(
                g.schema.events@,
                g.schema.events@.len() as int,
                g.event_errors@,
                spec_type_table(g.schema.types@),
            )
            &&& plan_matches(
                g.schema.program_name@,
                g.accounts@,
                g.instructions@,
                g.types@,
                g.events@,
                output@,
                as_package,
                g.plan,
            )
        },
        r matches Ok(g) ==> crate::normalize::schema_names_quote_free(g.schema),
        r matches Err(e) ==> e is SchemaParseError,
        (exists|sch: Schema|
            crate::normalize::schema_skeleton(sch) && (crate::normalize::canonical_of(
                schema_text@,
            ) == current_text_of(sch) || crate::normalize::canonical_of(schema_text@)
                == legacy_text_of(sch))) ==> r is Ok,
{
    let schema = load_schema(schema_text)?;
    let (accounts, account_errors) = process_accounts(&schema);
    let (instructions, instruction_errors) = process_instructions(&schema);
    let (types, type_errors) = process_types(&schema);
    let (events, event_errors) = process_events(&schema);
    let plan = assemble(
        schema.program_name.as_str(),
        &accounts,
        &instructions,
        &types,
        &events,
        output,
        as_package,
    );
    Ok(
        Generation {
            schema,
            accounts,
            instructions,
            types,
            events,
            account_errors,
            instruction_errors,
            type_errors,
            event_errors,
            plan,
        },
    )
}

/// Placeholder entry point for project scaffolding; intentionally not
/// part of the core engine.
#[allow(unused_variables)]
pub fn scaffold(output: String, decoders: String, data_source: String, metrics: String) -> (r:
    Result<(), GenError>)
    ensures
        r is Ok,
{
    Ok(())
}

} // verus!
