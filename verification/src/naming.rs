use vstd::prelude::*;

verus! {

// Case conversions used wherever an identifier crosses a naming boundary
// (file name, module name, type name, package name). They are carried out
// by the heck crate; each conversion is a pure function of the input
// characters, named here so that contracts can speak of it exactly.

pub uninterp spec fn snake_of(s: Seq<char>) -> Seq<char>;

pub uninterp spec fn kebab_of(s: Seq<char>) -> Seq<char>;

pub uninterp spec fn upper_camel_of(s: Seq<char>) -> Seq<char>;

/// Relies on heck::ToSnakeCase::to_snake_case for str: a deterministic
/// conversion of the input characters to snake_case.
#[verifier::external_body]
pub(crate) fn to_snake_case(s: &str) -> (r: String)
    ensures
        r@ == snake_of(s@),
{
    heck::ToSnakeCase::to_snake_case(s)
}

/// Relies on heck::ToKebabCase::to_kebab_case for str: a deterministic
/// conversion of the input characters to kebab-case.
#[verifier::external_body]
pub(crate) fn to_kebab_case(s: &str) -> (r: String)
    ensures
        r@ == kebab_of(s@),
{
    heck::ToKebabCase::to_kebab_case(s)
}

/// Relies on heck::ToUpperCamelCase::to_upper_camel_case for str: a
/// deterministic conversion of the input characters to UpperCamelCase.
#[verifier::external_body]
pub(crate) fn to_upper_camel_case(s: &str) -> (r: String)
    ensures
        r@ == upper_camel_of(s@),
{
    heck::ToUpperCamelCase::to_upper_camel_case(s)
}

/// The decoder struct name derived from a program name.
pub open spec fn decoder_name_of(program: Seq<char>) -> Seq<char> {
    upper_camel_of(program) + "Decoder"@
}

/// The aggregate account enum name derived from a program name.
pub open spec fn account_enum_name_of(program: Seq<char>) -> Seq<char> {
    upper_camel_of(program) + "Account"@
}

/// The aggregate instruction enum name derived from a program name.
pub open spec fn instruction_enum_name_of(program: Seq<char>) -> Seq<char> {
    upper_camel_of(program) + "Instruction"@
}

/// Names derived once from the program name and held immutably for the
/// duration of one generation run.
pub struct ProgramNamingContext {
    pub program_snake: String,
    pub decoder_name: String,
    pub decoder_name_kebab: String,
    pub account_enum_name: String,
    pub instruction_enum_name: String,
}

impl ProgramNamingContext {
    /// All five derived names agree with the naming spec functions.
    pub open spec fn wf(self, program: Seq<char>) -> bool {
        &&& self.program_snake@ == snake_of(program)
        &&& self.decoder_name@ == decoder_name_of(program)
        &&& self.decoder_name_kebab@ == kebab_of(program)
        &&& self.account_enum_name@ == account_enum_name_of(program)
        &&& self.instruction_enum_name@ == instruction_enum_name_of(program)
    }
}

/// Derives the run-wide naming context from the program name.
pub fn naming_context(program: &str) -> (r: ProgramNamingContext)
    ensures
        r.wf(program@),
{
    let camel = to_upper_camel_case(program);
    let decoder_name = camel.clone().concat("Decoder");
    let account_enum_name = camel.clone().concat("Account");
    let instruction_enum_name = camel.concat("Instruction");
    ProgramNamingContext {
        program_snake: to_snake_case(program),
        decoder_name,
        decoder_name_kebab: to_kebab_case(program),
        account_enum_name,
        instruction_enum_name,
    }
}

} // verus!
