use vstd::prelude::*;

use crate::numtext::{hex_from, hex_of};
use crate::process::EntityModel;

verus! {

/// The generic parameter list of a generated struct, empty when the
/// entity declares no generics.
pub open spec fn generics_decl_text(gs: Seq<String>, i: int) -> Seq<char>
    decreases gs.len() - i,
{
    if i < 0 || i >= gs.len() {
        Seq::empty()
    } else if i == gs.len() - 1 {
        gs[i]@
    } else {
        gs[i]@ + ", "@ + generics_decl_text(gs, i + 1)
    }
}

/// One generated field line per field, four-space indented.
pub open spec fn field_lines_text(fs: Seq<crate::process::FieldModel>, i: int) -> Seq<char>
    decreases fs.len() - i,
{
    if i < 0 || i >= fs.len() {
        Seq::empty()
    } else {
        "    pub "@ + fs[i].name@ + ": "@ + fs[i].type_expression@ + ",\n"@ + field_lines_text(
            fs,
            i + 1,
        )
    }
}

/// The generated source file of one entity: the decoder imports, the
/// discriminator attribute where the entity carries one, and the struct
/// with one line per field.
pub open spec fn entity_file_text(m: EntityModel, with_disc: bool) -> Seq<char> {
    let head = "use carbon_core::{borsh, CarbonDeserialize};\n\n#[derive(CarbonDeserialize, Debug)]\n"@;
    let disc = if with_disc && m.discriminator@.len() > 0 {
        "#[carbon(discriminator = \"0x"@ + hex_of(m.discriminator@, 0) + "\")]\n"@
    } else {
        Seq::empty()
    };
    let gen = if m.generics@.len() > 0 {
        "<"@ + generics_decl_text(m.generics@, 0) + ">"@
    } else {
        Seq::empty()
    };
    head + disc + "pub struct "@ + m.name@ + gen + " {\n"@ + field_lines_text(m.fields@, 0)
        + "}\n"@
}

/// One aggregator line pair per entity, re-exporting its module.
pub open spec fn mod_lines_text(ms: Seq<EntityModel>, i: int) -> Seq<char>
    decreases ms.len() - i,
{
    if i < 0 || i >= ms.len() {
        Seq::empty()
    } else {
        "pub mod "@ + ms[i].module_name@ + ";\npub use "@ + ms[i].module_name@ + "::*;\n"@
            + mod_lines_text(ms, i + 1)
    }
}

/// The big-array capability import, declared at most once per aggregator.
pub open spec fn big_array_import_text() -> Seq<char> {
    "use serde_big_array::BigArray;\n"@
}

/// The types aggregator: the re-export lines, and the big-array import
/// exactly once when some type needs it, never otherwise.
pub open spec fn types_mod_text(ms: Seq<EntityModel>, needs_big_array: bool) -> Seq<char> {
    if needs_big_array {
        mod_lines_text(ms, 0) + big_array_import_text()
    } else {
        mod_lines_text(ms, 0)
    }
}

/// One enum variant line per entity.
pub open spec fn variant_lines_text(ms: Seq<EntityModel>, i: int) -> Seq<char>
    decreases ms.len() - i,
{
    if i < 0 || i >= ms.len() {
        Seq::empty()
    } else {
        "    "@ + ms[i].name@ + "("@ + ms[i].name@ + "),\n"@ + variant_lines_text(ms, i + 1)
    }
}

/// The accounts aggregator: re-export lines and the aggregate account
/// enum, one variant per account in declaration order.
pub open spec fn accounts_mod_text(ms: Seq<EntityModel>, account_enum_name: Seq<char>) -> Seq<char> {
    mod_lines_text(ms, 0) + "\npub enum "@ + account_enum_name + " {\n"@ + variant_lines_text(
        ms,
        0,
    ) + "}\n"@
}

/// The instructions aggregator: instructions and events share one
/// directory, so both re-export lists appear here, followed by the
/// aggregate instruction enum in declaration order.
pub open spec fn instructions_mod_text(
    instructions: Seq<EntityModel>,
    events: Seq<EntityModel>,
    instruction_enum_name: Seq<char>,
) -> Seq<char> {
    mod_lines_text(instructions, 0) + mod_lines_text(events, 0) + "\npub enum "@
        + instruction_enum_name + " {\n"@ + variant_lines_text(instructions, 0) + "}\n"@
}

/// The entry-point file: the decoder's root type and the module
/// re-exports.
pub open spec fn entry_point_text(decoder_name: Seq<char>) -> Seq<char> {
    "pub struct "@ + decoder_name + ";\npub mod accounts;\npub mod instructions;\npub mod types;"@
}

/// The package manifest, with the big-array dependency line present
/// exactly when oversized-array support was required.
pub open spec fn manifest_text(decoder_name_kebab: Seq<char>, needs_big_array: bool) -> Seq<char> {
    let head = "[package]\nname = \""@ + decoder_name_kebab
        + "-decoder\"\nversion = \"0.6.1\"\nedition = { workspace = true }\n\n[lib]\ncrate-type = [\"rlib\"]\n\n[dependencies]\ncarbon-core = { workspace = true }\ncarbon-proc-macros = { workspace = true }\ncarbon-macros = { workspace = true }\nsolana-sdk = { workspace = true }\nserde = { workspace = true }\n"@;
    if needs_big_array {
        head + "serde-big-array = { workspace = true }\n"@
    } else {
        head
    }
}

fn render_generics_decl(gs: &Vec<String>, i: usize) -> (r: String)
    requires
        i < gs@.len(),
    ensures
        r@ == generics_decl_text(gs@, i as int),
    decreases gs@.len() - i,
{
    let n = gs.len();
    let mut s = gs[i].clone();
    if i + 1 < n {
        s.append(", ");
        let rest = render_generics_decl(gs, i + 1);
        s.append(rest.as_str());
    }
    s
}

fn render_field_lines(fs: &Vec<crate::process::FieldModel>, i: usize) -> (r: String)
    requires
        i <= fs@.len(),
    ensures
        r@ == field_lines_text(fs@, i as int),
    decreases fs@.len() - i,
{
    if i == fs.len() {
        String::new()
    } else {
        let mut s = "    pub ".to_owned();
        s.append(fs[i].name.as_str());
        s.append(": ");
        s.append(fs[i].type_expression.as_str());
        s.append(",\n");
        let rest = render_field_lines(fs, i + 1);
        s.append(rest.as_str());
        s
    }
}

/// Renders the source file of one entity.
pub fn render_entity_file(m: &EntityModel, with_disc: bool) -> (r: String)
    ensures
        r@ == entity_file_text(*m, with_disc),
{
    let mut s = "use carbon_core::{borsh, CarbonDeserialize};\n\n#[derive(CarbonDeserialize, Debug)]\n".to_owned();
    if with_disc && m.discriminator.len() > 0 {
        s.append("#[carbon(discriminator = \"0x");
        let hx = hex_from(&m.discriminator, 0);
        s.append(hx.as_str());
        s.append("\")]\n");
    }
    s.append("pub struct ");
    s.append(m.name.as_str());
    if m.generics.len() > 0 {
        s.append("<");
        let gs = render_generics_decl(&m.generics, 0);
        s.append(gs.as_str());
        s.append(">");
    }
    s.append(" {\n");
    let fl = render_field_lines(&m.fields, 0);
    s.append(fl.as_str());
    s.append("}\n");
    proof {
        assert(s@ =~= entity_file_text(*m, with_disc));
    }
    s
}

fn render_mod_lines(ms: &Vec<EntityModel>, i: usize) -> (r: String)
    requires
        i <= ms@.len(),
    ensures
        r@ == mod_lines_text(ms@, i as int),
    decreases ms@.len() - i,
{
    if i == ms.len() {
        String::new()
    } else {
        let mut s = "pub mod ".to_owned();
        s.append(ms[i].module_name.as_str());
        s.append(";\npub use ");
        s.append(ms[i].module_name.as_str());
        s.append("::*;\n");
        let rest = render_mod_lines(ms, i + 1);
        s.append(rest.as_str());
        s
    }
}

fn render_variant_lines(ms: &Vec<EntityModel>, i: usize) -> (r: String)
    requires
        i <= ms@.len(),
    ensures
        r@ == variant_lines_text(ms@, i as int),
    decreases ms@.len() - i,
{
    if i == ms.len() {
        String::new()
    } else {
        let mut s = "    ".to_owned();
        s.append(ms[i].name.as_str());
        s.append("(");
        s.append(ms[i].name.as_str());
        s.append("),\n");
        let rest = render_variant_lines(ms, i + 1);
        s.append(rest.as_str());
        s
    }
}

/// Renders the types aggregator.
pub fn render_types_mod(ms: &Vec<EntityModel>, needs_big_array: bool) -> (r: String)
    ensures
        r@ == types_mod_text(ms@, needs_big_array),
{
    let mut s = render_mod_lines(ms, 0);
    if needs_big_array {
        s.append("use serde_big_array::BigArray;\n");
    }
    s
}

/// Renders the accounts aggregator.
pub fn render_accounts_mod(ms: &Vec<EntityModel>, account_enum_name: &str) -> (r: String)
    ensures
        r@ == accounts_mod_text(ms@, account_enum_name@),
{
    let mut s = render_mod_lines(ms, 0);
    s.append("\npub enum ");
    s.append(account_enum_name);
    s.append(" {\n");
    let vl = render_variant_lines(ms, 0);
    s.append(vl.as_str());
    s.append("}\n");
    s
}

/// Renders the shared instructions-and-events aggregator.
pub fn render_instructions_mod(
    instructions: &Vec<EntityModel>,
    events: &Vec<EntityModel>,
    instruction_enum_name: &str,
) -> (r: String)
    ensures
        r@ == instructions_mod_text(instructions@, events@, instruction_enum_name@),
{
    let mut s = render_mod_lines(instructions, 0);
    let ev = render_mod_lines(events, 0);
    s.append(ev.as_str());
    s.append("\npub enum ");
    s.append(instruction_enum_name);
    s.append(" {\n");
    let vl = render_variant_lines(instructions, 0);
    s.append(vl.as_str());
    s.append("}\n");
    s
}

/// Renders the entry-point file.
pub fn render_entry_point(decoder_name: &str) -> (r: String)
    ensures
        r@ == entry_point_text(decoder_name@),
{
    let mut s = "pub struct ".to_owned();
    s.append(decoder_name);
    s.append(";\npub mod accounts;\npub mod instructions;\npub mod types;");
    s
}

/// Renders the package manifest.
pub fn render_manifest(decoder_name_kebab: &str, needs_big_array: bool) -> (r: String)
    ensures
        r@ == manifest_text(decoder_name_kebab@, needs_big_array),
{
    let mut s = "[package]\nname = \"".to_owned();
    s.append(decoder_name_kebab);
    s.append(
        "-decoder\"\nversion = \"0.6.1\"\nedition = { workspace = true }\n\n[lib]\ncrate-type = [\"rlib\"]\n\n[dependencies]\ncarbon-core = { workspace = true }\ncarbon-proc-macros = { workspace = true }\ncarbon-macros = { workspace = true }\nsolana-sdk = { workspace = true }\nserde = { workspace = true }\n",
    );
    if needs_big_array {
        s.append("serde-big-array = { workspace = true }\n");
    }
    s
}

/// The big-array import appears in the types aggregator exactly when a
/// processed type needs it: once at the end when the flag is set, and
/// the aggregator is exactly the re-export lines otherwise.
pub proof fn lemma_big_array_import_once(ms: Seq<EntityModel>)
    ensures
        types_mod_text(ms, true) == mod_lines_text(ms, 0) + big_array_import_text(),
        types_mod_text(ms, false) == mod_lines_text(ms, 0),
{
}

} // verus!
