use vstd::prelude::*;

use crate::ir::{EntityDecl, FieldDecl, PrimKind, Schema, TypeNode};
use crate::numtext::{dec_str, u64_to_string};

verus! {

broadcast use vstd::seq::axiom_seq_index_decreases, vstd::std_specs::vec::axiom_vec_decreases_to_view;

/// A name in quotes.
pub open spec fn quoted(s: Seq<char>) -> Seq<char> {
    "\""@ + s + "\""@
}

/// The schema token for one primitive kind.
pub open spec fn prim_token(k: PrimKind) -> Seq<char> {
    match k {
        PrimKind::U8 => "u8"@,
        PrimKind::U16 => "u16"@,
        PrimKind::U32 => "u32"@,
        PrimKind::U64 => "u64"@,
        PrimKind::U128 => "u128"@,
        PrimKind::I8 => "i8"@,
        PrimKind::I16 => "i16"@,
        PrimKind::I32 => "i32"@,
        PrimKind::I64 => "i64"@,
        PrimKind::I128 => "i128"@,
        PrimKind::Bool => "bool"@,
        PrimKind::Str => "string"@,
        PrimKind::Bytes => "bytes"@,
        PrimKind::Pubkey => "pubkey"@,
    }
}

/// The schema text of one type node.
pub open spec fn type_text(t: TypeNode) -> Seq<char>
    decreases t, 0int,
{
    match t {
        TypeNode::Primitive(k) => quoted(prim_token(k)),
        TypeNode::FixedArray(elem, len) => "{\"array\":["@ + type_text(*elem) + ","@ + dec_str(
            len as nat,
        ) + "]}"@,
        TypeNode::Vector(elem) => "{\"vec\":"@ + type_text(*elem) + "}"@,
        TypeNode::Opt(elem) => "{\"option\":"@ + type_text(*elem) + "}"@,
        TypeNode::Defined(name, args) => "{\"defined\":{\"name\":\""@ + name@
            + "\",\"generics\":["@ + type_list_text(args@, 0) + "]}}"@,
        TypeNode::Generic(param) => "{\"generic\":\""@ + param@ + "\"}"@,
    }
}

/// The comma-separated schema texts of the nodes from index `i` on.
pub open spec fn type_list_text(ts: Seq<TypeNode>, i: int) -> Seq<char>
    decreases ts, ts.len() - i,
{
    if i < 0 || i >= ts.len() {
        Seq::empty()
    } else if i == ts.len() - 1 {
        type_text(ts[i])
    } else {
        type_text(ts[i]) + ","@ + type_list_text(ts, i + 1)
    }
}

/// The schema text of one field declaration.
pub open spec fn field_text(f: FieldDecl) -> Seq<char> {
    "{\"name\":\""@ + f.name@ + "\",\"type\":"@ + type_text(f.ty) + "}"@
}

/// The comma-separated schema texts of the fields from index `i` on.
pub open spec fn field_list_text(fs: Seq<FieldDecl>, i: int) -> Seq<char>
    decreases fs.len() - i,
{
    if i < 0 || i >= fs.len() {
        Seq::empty()
    } else if i == fs.len() - 1 {
        field_text(fs[i])
    } else {
        field_text(fs[i]) + ","@ + field_list_text(fs, i + 1)
    }
}

/// The comma-separated quoted names from index `i` on.
pub open spec fn name_list_text(names: Seq<String>, i: int) -> Seq<char>
    decreases names.len() - i,
{
    if i < 0 || i >= names.len() {
        Seq::empty()
    } else if i == names.len() - 1 {
        quoted(names[i]@)
    } else {
        quoted(names[i]@) + ","@ + name_list_text(names, i + 1)
    }
}

/// The comma-separated decimal bytes from index `i` on.
pub open spec fn byte_list_text(b: Seq<u8>, i: int) -> Seq<char>
    decreases b.len() - i,
{
    if i < 0 || i >= b.len() {
        Seq::empty()
    } else if i == b.len() - 1 {
        dec_str(b[i] as nat)
    } else {
        dec_str(b[i] as nat) + ","@ + byte_list_text(b, i + 1)
    }
}

/// The schema text of one entity declaration. The current encoding
/// carries an explicit discriminator for accounts, instructions and
/// events; the legacy encoding, and type declarations, never do.
pub open spec fn entity_text(e: EntityDecl, with_disc: bool) -> Seq<char> {
    if with_disc {
        "{\"name\":\""@ + e.name@ + "\",\"discriminator\":["@ + byte_list_text(e.discriminator@, 0)
            + "],\"generics\":["@ + name_list_text(e.generics@, 0) + "],\"fields\":["@
            + field_list_text(e.fields@, 0) + "]}"@
    } else {
        "{\"name\":\""@ + e.name@ + "\",\"generics\":["@ + name_list_text(e.generics@, 0)
            + "],\"fields\":["@ + field_list_text(e.fields@, 0) + "]}"@
    }
}

/// The comma-separated schema texts of the entities from index `i` on.
pub open spec fn entity_list_text(es: Seq<EntityDecl>, i: int, with_disc: bool) -> Seq<char>
    decreases es.len() - i,
{
    if i < 0 || i >= es.len() {
        Seq::empty()
    } else if i == es.len() - 1 {
        entity_text(es[i], with_disc)
    } else {
        entity_text(es[i], with_disc) + ","@ + entity_list_text(es, i + 1, with_disc)
    }
}

/// The canonical current-encoding text of a schema.
pub open spec fn current_text_of(s: Schema) -> Seq<char> {
    "{\"metadata\":{\"name\":\""@ + s.program_name@ + "\"},\"accounts\":["@ + entity_list_text(
        s.accounts@,
        0,
        true,
    ) + "],\"instructions\":["@ + entity_list_text(s.instructions@, 0, true) + "],\"types\":["@
        + entity_list_text(s.types@, 0, false) + "],\"events\":["@ + entity_list_text(
        s.events@,
        0,
        true,
    ) + "]}"@
}

/// The canonical legacy-encoding text of a schema. The legacy encoding
/// has the program name at the top level and carries no discriminators.
pub open spec fn legacy_text_of(s: Schema) -> Seq<char> {
    "{\"name\":\""@ + s.program_name@ + "\",\"accounts\":["@ + entity_list_text(s.accounts@, 0, false)
        + "],\"instructions\":["@ + entity_list_text(s.instructions@, 0, false) + "],\"types\":["@
        + entity_list_text(s.types@, 0, false) + "],\"events\":["@ + entity_list_text(
        s.events@,
        0,
        false,
    ) + "]}"@
}

/// The schema token for one primitive kind.
pub fn prim_token_str(k: PrimKind) -> (r: &'static str)
    ensures
        r@ == prim_token(k),
{
    match k {
        PrimKind::U8 => "u8",
        PrimKind::U16 => "u16",
        PrimKind::U32 => "u32",
        PrimKind::U64 => "u64",
        PrimKind::U128 => "u128",
        PrimKind::I8 => "i8",
        PrimKind::I16 => "i16",
        PrimKind::I32 => "i32",
        PrimKind::I64 => "i64",
        PrimKind::I128 => "i128",
        PrimKind::Bool => "bool",
        PrimKind::Str => "string",
        PrimKind::Bytes => "bytes",
        PrimKind::Pubkey => "pubkey",
    }
}

/// No text is both a current-encoding schema and a legacy-encoding
/// schema: the two encodings differ from their third character on, so
/// the fallback order of the loader is a policy, never a tie-break.
pub proof fn lemma_encodings_disjoint(s1: Schema, s2: Schema)
    ensures
        current_text_of(s1) != legacy_text_of(s2),
{
    reveal_strlit("{\"metadata\":{\"name\":\"");
    reveal_strlit("{\"name\":\"");
    assert(current_text_of(s1)[2] == 'm');
    assert(legacy_text_of(s2)[2] == 'n');
}

fn render_type(t: &TypeNode) -> (r: String)
    ensures
        r@ == type_text(*t),
    decreases *t, 0int,
{
    match t {
        TypeNode::Primitive(k) => {
            let mut s = "\"".to_owned();
            s.append(prim_token_str(*k));
            s.append("\"");
            s
        },
        TypeNode::FixedArray(elem, len) => {
            let mut s = "{\"array\":[".to_owned();
            let inner = render_type(elem);
            s.append(inner.as_str());
            s.append(",");
            let num = u64_to_string(*len);
            s.append(num.as_str());
            s.append("]}");
            s
        },
        TypeNode::Vector(elem) => {
            let mut s = "{\"vec\":".to_owned();
            let inner = render_type(elem);
            s.append(inner.as_str());
            s.append("}");
            s
        },
        TypeNode::Opt(elem) => {
            let mut s = "{\"option\":".to_owned();
            let inner = render_type(elem);
            s.append(inner.as_str());
            s.append("}");
            s
        },
        TypeNode::Defined(name, args) => {
            let mut s = "{\"defined\":{\"name\":\"".to_owned();
            s.append(name.as_str());
            s.append("\",\"generics\":[");
            if args.len() > 0 {
                let list = render_type_list(args, 0);
                s.append(list.as_str());
            }
            s.append("]}}");
            proof {
                assert(s@ =~= type_text(*t));
            }
            s
        },
        TypeNode::Generic(param) => {
            let mut s = "{\"generic\":\"".to_owned();
            s.append(param.as_str());
            s.append("\"}");
            s
        },
    }
}

fn render_type_list(args: &Vec<TypeNode>, i: usize) -> (r: String)
    requires
        i < args@.len(),
    ensures
        r@ == type_list_text(args@, i as int),
    decreases *args, args@.len() - i,
{
    let n = args.len();
    let mut s = render_type(&args[i]);
    if i + 1 < n {
        s.append(",");
        let rest = render_type_list(args, i + 1);
        s.append(rest.as_str());
    }
    s
}

fn render_fields(fs: &Vec<FieldDecl>, i: usize) -> (r: String)
    requires
        i < fs@.len(),
    ensures
        r@ == field_list_text(fs@, i as int),
    decreases fs@.len() - i,
{
    let n = fs.len();
    let mut s = "{\"name\":\"".to_owned();
    s.append(fs[i].name.as_str());
    s.append("\",\"type\":");
    let ty = render_type(&fs[i].ty);
    s.append(ty.as_str());
    s.append("}");
    if i + 1 < n {
        s.append(",");
        let rest = render_fields(fs, i + 1);
        s.append(rest.as_str());
    }
    s
}

fn render_names(names: &Vec<String>, i: usize) -> (r: String)
    requires
        i < names@.len(),
    ensures
        r@ == name_list_text(names@, i as int),
    decreases names@.len() - i,
{
    let n = names.len();
    let mut s = "\"".to_owned();
    s.append(names[i].as_str());
    s.append("\"");
    if i + 1 < n {
        s.append(",");
        let rest = render_names(names, i + 1);
        s.append(rest.as_str());
    }
    s
}

fn render_bytes(b: &Vec<u8>, i: usize) -> (r: String)
    requires
        i < b@.len(),
    ensures
        r@ == byte_list_text(b@, i as int),
    decreases b@.len() - i,
{
    let n = b.len();
    let mut s = u64_to_string(b[i] as u64);
    if i + 1 < n {
        s.append(",");
        let rest = render_bytes(b, i + 1);
        s.append(rest.as_str());
    }
    s
}

fn render_entity(e: &EntityDecl, with_disc: bool) -> (r: String)
    ensures
        r@ == entity_text(*e, with_disc),
{
    let mut s = "{\"name\":\"".to_owned();
    s.append(e.name.as_str());
    if with_disc {
        s.append("\",\"discriminator\":[");
        if e.discriminator.len() > 0 {
            let bs = render_bytes(&e.discriminator, 0);
            s.append(bs.as_str());
        }
        s.append("],\"generics\":[");
    } else {
        s.append("\",\"generics\":[");
    }
    if e.generics.len() > 0 {
        let gs = render_names(&e.generics, 0);
        s.append(gs.as_str());
    }
    s.append("],\"fields\":[");
    if e.fields.len() > 0 {
        let fs = render_fields(&e.fields, 0);
        s.append(fs.as_str());
    }
    s.append("]}");
    proof {
        assert(s@ =~= entity_text(*e, with_disc));
    }
    s
}

fn render_entities(es: &Vec<EntityDecl>, i: usize, with_disc: bool) -> (r: String)
    requires
        i < es@.len(),
    ensures
        r@ == entity_list_text(es@, i as int, with_disc),
    decreases es@.len() - i,
{
    let n = es.len();
    let mut s = render_entity(&es[i], with_disc);
    if i + 1 < n {
        s.append(",");
        let rest = render_entities(es, i + 1, with_disc);
        s.append(rest.as_str());
    }
    s
}

/// Renders a schema in the canonical current encoding.
pub fn render_current(s: &Schema) -> (r: String)
    ensures
        r@ == current_text_of(*s),
{
    let mut t = "{\"metadata\":{\"name\":\"".to_owned();
    t.append(s.program_name.as_str());
    t.append("\"},\"accounts\":[");
    if s.accounts.len() > 0 {
        let es = render_entities(&s.accounts, 0, true);
        t.append(es.as_str());
    }
    t.append("],\"instructions\":[");
    if s.instructions.len() > 0 {
        let es = render_entities(&s.instructions, 0, true);
        t.append(es.as_str());
    }
    t.append("],\"types\":[");
    if s.types.len() > 0 {
        let es = render_entities(&s.types, 0, false);
        t.append(es.as_str());
    }
    t.append("],\"events\":[");
    if s.events.len() > 0 {
        let es = render_entities(&s.events, 0, true);
        t.append(es.as_str());
    }
    t.append("]}");
    proof {
        assert(t@ =~= current_text_of(*s));
    }
    t
}

/// Renders a schema in the canonical legacy encoding.
pub fn render_legacy(s: &Schema) -> (r: String)
    ensures
        r@ == legacy_text_of(*s),
{
    let mut t = "{\"name\":\"".to_owned();
    t.append(s.program_name.as_str());
    t.append("\",\"accounts\":[");
    if s.accounts.len() > 0 {
        let es = render_entities(&s.accounts, 0, false);
        t.append(es.as_str());
    }
    t.append("],\"instructions\":[");
    if s.instructions.len() > 0 {
        let es = render_entities(&s.instructions, 0, false);
        t.append(es.as_str());
    }
    t.append("],\"types\":[");
    if s.types.len() > 0 {
        let es = render_entities(&s.types, 0, false);
        t.append(es.as_str());
    }
    t.append("],\"events\":[");
    if s.events.len() > 0 {
        let es = render_entities(&s.events, 0, false);
        t.append(es.as_str());
    }
    t.append("]}");
    proof {
        assert(t@ =~= legacy_text_of(*s));
    }
    t
}

} // verus!
