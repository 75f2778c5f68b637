use vstd::prelude::*;

use crate::encode::{current_text_of, legacy_text_of, render_current, render_legacy};
use crate::errors::GenError;
use crate::ir::{EntityDecl, FieldDecl, PrimKind, Schema, TypeNode};

verus! {

// The two schema encodings are parsed by recursive descent. The
// loader first removes insignificant whitespace (all whitespace outside
// string literals), so pretty-printed and indented schema files are
// accepted. What remains is deliberately a canonical text: fixed key
// order — the order the publishing tools emit — and no string escapes,
// so that every schema has exactly one canonical text per encoding.
// The parsed schema is accepted only after rendering it back in the
// canonical encoding and comparing with the stripped input, so
// acceptance means the input is, up to whitespace, exactly the
// canonical text of the returned schema.

/// A character the loader treats as insignificant outside strings.
pub open spec fn is_ws(c: char) -> bool {
    c == ' ' || c == '\n' || c == '\t' || c == '\r'
}

/// The text from index `i` on with whitespace outside string literals
/// removed; `in_str` says whether index `i` lies inside a string.
pub open spec fn strip_ws_from(s: Seq<char>, i: int, in_str: bool) -> Seq<char>
    decreases s.len() - i,
{
    if i < 0 || i >= s.len() {
        Seq::empty()
    } else if !in_str && is_ws(s[i]) {
        strip_ws_from(s, i + 1, in_str)
    } else if s[i] == '"' {
        seq!['"'] + strip_ws_from(s, i + 1, !in_str)
    } else {
        seq![s[i]] + strip_ws_from(s, i + 1, in_str)
    }
}

/// The canonical form of an input text: every whitespace character
/// outside string literals removed, everything else kept in order.
pub open spec fn canonical_of(s: Seq<char>) -> Seq<char> {
    strip_ws_from(s, 0, false)
}

/// Stripping is the identity on text that holds no whitespace at all,
/// so the exact canonical text of a schema is always among the accepted
/// spellings.
pub proof fn lemma_canonical_of_ws_free(s: Seq<char>)
    requires
        forall|j: int| 0 <= j < s.len() ==> !is_ws(#[trigger] s[j]),
    ensures
        canonical_of(s) == s,
{
    lemma_strip_ws_id(s, 0, false);
    assert(s.subrange(0, s.len() as int) =~= s);
}

proof fn lemma_strip_ws_id(s: Seq<char>, i: int, in_str: bool)
    requires
        0 <= i <= s.len(),
        forall|j: int| 0 <= j < s.len() ==> !is_ws(#[trigger] s[j]),
    ensures
        strip_ws_from(s, i, in_str) == s.subrange(i, s.len() as int),
    decreases s.len() - i,
{
    if i < s.len() {
        if s[i] == '"' {
            lemma_strip_ws_id(s, i + 1, !in_str);
        } else {
            lemma_strip_ws_id(s, i + 1, in_str);
        }
        assert(strip_ws_from(s, i, in_str) =~= s.subrange(i, s.len() as int));
    } else {
        assert(strip_ws_from(s, i, in_str) =~= s.subrange(i, s.len() as int));
    }
}

fn is_ws_char(c: char) -> (r: bool)
    ensures
        r == is_ws(c),
{
    c == ' ' || c == '\n' || c == '\t' || c == '\r'
}

/// Removes every whitespace character that lies outside a string
/// literal, keeping everything else in order.
pub fn strip_whitespace(s: &str) -> (r: String)
    ensures
        r@ == canonical_of(s@),
{
    let n = s.unicode_len();
    let mut out = String::new();
    let mut in_str = false;
    let mut i: usize = 0;
    while i < n
        invariant
            i <= n,
            n == s@.len(),
            out@ + strip_ws_from(s@, i as int, in_str) == canonical_of(s@),
        decreases n - i,
    {
        let c = s.get_char(i);
        if in_str || !is_ws_char(c) {
            let piece = s.substring_char(i, i + 1);
            proof {
                assert(piece@ =~= seq![s@[i as int]]);
            }
            out.append(piece);
            if c == '"' {
                in_str = !in_str;
            }
            proof {
                assert(out@ + strip_ws_from(s@, i + 1, in_str) =~= canonical_of(s@));
            }
        }
        i = i + 1;
    }
    out
}

/// The legacy discriminator rule: the legacy encoding carries no
/// explicit discriminator, so the tag is derived from the entity name as
/// its first eight character codes, zero-padded.
pub open spec fn legacy_disc_of(name: Seq<char>) -> Seq<u8> {
    Seq::new(
        8,
        |i: int|
            if 0 <= i < name.len() && (name[i] as u32) < 256 {
                (name[i] as u32) as u8
            } else {
                0u8
            },
    )
}

/// Derives the legacy discriminator from an entity name.
pub fn legacy_discriminator(name: &str) -> (r: Vec<u8>)
    ensures
        r@ == legacy_disc_of(name@),
{
    let n = name.unicode_len();
    let mut r: Vec<u8> = Vec::new();
    let mut i: usize = 0;
    while i < 8
        invariant
            i <= 8,
            n == name@.len(),
            r@.len() == i,
            forall|j: int| 0 <= j < i ==> r@[j] == legacy_disc_of(name@)[j],
        decreases 8 - i,
    {
        let b: u8 = if i < n {
            let code = name.get_char(i) as u32;
            if code < 256 {
                code as u8
            } else {
                0
            }
        } else {
            0
        };
        r.push(b);
        i = i + 1;
    }
    proof {
        assert(r@ =~= legacy_disc_of(name@));
    }
    r
}

fn expect_lit(s: &str, n: usize, pos: usize, lit: &str) -> (r: Result<usize, usize>)
    requires
        n == s@.len(),
        pos <= n,
    ensures
        r matches Ok(p) ==> pos < p <= n && p == pos + lit@.len() && s@.subrange(
            pos as int,
            p as int,
        ) == lit@,
        (r is Ok) == (lit@.len() > 0 && pos + lit@.len() <= n && s@.subrange(
            pos as int,
            pos + lit@.len(),
        ) == lit@),
{
    let ln = lit.unicode_len();
    if ln == 0 || n - pos < ln {
        return Err(pos);
    }
    let mut j: usize = 0;
    while j < ln
        invariant
            j <= ln,
            ln == lit@.len(),
            n == s@.len(),
            pos + ln <= n,
            forall|m: int| 0 <= m < j ==> s@[pos + m] == lit@[m],
        decreases ln - j,
    {
        if s.get_char(pos + j) != lit.get_char(j) {
            proof {
                if s@.subrange(pos as int, pos + ln) == lit@ {
                    assert(s@.subrange(pos as int, pos + ln)[j as int] == s@[pos + j]);
                    assert(false);
                }
            }
            return Err(pos + j);
        }
        j = j + 1;
    }
    proof {
        assert(s@.subrange(pos as int, pos + ln) =~= lit@);
    }
    Ok(pos + ln)
}

/// Reads characters up to the next quote, consuming the quote too.
/// Succeeds exactly when a quote occurs at or after `pos`, and returns
/// the characters before the first such quote.
fn parse_string_body(s: &str, n: usize, pos: usize) -> (r: Result<(String, usize), usize>)
    requires
        n == s@.len(),
        pos <= n,
    ensures
        r matches Ok(v) ==> pos < v.1 <= n && s@[v.1 - 1] == '"' && v.0@ == s@.subrange(
            pos as int,
            v.1 - 1,
        ) && (forall|m: int| pos <= m < v.1 - 1 ==> s@[m] != '"'),
        (r is Ok) == (exists|j: int| pos <= j < n && s@[j] == '"'),
{
    let mut j: usize = pos;
    while j < n && s.get_char(j) != '"'
        invariant
            pos <= j <= n,
            n == s@.len(),
            forall|m: int| pos <= m < j ==> s@[m] != '"',
        decreases n - j,
    {
        j = j + 1;
    }
    if j == n {
        return Err(j);
    }
    let content = s.substring_char(pos, j).to_owned();
    Ok((content, j + 1))
}

fn digit_at(s: &str, n: usize, j: usize) -> (r: bool)
    requires
        n == s@.len(),
        j < n,
    ensures
        r == (48 <= s@[j as int] as u32 <= 57),
{
    let code = s.get_char(j) as u32;
    48 <= code && code <= 57
}

fn parse_u64(s: &str, n: usize, pos: usize) -> (r: Result<(u64, usize), usize>)
    requires
        n == s@.len(),
        pos <= n,
    ensures
        r matches Ok(v) ==> pos < v.1 <= n,
{
    let mut j: usize = pos;
    let mut v: u64 = 0;
    while j < n && digit_at(s, n, j)
        invariant
            pos <= j <= n,
            n == s@.len(),
        decreases n - j,
    {
        let code = s.get_char(j) as u32;
        let d = (code - 48) as u64;
        v = match v.checked_mul(10) {
            Some(m) => match m.checked_add(d) {
                Some(a) => a,
                None => {
                    return Err(j);
                },
            },
            None => {
                return Err(j);
            },
        };
        j = j + 1;
    }
    if j == pos {
        return Err(pos);
    }
    Ok((v, j))
}

fn prim_of_token(tok: &String) -> (r: Option<PrimKind>) {
    let t = tok.as_str();
    if t == "u8" {
        Some(PrimKind::U8)
    } else if t == "u16" {
        Some(PrimKind::U16)
    } else if t == "u32" {
        Some(PrimKind::U32)
    } else if t == "u64" {
        Some(PrimKind::U64)
    } else if t == "u128" {
        Some(PrimKind::U128)
    } else if t == "i8" {
        Some(PrimKind::I8)
    } else if t == "i16" {
        Some(PrimKind::I16)
    } else if t == "i32" {
        Some(PrimKind::I32)
    } else if t == "i64" {
        Some(PrimKind::I64)
    } else if t == "i128" {
        Some(PrimKind::I128)
    } else if t == "bool" {
        Some(PrimKind::Bool)
    } else if t == "string" {
        Some(PrimKind::Str)
    } else if t == "bytes" {
        Some(PrimKind::Bytes)
    } else if t == "pubkey" {
        Some(PrimKind::Pubkey)
    } else {
        None
    }
}

fn parse_type(s: &str, n: usize, pos: usize) -> (r: Result<(TypeNode, usize), usize>)
    requires
        n == s@.len(),
        pos <= n,
    ensures
        r matches Ok(v) ==> pos < v.1 <= n,
    decreases n - pos, 0int,
{
    if pos < n && s.get_char(pos) == '"' {
        let (tok, p) = parse_string_body(s, n, pos + 1)?;
        match prim_of_token(&tok) {
            Some(k) => Ok((TypeNode::Primitive(k), p)),
            None => Err(pos),
        }
    } else if let Ok(p) = expect_lit(s, n, pos, "{\"array\":[") {
        let (elem, p2) = parse_type(s, n, p)?;
        let p3 = expect_lit(s, n, p2, ",")?;
        let (len, p4) = parse_u64(s, n, p3)?;
        let p5 = expect_lit(s, n, p4, "]}")?;
        Ok((TypeNode::FixedArray(Box::new(elem), len), p5))
    } else if let Ok(p) = expect_lit(s, n, pos, "{\"vec\":") {
        let (elem, p2) = parse_type(s, n, p)?;
        let p3 = expect_lit(s, n, p2, "}")?;
        Ok((TypeNode::Vector(Box::new(elem)), p3))
    } else if let Ok(p) = expect_lit(s, n, pos, "{\"option\":") {
        let (elem, p2) = parse_type(s, n, p)?;
        let p3 = expect_lit(s, n, p2, "}")?;
        Ok((TypeNode::Opt(Box::new(elem)), p3))
    } else if let Ok(p) = expect_lit(s, n, pos, "{\"defined\":{\"name\":\"") {
        let (name, p2) = parse_string_body(s, n, p)?;
        let p3 = expect_lit(s, n, p2, ",\"generics\":[")?;
        if let Ok(p4) = expect_lit(s, n, p3, "]}}") {
            Ok((TypeNode::Defined(name, Vec::new()), p4))
        } else {
            let (args, p4) = parse_type_list(s, n, p3)?;
            let p5 = expect_lit(s, n, p4, "]}}")?;
            Ok((TypeNode::Defined(name, args), p5))
        }
    } else if let Ok(p) = expect_lit(s, n, pos, "{\"generic\":\"") {
        let (name, p2) = parse_string_body(s, n, p)?;
        let p3 = expect_lit(s, n, p2, "}")?;
        Ok((TypeNode::Generic(name), p3))
    } else {
        Err(pos)
    }
}

fn parse_type_list(s: &str, n: usize, pos: usize) -> (r: Result<(Vec<TypeNode>, usize), usize>)
    requires
        n == s@.len(),
        pos <= n,
    ensures
        r matches Ok(v) ==> pos < v.1 <= n,
    decreases n - pos, 1int,
{
    let (ty, p) = parse_type(s, n, pos)?;
    if let Ok(p2) = expect_lit(s, n, p, ",") {
        let (mut rest, p3) = parse_type_list(s, n, p2)?;
        rest.insert(0, ty);
        Ok((rest, p3))
    } else {
        let mut one: Vec<TypeNode> = Vec::new();
        one.push(ty);
        Ok((one, p))
    }
}

fn parse_field(s: &str, n: usize, pos: usize) -> (r: Result<(FieldDecl, usize), usize>)
    requires
        n == s@.len(),
        pos <= n,
    ensures
        r matches Ok(v) ==> pos < v.1 <= n && quote_free(v.0.name@),
{
    let p = expect_lit(s, n, pos, "{\"name\":\"")?;
    let (name, p2) = parse_string_body(s, n, p)?;
    proof {
        assert forall|i: int| 0 <= i < name@.len() implies name@[i] != '"' by {
            assert(name@[i] == s@[p + i]);
        }
    }
    let p3 = expect_lit(s, n, p2, ",\"type\":")?;
    let (ty, p4) = parse_type(s, n, p3)?;
    let p5 = expect_lit(s, n, p4, "}")?;
    Ok((FieldDecl { name, ty }, p5))
}

fn parse_field_list(s: &str, n: usize, pos: usize) -> (r: Result<(Vec<FieldDecl>, usize), usize>)
    requires
        n == s@.len(),
        pos <= n,
    ensures
        r matches Ok(v) ==> pos < v.1 <= n,
    decreases n - pos,
{
    let (f, p) = parse_field(s, n, pos)?;
    if let Ok(p2) = expect_lit(s, n, p, ",") {
        let (mut rest, p3) = parse_field_list(s, n, p2)?;
        rest.insert(0, f);
        Ok((rest, p3))
    } else {
        let mut one: Vec<FieldDecl> = Vec::new();
        one.push(f);
        Ok((one, p))
    }
}

fn parse_name_list(s: &str, n: usize, pos: usize) -> (r: Result<(Vec<String>, usize), usize>)
    requires
        n == s@.len(),
        pos <= n,
    ensures
        r matches Ok(v) ==> pos < v.1 <= n,
    decreases n - pos,
{
    let p = expect_lit(s, n, pos, "\"")?;
    let (name, p2) = parse_string_body(s, n, p)?;
    if let Ok(p3) = expect_lit(s, n, p2, ",") {
        let (mut rest, p4) = parse_name_list(s, n, p3)?;
        rest.insert(0, name);
        Ok((rest, p4))
    } else {
        let mut one: Vec<String> = Vec::new();
        one.push(name);
        Ok((one, p2))
    }
}

fn parse_byte_list(s: &str, n: usize, pos: usize) -> (r: Result<(Vec<u8>, usize), usize>)
    requires
        n == s@.len(),
        pos <= n,
    ensures
        r matches Ok(v) ==> pos < v.1 <= n,
    decreases n - pos,
{
    let (v, p) = parse_u64(s, n, pos)?;
    if v > 255 {
        return Err(pos);
    }
    let b = v as u8;
    if let Ok(p2) = expect_lit(s, n, p, ",") {
        let (mut rest, p3) = parse_byte_list(s, n, p2)?;
        rest.insert(0, b);
        Ok((rest, p3))
    } else {
        let mut one: Vec<u8> = Vec::new();
        one.push(b);
        Ok((one, p))
    }
}

fn parse_entity(s: &str, n: usize, pos: usize, with_disc: bool) -> (r: Result<
    (EntityDecl, usize),
    usize,
>)
    requires
        n == s@.len(),
        pos <= n,
    ensures
        r matches Ok(v) ==> pos < v.1 <= n && quote_free(v.0.name@),
{
    let p = expect_lit(s, n, pos, "{\"name\":\"")?;
    let (name, p2) = parse_string_body(s, n, p)?;
    proof {
        assert forall|i: int| 0 <= i < name@.len() implies name@[i] != '"' by {
            assert(name@[i] == s@[p + i]);
        }
    }
    let mut disc: Vec<u8> = Vec::new();
    let mut cur: usize = p2;
    if with_disc {
        let p3 = expect_lit(s, n, cur, ",\"discriminator\":[")?;
        if let Ok(p4) = expect_lit(s, n, p3, "]") {
            cur = p4;
        } else {
            let (bytes, p4) = parse_byte_list(s, n, p3)?;
            disc = bytes;
            cur = expect_lit(s, n, p4, "]")?;
        }
    }
    let p5 = expect_lit(s, n, cur, ",\"generics\":[")?;
    let mut generics: Vec<String> = Vec::new();
    let mut cur2: usize = p5;
    if let Ok(p6) = expect_lit(s, n, p5, "]") {
        cur2 = p6;
    } else {
        let (names, p6) = parse_name_list(s, n, p5)?;
        generics = names;
        cur2 = expect_lit(s, n, p6, "]")?;
    }
    let p7 = expect_lit(s, n, cur2, ",\"fields\":[")?;
    if let Ok(p8) = expect_lit(s, n, p7, "]}") {
        Ok((EntityDecl { name, discriminator: disc, generics, fields: Vec::new() }, p8))
    } else {
        let (fields, p8) = parse_field_list(s, n, p7)?;
        let p9 = expect_lit(s, n, p8, "]}")?;
        Ok((EntityDecl { name, discriminator: disc, generics, fields }, p9))
    }
}

fn parse_entity_list(s: &str, n: usize, pos: usize, with_disc: bool) -> (r: Result<
    (Vec<EntityDecl>, usize),
    usize,
>)
    requires
        n == s@.len(),
        pos <= n,
    ensures
        r matches Ok(v) ==> pos < v.1 <= n && names_quote_free(v.0@),
    decreases n - pos,
{
    let (e, p) = parse_entity(s, n, pos, with_disc)?;
    if let Ok(p2) = expect_lit(s, n, p, ",") {
        let (mut rest, p3) = parse_entity_list(s, n, p2, with_disc)?;
        let ghost rest0 = rest@;
        rest.insert(0, e);
        proof {
            assert forall|i: int| 0 <= i < rest@.len() implies quote_free(
                (#[trigger] rest@[i]).name@,
            ) by {
                if i == 0 {
                    assert(rest@[0] == e);
                } else {
                    assert(rest@[i] == rest0[i - 1]);
                }
            }
        }
        Ok((rest, p3))
    } else {
        let mut one: Vec<EntityDecl> = Vec::new();
        one.push(e);
        Ok((one, p))
    }
}

/// Whether every entity in the list has a quote-free declared name.
pub open spec fn names_quote_free(es: Seq<EntityDecl>) -> bool {
    forall|i: int| 0 <= i < es.len() ==> quote_free((#[trigger] es[i]).name@)
}

/// Whether the text at `pos` opens a section with `opener` and closes
/// it at once: the next character is already the closing bracket.
pub open spec fn empty_section_at(s: Seq<char>, pos: int, opener: Seq<char>) -> bool {
    opener.len() > 0 && pos + opener.len() < s.len() && s.subrange(pos, pos + opener.len())
        == opener && s[pos + opener.len()] == ']'
}

/// Parses one category section: the opening literal, then either an
/// empty list or the entities, then the closing bracket is left to the
/// caller's next literal. An empty section is always accepted.
fn parse_section(s: &str, n: usize, pos: usize, opener: &str, with_disc: bool) -> (r: Result<
    (Vec<EntityDecl>, usize),
    usize,
>)
    requires
        n == s@.len(),
        pos <= n,
    ensures
        r matches Ok(v) ==> pos < v.1 <= n && names_quote_free(v.0@),
        empty_section_at(s@, pos as int, opener@) ==> (r matches Ok(v) && v.0@.len() == 0 && v.1
            == pos + opener@.len()),
{
    let p = expect_lit(s, n, pos, opener)?;
    proof {
        reveal_strlit("]");
        if empty_section_at(s@, pos as int, opener@) {
            assert(s@.subrange(p as int, p as int + 1) =~= "]"@);
        }
    }
    if let Ok(_) = expect_lit(s, n, p, "]") {
        Ok((Vec::new(), p))
    } else {
        parse_entity_list(s, n, p, with_disc)
    }
}

/// Whether a name is free of quote characters, so that its quoted form
/// in a schema text reads back to exactly the name.
pub open spec fn quote_free(nm: Seq<char>) -> bool {
    forall|i: int| 0 <= i < nm.len() ==> nm[i] != '"'
}

/// Every name the schema declares — the program name and each entity's
/// name — is free of quote characters. Every schema the normalizer
/// returns satisfies this; it is what a future injectivity argument for
/// the canonical encodings would rest on.
pub open spec fn schema_names_quote_free(sch: Schema) -> bool {
    &&& quote_free(sch.program_name@)
    &&& names_quote_free(sch.accounts@)
    &&& names_quote_free(sch.instructions@)
    &&& names_quote_free(sch.types@)
    &&& names_quote_free(sch.events@)
}

/// A schema with no entity declarations and a quote-free program name:
/// the class on which the parsers are proved complete, so that every
/// spelling of such a schema, in either encoding, is owed acceptance.
pub open spec fn schema_skeleton(sch: Schema) -> bool {
    &&& quote_free(sch.program_name@)
    &&& sch.accounts@.len() == 0
    &&& sch.instructions@.len() == 0
    &&& sch.types@.len() == 0
    &&& sch.events@.len() == 0
}

spec fn cur_head() -> Seq<char> {
    "{\"metadata\":{\"name\":\""@
}

spec fn leg_head() -> Seq<char> {
    "{\"name\":\""@
}

spec fn acc_open_cur() -> Seq<char> {
    "},\"accounts\":["@
}

spec fn acc_open_leg() -> Seq<char> {
    ",\"accounts\":["@
}

spec fn ins_open() -> Seq<char> {
    "],\"instructions\":["@
}

spec fn typ_open() -> Seq<char> {
    "],\"types\":["@
}

spec fn evt_open() -> Seq<char> {
    "],\"events\":["@
}

spec fn end_lit() -> Seq<char> {
    "]}"@
}

/// The exact shape of the canonical current-encoding text of a schema
/// without entities: where each literal, the program name and the
/// closing brackets sit.
proof fn lemma_current_skeleton_facts(sch: Schema, s: Seq<char>)
    requires
        schema_skeleton(sch),
        s == current_text_of(sch),
    ensures
        ({
            let nm = sch.program_name@;
            let o1 = cur_head().len() as int;
            let oq = o1 + nm.len();
            let o2 = oq + 1;
            let o3 = o2 + acc_open_cur().len();
            let o4 = o3 + ins_open().len();
            let o5 = o4 + typ_open().len();
            let o6 = o5 + evt_open().len();
            &&& s.len() == o6 + end_lit().len()
            &&& s.subrange(0, o1) == cur_head()
            &&& s.subrange(o1, oq) == nm
            &&& s[oq] == '"'
            &&& (forall|m: int| o1 <= m < oq ==> s[m] != '"')
            &&& s.subrange(o2, o3) == acc_open_cur()
            &&& s[o3] == ']'
            &&& s.subrange(o3, o4) == ins_open()
            &&& s[o4] == ']'
            &&& s.subrange(o4, o5) == typ_open()
            &&& s[o5] == ']'
            &&& s.subrange(o5, o6) == evt_open()
            &&& s[o6] == ']'
            &&& s.subrange(o6, s.len() as int) == end_lit()
        }),
{
    reveal_strlit("{\"metadata\":{\"name\":\"");
    reveal_strlit("\"},\"accounts\":[");
    reveal_strlit("},\"accounts\":[");
    reveal_strlit("],\"instructions\":[");
    reveal_strlit("],\"types\":[");
    reveal_strlit("],\"events\":[");
    reveal_strlit("]}");
    reveal_strlit("\"");
    let nm = sch.program_name@;
    assert(crate::encode::entity_list_text(sch.accounts@, 0, true) =~= Seq::<char>::empty());
    assert(crate::encode::entity_list_text(sch.instructions@, 0, true) =~= Seq::<char>::empty());
    assert(crate::encode::entity_list_text(sch.types@, 0, false) =~= Seq::<char>::empty());
    assert(crate::encode::entity_list_text(sch.events@, 0, true) =~= Seq::<char>::empty());
    assert("\"},\"accounts\":["@ =~= "\""@ + acc_open_cur());
    assert(s =~= cur_head() + nm + "\""@ + acc_open_cur() + ins_open() + typ_open() + evt_open()
        + end_lit());
    let o1 = cur_head().len() as int;
    let oq = o1 + nm.len();
    let o2 = oq + 1;
    let o3 = o2 + acc_open_cur().len();
    let o4 = o3 + ins_open().len();
    let o5 = o4 + typ_open().len();
    let o6 = o5 + evt_open().len();
    assert(s.subrange(0, o1) =~= cur_head());
    assert(s.subrange(o1, oq) =~= nm);
    assert(s.subrange(o2, o3) =~= acc_open_cur());
    assert(s.subrange(o3, o4) =~= ins_open());
    assert(s.subrange(o4, o5) =~= typ_open());
    assert(s.subrange(o5, o6) =~= evt_open());
    assert(s.subrange(o6, s.len() as int) =~= end_lit());
}

/// The exact shape of the canonical legacy-encoding text of a schema
/// without entities.
proof fn lemma_legacy_skeleton_facts(sch: Schema, s: Seq<char>)
    requires
        schema_skeleton(sch),
        s == legacy_text_of(sch),
    ensures
        ({
            let nm = sch.program_name@;
            let o1 = leg_head().len() as int;
            let oq = o1 + nm.len();
            let o2 = oq + 1;
            let o3 = o2 + acc_open_leg().len();
            let o4 = o3 + ins_open().len();
            let o5 = o4 + typ_open().len();
            let o6 = o5 + evt_open().len();
            &&& s.len() == o6 + end_lit().len()
            &&& s.subrange(0, o1) == leg_head()
            &&& s.subrange(o1, oq) == nm
            &&& s[oq] == '"'
            &&& (forall|m: int| o1 <= m < oq ==> s[m] != '"')
            &&& s.subrange(o2, o3) == acc_open_leg()
            &&& s[o3] == ']'
            &&& s.subrange(o3, o4) == ins_open()
            &&& s[o4] == ']'
            &&& s.subrange(o4, o5) == typ_open()
            &&& s[o5] == ']'
            &&& s.subrange(o5, o6) == evt_open()
            &&& s[o6] == ']'
            &&& s.subrange(o6, s.len() as int) == end_lit()
        }),
{
    reveal_strlit("{\"name\":\"");
    reveal_strlit("\",\"accounts\":[");
    reveal_strlit(",\"accounts\":[");
    reveal_strlit("],\"instructions\":[");
    reveal_strlit("],\"types\":[");
    reveal_strlit("],\"events\":[");
    reveal_strlit("]}");
    reveal_strlit("\"");
    let nm = sch.program_name@;
    assert(crate::encode::entity_list_text(sch.accounts@, 0, false) =~= Seq::<char>::empty());
    assert(crate::encode::entity_list_text(sch.instructions@, 0, false) =~= Seq::<char>::empty());
    assert(crate::encode::entity_list_text(sch.types@, 0, false) =~= Seq::<char>::empty());
    assert(crate::encode::entity_list_text(sch.events@, 0, false) =~= Seq::<char>::empty());
    assert("\",\"accounts\":["@ =~= "\""@ + acc_open_leg());
    assert(s =~= leg_head() + nm + "\""@ + acc_open_leg() + ins_open() + typ_open() + evt_open()
        + end_lit());
    let o1 = leg_head().len() as int;
    let oq = o1 + nm.len();
    let o2 = oq + 1;
    let o3 = o2 + acc_open_leg().len();
    let o4 = o3 + ins_open().len();
    let o5 = o4 + typ_open().len();
    let o6 = o5 + evt_open().len();
    assert(s.subrange(0, o1) =~= leg_head());
    assert(s.subrange(o1, oq) =~= nm);
    assert(s.subrange(o2, o3) =~= acc_open_leg());
    assert(s.subrange(o3, o4) =~= ins_open());
    assert(s.subrange(o4, o5) =~= typ_open());
    assert(s.subrange(o5, o6) =~= evt_open());
    assert(s.subrange(o6, s.len() as int) =~= end_lit());
}

/// Whether `w` witnesses that `s` is the canonical current text of an
/// entity-less schema.
spec fn cur_witness(w: Schema, s: Seq<char>) -> bool {
    schema_skeleton(w) && s == current_text_of(w)
}

fn parse_current_attempt(s: &str, Ghost(w): Ghost<Schema>) -> (r: Result<Schema, usize>)
    ensures
        cur_witness(w, s@) ==> (r matches Ok(out) && out.program_name@ == w.program_name@
            && out.accounts@.len() == 0 && out.instructions@.len() == 0 && out.types@.len() == 0
            && out.events@.len() == 0),
        r matches Ok(out) ==> schema_names_quote_free(out),
{
    let n = s.unicode_len();
    proof {
        reveal_strlit("{\"metadata\":{\"name\":\"");
        reveal_strlit("},\"accounts\":[");
        reveal_strlit("],\"instructions\":[");
        reveal_strlit("],\"types\":[");
        reveal_strlit("],\"events\":[");
        reveal_strlit("]}");
        if cur_witness(w, s@) {
            lemma_current_skeleton_facts(w, s@);
        }
    }
    let p = match expect_lit(s, n, 0, "{\"metadata\":{\"name\":\"") {
        Ok(p) => p,
        Err(e) => {
            return Err(e);
        },
    };
    proof {
        if cur_witness(w, s@) {
            let oq = cur_head().len() as int + w.program_name@.len();
            assert(s@[oq] == '"');
            assert(exists|j: int| p <= j < n && s@[j] == '"');
        }
    }
    let (program_name, p2) = match parse_string_body(s, n, p) {
        Ok(v) => v,
        Err(e) => {
            return Err(e);
        },
    };
    proof {
        assert forall|i: int| 0 <= i < program_name@.len() implies program_name@[i] != '"' by {
            assert(program_name@[i] == s@[p + i]);
        }
        if cur_witness(w, s@) {
            let o1 = cur_head().len() as int;
            let oq = o1 + w.program_name@.len();
            if p2 - 1 < oq {
                assert(s@[p2 - 1] != '"');
                assert(false);
            }
            if p2 - 1 > oq {
                assert(s@[oq] != '"');
                assert(false);
            }
            assert(p2 == oq + 1);
            assert(program_name@ == w.program_name@);
            assert(empty_section_at(s@, p2 as int, acc_open_cur()));
        }
    }
    let (accounts, p3) = match parse_section(s, n, p2, "},\"accounts\":[", true) {
        Ok(v) => v,
        Err(e) => {
            return Err(e);
        },
    };
    proof {
        if cur_witness(w, s@) {
            assert(empty_section_at(s@, p3 as int, ins_open()));
        }
    }
    let (instructions, p4) = match parse_section(s, n, p3, "],\"instructions\":[", true) {
        Ok(v) => v,
        Err(e) => {
            return Err(e);
        },
    };
    proof {
        if cur_witness(w, s@) {
            assert(empty_section_at(s@, p4 as int, typ_open()));
        }
    }
    let (types, p5) = match parse_section(s, n, p4, "],\"types\":[", false) {
        Ok(v) => v,
        Err(e) => {
            return Err(e);
        },
    };
    proof {
        if cur_witness(w, s@) {
            assert(empty_section_at(s@, p5 as int, evt_open()));
        }
    }
    let (events, p6) = match parse_section(s, n, p5, "],\"events\":[", true) {
        Ok(v) => v,
        Err(e) => {
            return Err(e);
        },
    };
    proof {
        if cur_witness(w, s@) {
            assert(s@.subrange(p6 as int, p6 as int + end_lit().len() as int) == end_lit());
        }
    }
    let p7 = match expect_lit(s, n, p6, "]}") {
        Ok(p) => p,
        Err(e) => {
            return Err(e);
        },
    };
    if p7 != n {
        return Err(p7);
    }
    Ok(Schema { program_name, accounts, instructions, types, events })
}

/// Parses the current encoding, ignoring whitespace outside strings.
/// Acceptance is exact both ways: a text is accepted only if its
/// canonical form is the canonical current-encoding text of the
/// returned schema, and any spelling of an entity-less schema with a
/// quote-free program name is always accepted.
pub fn parse_current(s: &str) -> (r: Result<Schema, usize>)
    ensures
        r matches Ok(sch) ==> canonical_of(s@) == current_text_of(sch)
            && schema_names_quote_free(sch),
        (exists|sch: Schema| schema_skeleton(sch) && canonical_of(s@) == current_text_of(sch))
            ==> r is Ok,
{
    let ghost w: Schema = if exists|sch: Schema|
        schema_skeleton(sch) && canonical_of(s@) == current_text_of(sch) {
        choose|sch: Schema| schema_skeleton(sch) && canonical_of(s@) == current_text_of(sch)
    } else {
        arbitrary()
    };
    let stripped = strip_whitespace(s);
    let sch = match parse_current_attempt(stripped.as_str(), Ghost(w)) {
        Ok(v) => v,
        Err(e) => {
            return Err(e);
        },
    };
    let printed = render_current(&sch);
    if printed == stripped {
        Ok(sch)
    } else {
        proof {
            if cur_witness(w, stripped@) {
                assert(current_text_of(sch) == current_text_of(w));
                assert(printed@ == stripped@);
                assert(false);
            }
        }
        Err(0)
    }
}

/// Whether every discriminator of the schema follows the legacy rule and
/// type declarations carry none.
pub open spec fn legacy_discs_filled(sch: Schema) -> bool {
    &&& forall|i: int|
        0 <= i < sch.accounts@.len() ==> (#[trigger] sch.accounts@[i]).discriminator@
            == legacy_disc_of(sch.accounts@[i].name@)
    &&& forall|i: int|
        0 <= i < sch.instructions@.len() ==> (#[trigger] sch.instructions@[i]).discriminator@
            == legacy_disc_of(sch.instructions@[i].name@)
    &&& forall|i: int|
        0 <= i < sch.events@.len() ==> (#[trigger] sch.events@[i]).discriminator@
            == legacy_disc_of(sch.events@[i].name@)
    &&& forall|i: int|
        0 <= i < sch.types@.len() ==> (#[trigger] sch.types@[i]).discriminator@.len() == 0
}

fn fill_legacy_discs(es: Vec<EntityDecl>) -> (r: Vec<EntityDecl>)
    ensures
        r@.len() == es@.len(),
        forall|i: int|
            0 <= i < r@.len() ==> (#[trigger] r@[i]).discriminator@ == legacy_disc_of(
                es@[i].name@,
            ) && r@[i].name == es@[i].name && r@[i].generics == es@[i].generics && r@[i].fields
                == es@[i].fields,
{
    let ghost orig = es@;
    let mut es = es;
    let mut out: Vec<EntityDecl> = Vec::new();
    while es.len() > 0
        invariant
            out@.len() + es@.len() == orig.len(),
            es@ == orig.subrange(out@.len() as int, orig.len() as int),
            forall|j: int|
                0 <= j < out@.len() ==> (#[trigger] out@[j]).discriminator@ == legacy_disc_of(
                    orig[j].name@,
                ) && out@[j].name == orig[j].name && out@[j].generics == orig[j].generics
                    && out@[j].fields == orig[j].fields,
        decreases es@.len(),
    {
        proof {
            assert(es@[0] == orig[out@.len() as int]);
        }
        let e = es.remove(0);
        let disc = legacy_discriminator(e.name.as_str());
        out.push(
            EntityDecl {
                name: e.name,
                discriminator: disc,
                generics: e.generics,
                fields: e.fields,
            },
        );
        proof {
            assert(es@ =~= orig.subrange(out@.len() as int, orig.len() as int));
        }
    }
    out
}

fn strip_discs(es: Vec<EntityDecl>) -> (r: Vec<EntityDecl>)
    ensures
        r@.len() == es@.len(),
        forall|i: int|
            0 <= i < r@.len() ==> (#[trigger] r@[i]).discriminator@.len() == 0 && r@[i].name
                == es@[i].name && r@[i].generics == es@[i].generics && r@[i].fields
                == es@[i].fields,
{
    let ghost orig = es@;
    let mut es = es;
    let mut out: Vec<EntityDecl> = Vec::new();
    while es.len() > 0
        invariant
            out@.len() + es@.len() == orig.len(),
            es@ == orig.subrange(out@.len() as int, orig.len() as int),
            forall|j: int|
                0 <= j < out@.len() ==> (#[trigger] out@[j]).discriminator@.len() == 0
                    && out@[j].name == orig[j].name && out@[j].generics == orig[j].generics
                    && out@[j].fields == orig[j].fields,
        decreases es@.len(),
    {
        proof {
            assert(es@[0] == orig[out@.len() as int]);
        }
        let e = es.remove(0);
        out.push(
            EntityDecl {
                name: e.name,
                discriminator: Vec::new(),
                generics: e.generics,
                fields: e.fields,
            },
        );
        proof {
            assert(es@ =~= orig.subrange(out@.len() as int, orig.len() as int));
        }
    }
    out
}

/// Whether `w` witnesses that `s` is the canonical legacy text of an
/// entity-less schema.
spec fn leg_witness(w: Schema, s: Seq<char>) -> bool {
    schema_skeleton(w) && s == legacy_text_of(w)
}

fn parse_legacy_attempt(s: &str, Ghost(w): Ghost<Schema>) -> (r: Result<Schema, usize>)
    ensures
        leg_witness(w, s@) ==> (r matches Ok(out) && out.program_name@ == w.program_name@
            && out.accounts@.len() == 0 && out.instructions@.len() == 0 && out.types@.len() == 0
            && out.events@.len() == 0),
        r matches Ok(out) ==> schema_names_quote_free(out),
{
    let n = s.unicode_len();
    proof {
        reveal_strlit("{\"name\":\"");
        reveal_strlit(",\"accounts\":[");
        reveal_strlit("],\"instructions\":[");
        reveal_strlit("],\"types\":[");
        reveal_strlit("],\"events\":[");
        reveal_strlit("]}");
        if leg_witness(w, s@) {
            lemma_legacy_skeleton_facts(w, s@);
        }
    }
    let p = match expect_lit(s, n, 0, "{\"name\":\"") {
        Ok(p) => p,
        Err(e) => {
            return Err(e);
        },
    };
    proof {
        if leg_witness(w, s@) {
            let oq = leg_head().len() as int + w.program_name@.len();
            assert(s@[oq] == '"');
            assert(exists|j: int| p <= j < n && s@[j] == '"');
        }
    }
    let (program_name, p2) = match parse_string_body(s, n, p) {
        Ok(v) => v,
        Err(e) => {
            return Err(e);
        },
    };
    proof {
        assert forall|i: int| 0 <= i < program_name@.len() implies program_name@[i] != '"' by {
            assert(program_name@[i] == s@[p + i]);
        }
        if leg_witness(w, s@) {
            let o1 = leg_head().len() as int;
            let oq = o1 + w.program_name@.len();
            if p2 - 1 < oq {
                assert(s@[p2 - 1] != '"');
                assert(false);
            }
            if p2 - 1 > oq {
                assert(s@[oq] != '"');
                assert(false);
            }
            assert(p2 == oq + 1);
            assert(program_name@ == w.program_name@);
            assert(empty_section_at(s@, p2 as int, acc_open_leg()));
        }
    }
    let (accounts, p3) = match parse_section(s, n, p2, ",\"accounts\":[", false) {
        Ok(v) => v,
        Err(e) => {
            return Err(e);
        },
    };
    proof {
        if leg_witness(w, s@) {
            assert(empty_section_at(s@, p3 as int, ins_open()));
        }
    }
    let (instructions, p4) = match parse_section(s, n, p3, "],\"instructions\":[", false) {
        Ok(v) => v,
        Err(e) => {
            return Err(e);
        },
    };
    proof {
        if leg_witness(w, s@) {
            assert(empty_section_at(s@, p4 as int, typ_open()));
        }
    }
    let (types, p5) = match parse_section(s, n, p4, "],\"types\":[", false) {
        Ok(v) => v,
        Err(e) => {
            return Err(e);
        },
    };
    proof {
        if leg_witness(w, s@) {
            assert(empty_section_at(s@, p5 as int, evt_open()));
        }
    }
    let (events, p6) = match parse_section(s, n, p5, "],\"events\":[", false) {
        Ok(v) => v,
        Err(e) => {
            return Err(e);
        },
    };
    proof {
        if leg_witness(w, s@) {
            assert(s@.subrange(p6 as int, p6 as int + end_lit().len() as int) == end_lit());
        }
    }
    let p7 = match expect_lit(s, n, p6, "]}") {
        Ok(p) => p,
        Err(e) => {
            return Err(e);
        },
    };
    if p7 != n {
        return Err(p7);
    }
    Ok(Schema { program_name, accounts, instructions, types, events })
}

/// Parses the legacy encoding, ignoring whitespace outside strings, and
/// derives every discriminator by the legacy rule. Acceptance is exact
/// both ways: a text is accepted only if its canonical form is the
/// canonical legacy-encoding text of the returned schema, and any
/// spelling of an entity-less schema with a quote-free program name is
/// always accepted.
pub fn parse_legacy(s: &str) -> (r: Result<Schema, usize>)
    ensures
        r matches Ok(sch) ==> canonical_of(s@) == legacy_text_of(sch) && legacy_discs_filled(sch)
            && schema_names_quote_free(sch),
        (exists|sch: Schema| schema_skeleton(sch) && canonical_of(s@) == legacy_text_of(sch))
            ==> r is Ok,
{
    let ghost w: Schema = if exists|sch: Schema|
        schema_skeleton(sch) && canonical_of(s@) == legacy_text_of(sch) {
        choose|sch: Schema| schema_skeleton(sch) && canonical_of(s@) == legacy_text_of(sch)
    } else {
        arbitrary()
    };
    let stripped = strip_whitespace(s);
    let sch0 = match parse_legacy_attempt(stripped.as_str(), Ghost(w)) {
        Ok(v) => v,
        Err(e) => {
            return Err(e);
        },
    };
    let sch = Schema {
        program_name: sch0.program_name,
        accounts: fill_legacy_discs(sch0.accounts),
        instructions: fill_legacy_discs(sch0.instructions),
        types: strip_discs(sch0.types),
        events: fill_legacy_discs(sch0.events),
    };
    proof {
        assert forall|i: int| 0 <= i < sch.accounts@.len() implies quote_free(
            (#[trigger] sch.accounts@[i]).name@,
        ) by {
            assert(sch.accounts@[i].name == sch0.accounts@[i].name);
        }
        assert forall|i: int| 0 <= i < sch.instructions@.len() implies quote_free(
            (#[trigger] sch.instructions@[i]).name@,
        ) by {
            assert(sch.instructions@[i].name == sch0.instructions@[i].name);
        }
        assert forall|i: int| 0 <= i < sch.types@.len() implies quote_free(
            (#[trigger] sch.types@[i]).name@,
        ) by {
            assert(sch.types@[i].name == sch0.types@[i].name);
        }
        assert forall|i: int| 0 <= i < sch.events@.len() implies quote_free(
            (#[trigger] sch.events@[i]).name@,
        ) by {
            assert(sch.events@[i].name == sch0.events@[i].name);
        }
    }
    let printed = render_legacy(&sch);
    if printed == stripped {
        Ok(sch)
    } else {
        proof {
            if leg_witness(w, stripped@) {
                assert(legacy_text_of(sch) == legacy_text_of(w));
                assert(printed@ == stripped@);
                assert(false);
            }
        }
        Err(0)
    }
}

/// Loads a schema from its text, ignoring whitespace outside strings:
/// the current encoding is attempted first; on failure the legacy
/// encoding is attempted; if both fail, the legacy attempt's error is
/// surfaced. Success is owed at least on every spelling of any
/// entity-less schema, in either encoding.
pub fn load_schema(s: &str) -> (r: Result<Schema, GenError>)
    ensures
        r matches Ok(sch) ==> canonical_of(s@) == current_text_of(sch) || (canonical_of(s@)
            == legacy_text_of(sch) && legacy_discs_filled(sch)),
        r matches Ok(sch) ==> schema_names_quote_free(sch),
        r matches Err(e) ==> e is SchemaParseError,
        (exists|sch: Schema| schema_skeleton(sch) && (canonical_of(s@) == current_text_of(sch)
            || canonical_of(s@) == legacy_text_of(sch))) ==> r is Ok,
{
    match parse_current(s) {
        Ok(sch) => Ok(sch),
        Err(_) => match parse_legacy(s) {
            Ok(sch) => Ok(sch),
            Err(p) => {
                proof {
                    if exists|sch: Schema|
                        schema_skeleton(sch) && (canonical_of(s@) == current_text_of(sch)
                            || canonical_of(s@) == legacy_text_of(sch)) {
                        let sch = choose|sch: Schema|
                            schema_skeleton(sch) && (canonical_of(s@) == current_text_of(sch)
                                || canonical_of(s@) == legacy_text_of(sch));
                        if canonical_of(s@) == current_text_of(sch) {
                            assert(exists|sch2: Schema|
                                schema_skeleton(sch2) && canonical_of(s@) == current_text_of(
                                    sch2,
                                ));
                            assert(false);
                        } else {
                            assert(exists|sch2: Schema|
                                schema_skeleton(sch2) && canonical_of(s@) == legacy_text_of(
                                    sch2,
                                ));
                            assert(false);
                        }
                    }
                }
                Err(GenError::SchemaParseError { position: p })
            },
        },
    }
}

} // verus!
