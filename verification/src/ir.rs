use vstd::prelude::*;

use crate::naming::upper_camel_of;
use crate::MAX_NATIVE_ARRAY_LEN;
use crate::numtext::dec_str;

verus! {

broadcast use vstd::seq::axiom_seq_index_decreases, vstd::std_specs::vec::axiom_vec_decreases_to_view;

/// The primitive kinds a schema may use.
#[derive(Clone, Copy, PartialEq, Eq, Structural, Debug)]
pub enum PrimKind {
    U8,
    U16,
    U32,
    U64,
    U128,
    I8,
    I16,
    I32,
    I64,
    I128,
    Bool,
    Str,
    Bytes,
    Pubkey,
}

/// One node of the schema's type graph.
pub enum TypeNode {
    Primitive(PrimKind),
    FixedArray(Box<TypeNode>, u64),
    Vector(Box<TypeNode>),
    Opt(Box<TypeNode>),
    Defined(String, Vec<TypeNode>),
    Generic(String),
}

/// One declared field: its name and its type.
pub struct FieldDecl {
    pub name: String,
    pub ty: TypeNode,
}

/// One declared entity (account, instruction, user-defined type or event).
///
/// `generics` is non-empty only for user-defined types; `discriminator`
/// is empty for user-defined types and for legacy entities before the
/// legacy derivation rule fills it in.
pub struct EntityDecl {
    pub name: String,
    pub discriminator: Vec<u8>,
    pub generics: Vec<String>,
    pub fields: Vec<FieldDecl>,
}

/// The normalized, encoding-independent representation of a schema.
pub struct Schema {
    pub program_name: String,
    pub accounts: Vec<EntityDecl>,
    pub instructions: Vec<EntityDecl>,
    pub types: Vec<EntityDecl>,
    pub events: Vec<EntityDecl>,
}

/// The target-language expression for one primitive kind.
pub open spec fn prim_target(k: PrimKind) -> Seq<char> {
    match k {
        PrimKind::U8 => "u8"@,
        PrimKind::U16 => "u16"@,
        PrimKind::U32 => "u32"@,
        PrimKind::U64 => "u64"@,
        PrimKind::U128 => "u128"@,
        PrimKind::I8 => "i8"@,
        PrimKind::I16 => "i16"@,
        PrimKind::I32 => "i32"@,
        PrimKind::I64 => "i64"@,
        PrimKind::I128 => "i128"@,
        PrimKind::Bool => "bool"@,
        PrimKind::Str => "String"@,
        PrimKind::Bytes => "Vec<u8>"@,
        PrimKind::Pubkey => "solana_sdk::pubkey::Pubkey"@,
    }
}

/// The target-language type expression of a node: a pure function of the
/// node alone.
pub open spec fn expr_of(t: TypeNode) -> Seq<char>
    decreases t, 0int,
{
    match t {
        TypeNode::Primitive(k) => prim_target(k),
        TypeNode::FixedArray(elem, len) => "["@ + expr_of(*elem) + "; "@ + dec_str(len as nat)
            + "]"@,
        TypeNode::Vector(elem) => "Vec<"@ + expr_of(*elem) + ">"@,
        TypeNode::Opt(elem) => "Option<"@ + expr_of(*elem) + ">"@,
        TypeNode::Defined(name, args) => if args.len() == 0 {
            upper_camel_of(name@)
        } else {
            upper_camel_of(name@) + "<"@ + expr_list_from(args@, 0) + ">"@
        },
        TypeNode::Generic(param) => param@,
    }
}

/// The comma-separated target expressions of the nodes from index `i` on.
pub open spec fn expr_list_from(ts: Seq<TypeNode>, i: int) -> Seq<char>
    decreases ts, ts.len() - i,
{
    if i < 0 || i >= ts.len() {
        Seq::empty()
    } else if i == ts.len() - 1 {
        expr_of(ts[i])
    } else {
        expr_of(ts[i]) + ", "@ + expr_list_from(ts, i + 1)
    }
}

/// Whether the node, anywhere inside it, holds a fixed array longer than
/// the native serialization ceiling.
pub open spec fn oversized_in(t: TypeNode) -> bool
    decreases t, 0int,
{
    match t {
        TypeNode::Primitive(_) => false,
        TypeNode::FixedArray(elem, len) => len > MAX_NATIVE_ARRAY_LEN || oversized_in(*elem),
        TypeNode::Vector(elem) => oversized_in(*elem),
        TypeNode::Opt(elem) => oversized_in(*elem),
        TypeNode::Defined(_, args) => oversized_in_list(args@, 0),
        TypeNode::Generic(_) => false,
    }
}

/// Whether any node from index `i` on holds an oversized fixed array.
pub open spec fn oversized_in_list(ts: Seq<TypeNode>, i: int) -> bool
    decreases ts, ts.len() - i,
{
    if i < 0 || i >= ts.len() {
        false
    } else {
        oversized_in(ts[i]) || oversized_in_list(ts, i + 1)
    }
}

/// The views of a sequence of names.
pub open spec fn views_of(names: Seq<String>) -> Seq<Seq<char>> {
    names.map_values(|s: String| s@)
}

/// Whether a name occurs among the given names.
pub open spec fn name_in(names: Seq<Seq<char>>, n: Seq<char>) -> bool {
    exists|i: int| 0 <= i < names.len() && names[i] == n
}

/// Whether every `Defined` name in the node is declared in the schema's
/// type table and every `Generic` parameter is declared by the enclosing
/// type declaration.
pub open spec fn resolvable(t: TypeNode, ctx: Seq<Seq<char>>, table: Seq<Seq<char>>) -> bool
    decreases t, 0int,
{
    match t {
        TypeNode::Primitive(_) => true,
        TypeNode::FixedArray(elem, _) => resolvable(*elem, ctx, table),
        TypeNode::Vector(elem) => resolvable(*elem, ctx, table),
        TypeNode::Opt(elem) => resolvable(*elem, ctx, table),
        TypeNode::Defined(name, args) => name_in(table, name@) && resolvable_list(
            args@,
            0,
            ctx,
            table,
        ),
        TypeNode::Generic(param) => name_in(ctx, param@),
    }
}

/// Whether every node from index `i` on is resolvable.
pub open spec fn resolvable_list(ts: Seq<TypeNode>, i: int, ctx: Seq<Seq<char>>, table: Seq<Seq<char>>) -> bool
    decreases ts, ts.len() - i,
{
    if i < 0 || i >= ts.len() {
        true
    } else {
        resolvable(ts[i], ctx, table) && resolvable_list(ts, i + 1, ctx, table)
    }
}

/// The name on which resolution of the node fails first: the first
/// undeclared `Defined` name or undeclared `Generic` parameter in a
/// left-to-right, outside-in walk. Meaningful only when the node is not
/// resolvable.
pub open spec fn first_unresolved(t: TypeNode, ctx: Seq<Seq<char>>, table: Seq<Seq<char>>) -> Seq<
    char,
>
    decreases t, 0int,
{
    match t {
        TypeNode::Primitive(_) => Seq::empty(),
        TypeNode::FixedArray(elem, _) => first_unresolved(*elem, ctx, table),
        TypeNode::Vector(elem) => first_unresolved(*elem, ctx, table),
        TypeNode::Opt(elem) => first_unresolved(*elem, ctx, table),
        TypeNode::Defined(name, args) => if !name_in(table, name@) {
            name@
        } else {
            first_unresolved_list(args@, 0, ctx, table)
        },
        TypeNode::Generic(param) => param@,
    }
}

/// The name on which resolution of the nodes from index `i` on fails
/// first.
pub open spec fn first_unresolved_list(
    ts: Seq<TypeNode>,
    i: int,
    ctx: Seq<Seq<char>>,
    table: Seq<Seq<char>>,
) -> Seq<char>
    decreases ts, ts.len() - i,
{
    if i < 0 || i >= ts.len() {
        Seq::empty()
    } else if !resolvable(ts[i], ctx, table) {
        first_unresolved(ts[i], ctx, table)
    } else {
        first_unresolved_list(ts, i + 1, ctx, table)
    }
}

/// The declared names of the schema's user-defined types, in order.
pub open spec fn spec_type_table(types: Seq<EntityDecl>) -> Seq<Seq<char>> {
    types.map_values(|e: EntityDecl| e.name@)
}

/// Collects the schema's type table: the declared name of every
/// user-defined type, in declaration order.
pub fn type_table(types: &Vec<EntityDecl>) -> (r: Vec<String>)
    ensures
        r@.len() == types@.len(),
        forall|i: int| 0 <= i < r@.len() ==> r@[i]@ == types@[i].name@,
        views_of(r@) == spec_type_table(types@),
{
    let mut r: Vec<String> = Vec::new();
    let mut i: usize = 0;
    while i < types.len()
        invariant
            i <= types@.len(),
            r@.len() == i,
            forall|j: int| 0 <= j < i ==> r@[j]@ == types@[j].name@,
        decreases types@.len() - i,
    {
        r.push(types[i].name.clone());
        i = i + 1;
    }
    proof {
        assert(views_of(r@) =~= spec_type_table(types@));
    }
    r
}

/// Copies a byte sequence.
pub fn clone_bytes(v: &Vec<u8>) -> (r: Vec<u8>)
    ensures
        r@ == v@,
{
    let mut r: Vec<u8> = Vec::new();
    let mut i: usize = 0;
    while i < v.len()
        invariant
            i <= v@.len(),
            r@ == v@.subrange(0, i as int),
        decreases v@.len() - i,
    {
        r.push(v[i]);
        proof {
            assert(r@ =~= v@.subrange(0, i + 1));
        }
        i = i + 1;
    }
    proof {
        assert(r@ =~= v@);
    }
    r
}

/// Copies a list of names, keeping each name's characters.
pub fn clone_names(v: &Vec<String>) -> (r: Vec<String>)
    ensures
        r@.len() == v@.len(),
        forall|i: int| 0 <= i < r@.len() ==> (#[trigger] r@[i])@ == v@[i]@,
{
    let mut r: Vec<String> = Vec::new();
    let mut i: usize = 0;
    while i < v.len()
        invariant
            i <= v@.len(),
            r@.len() == i,
            forall|j: int| 0 <= j < i ==> (#[trigger] r@[j])@ == v@[j]@,
        decreases v@.len() - i,
    {
        r.push(v[i].clone());
        i = i + 1;
    }
    r
}

/// Whether a name occurs among the given names, decided exactly.
pub fn contains_name(names: &Vec<String>, n: &str) -> (r: bool)
    ensures
        r == name_in(views_of(names@), n@),
{
    let needle: String = n.to_owned();
    let mut i: usize = 0;
    while i < names.len()
        invariant
            i <= names@.len(),
            needle@ == n@,
            forall|j: int| 0 <= j < i ==> names@[j]@ != n@,
        decreases names@.len() - i,
    {
        if names[i] == needle {
            proof {
                assert(views_of(names@)[i as int] == names@[i as int]@);
            }
            return true;
        }
        i = i + 1;
    }
    false
}

} // verus!
