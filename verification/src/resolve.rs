use vstd::prelude::*;

use crate::errors::GenError;
use crate::ir::{
    contains_name, expr_list_from, expr_of, first_unresolved, first_unresolved_list, oversized_in,
    oversized_in_list, resolvable, resolvable_list, views_of, PrimKind, TypeNode,
};
use crate::is_oversized_len;
use crate::naming::to_upper_camel_case;
use crate::numtext::u64_to_string;

verus! {

broadcast use vstd::seq::axiom_seq_index_decreases, vstd::std_specs::vec::axiom_vec_decreases_to_view;

/// A resolved field type: the target-language expression and whether an
/// oversized fixed array occurs anywhere inside it.
pub struct ResolvedType {
    pub expr: String,
    pub is_oversized: bool,
}

fn prim_str(k: PrimKind) -> (r: &'static str)
    ensures
        r@ == crate::ir::prim_target(k),
{
    match k {
        PrimKind::U8 => "u8",
        PrimKind::U16 => "u16",
        PrimKind::U32 => "u32",
        PrimKind::U64 => "u64",
        PrimKind::U128 => "u128",
        PrimKind::I8 => "i8",
        PrimKind::I16 => "i16",
        PrimKind::I32 => "i32",
        PrimKind::I64 => "i64",
        PrimKind::I128 => "i128",
        PrimKind::Bool => "bool",
        PrimKind::Str => "String",
        PrimKind::Bytes => "Vec<u8>",
        PrimKind::Pubkey => "solana_sdk::pubkey::Pubkey",
    }
}

/// Maps a type node to its target-language expression.
///
/// Succeeds exactly when every `Defined` name is declared in `table` and
/// every `Generic` parameter is declared in `ctx`; the expression and the
/// oversized-array flag are then pure functions of the node.
pub fn resolve(t: &TypeNode, ctx: &Vec<String>, table: &Vec<String>) -> (r: Result<
    ResolvedType,
    GenError,
>)
    ensures
        (r is Ok) == resolvable(*t, views_of(ctx@), views_of(table@)),
        r matches Ok(e) ==> e.expr@ == expr_of(*t) && e.is_oversized == oversized_in(*t),
        r matches Err(err) ==> err matches GenError::UnresolvedTypeReference { name } && name@
            == first_unresolved(*t, views_of(ctx@), views_of(table@)),
    decreases *t, 0int,
{
    match t {
        TypeNode::Primitive(k) => Ok(
            ResolvedType { expr: prim_str(*k).to_owned(), is_oversized: false },
        ),
        TypeNode::FixedArray(elem, len) => {
            let inner = resolve(elem, ctx, table)?;
            let mut s = "[".to_owned();
            s.append(inner.expr.as_str());
            s.append("; ");
            let num = u64_to_string(*len);
            s.append(num.as_str());
            s.append("]");
            Ok(
                ResolvedType {
                    expr: s,
                    is_oversized: is_oversized_len(*len) || inner.is_oversized,
                },
            )
        },
        TypeNode::Vector(elem) => {
            let inner = resolve(elem, ctx, table)?;
            let mut s = "Vec<".to_owned();
            s.append(inner.expr.as_str());
            s.append(">");
            Ok(ResolvedType { expr: s, is_oversized: inner.is_oversized })
        },
        TypeNode::Opt(elem) => {
            let inner = resolve(elem, ctx, table)?;
            let mut s = "Option<".to_owned();
            s.append(inner.expr.as_str());
            s.append(">");
            Ok(ResolvedType { expr: s, is_oversized: inner.is_oversized })
        },
        TypeNode::Defined(name, args) => {
            if !contains_name(table, name.as_str()) {
                return Err(GenError::UnresolvedTypeReference { name: name.clone() });
            }
            let camel = to_upper_camel_case(name.as_str());
            if args.len() == 0 {
                proof {
                    assert(resolvable_list(args@, 0, views_of(ctx@), views_of(table@)));
                    assert(!oversized_in_list(args@, 0));
                }
                Ok(ResolvedType { expr: camel, is_oversized: false })
            } else {
                let list = resolve_list(args, 0, ctx, table)?;
                let mut s = camel;
                s.append("<");
                s.append(list.expr.as_str());
                s.append(">");
                Ok(ResolvedType { expr: s, is_oversized: list.is_oversized })
            }
        },
        TypeNode::Generic(param) => {
            if contains_name(ctx, param.as_str()) {
                Ok(ResolvedType { expr: param.clone(), is_oversized: false })
            } else {
                Err(GenError::UnresolvedTypeReference { name: param.clone() })
            }
        },
    }
}

/// Resolves the nodes from index `i` on and joins their expressions with
/// a comma.
fn resolve_list(args: &Vec<TypeNode>, i: usize, ctx: &Vec<String>, table: &Vec<String>) -> (r:
    Result<ResolvedType, GenError>)
    requires
        i < args@.len(),
    ensures
        (r is Ok) == resolvable_list(args@, i as int, views_of(ctx@), views_of(table@)),
        r matches Ok(e) ==> e.expr@ == expr_list_from(args@, i as int) && e.is_oversized
            == oversized_in_list(args@, i as int),
        r matches Err(err) ==> err matches GenError::UnresolvedTypeReference { name } && name@
            == first_unresolved_list(args@, i as int, views_of(ctx@), views_of(table@)),
    decreases *args, args@.len() - i,
{
    let n = args.len();
    let cur = resolve(&args[i], ctx, table)?;
    if i + 1 == n {
        proof {
            assert(resolvable_list(args@, i + 1, views_of(ctx@), views_of(table@)));
            assert(!oversized_in_list(args@, i + 1));
        }
        Ok(cur)
    } else {
        let rest = resolve_list(args, i + 1, ctx, table)?;
        let mut s = cur.expr;
        s.append(", ");
        s.append(rest.expr.as_str());
        Ok(ResolvedType { expr: s, is_oversized: cur.is_oversized || rest.is_oversized })
    }
}

/// Resolution is deterministic: any two expressions that the resolver's
/// contract admits for one node are the same expression.
pub proof fn lemma_resolution_deterministic(t: TypeNode, e1: Seq<char>, e2: Seq<char>)
    requires
        e1 == expr_of(t),
        e2 == expr_of(t),
    ensures
        e1 == e2,
{
}

} // verus!
