//! The keyed tables of the syntax tree and the parser, which live in outside
//! crates, with the contracts that this library relies on.
use vstd::prelude::*;
use rustc_hash::{FxBuildHasher, FxHashMap};
use indexmap::IndexMap;

use crate::ast::{Expr, ExprV, Stmt, StmtV};
use crate::compile::{ASTFunction, ASTFunctionV};
use crate::node::{NodeOp, NodeOpV, VoxelCode, VoxelCodeV};

verus! {

#[verifier::external_type_specification]
#[verifier::external_body]
pub struct ExFxBuildHasher(FxBuildHasher);

#[verifier::external_type_specification]
#[verifier::external_body]
#[verifier::reject_recursive_types(K)]
#[verifier::reject_recursive_types(V)]
#[verifier::reject_recursive_types(S)]
pub struct ExIndexMap<K, V, S>(IndexMap<K, V, S>);

/// What a table of named expressions holds, keyed by the names' text.
pub uninterp spec fn expr_table(m: FxHashMap<String, Box<Expr>>) -> Map<Seq<char>, ExprV>;

/// What a table of named statements holds, keyed by the names' text.
pub uninterp spec fn stmt_table(m: FxHashMap<String, Box<Stmt>>) -> Map<Seq<char>, StmtV>;

/// What a table of variable slots holds, keyed by the names' text.
pub uninterp spec fn index_table(m: FxHashMap<String, u32>) -> Map<Seq<char>, u32>;

/// The keys of an insertion-ordered set of names, in insertion order.
pub uninterp spec fn key_order(m: IndexMap<String, ()>) -> Seq<Seq<char>>;

/// `FxHashMap::default()` (a std `HashMap` with the Fx hasher of rustc-hash):
/// claimed to hold nothing.
#[verifier::external_body]
pub(crate) fn expr_table_new() -> (r: FxHashMap<String, Box<Expr>>)
    ensures
        expr_table(r).dom() == Set::<Seq<char>>::empty(),
{
    FxHashMap::default()
}

/// std `HashMap::insert`: claimed to map the key to the value, replacing an
/// earlier value of the same key and leaving every other key as it was.
#[verifier::external_body]
pub(crate) fn expr_table_insert(m: &mut FxHashMap<String, Box<Expr>>, k: String, v: Box<Expr>)
    ensures
        expr_table(*final(m)) == expr_table(*old(m)).insert(k@, v.model()),
{
    m.insert(k, v);
}

/// `FxHashMap::default()`: claimed to hold nothing.
#[verifier::external_body]
pub(crate) fn stmt_table_new() -> (r: FxHashMap<String, Box<Stmt>>)
    ensures
        stmt_table(r).dom() == Set::<Seq<char>>::empty(),
{
    FxHashMap::default()
}

/// std `HashMap::insert`: claimed to map the key to the value, replacing an
/// earlier value of the same key and leaving every other key as it was.
#[verifier::external_body]
pub(crate) fn stmt_table_insert(m: &mut FxHashMap<String, Box<Stmt>>, k: String, v: Box<Stmt>)
    ensures
        stmt_table(*final(m)) == stmt_table(*old(m)).insert(k@, v.model()),
{
    m.insert(k, v);
}

/// `FxHashMap::default()`: claimed to hold nothing.
#[verifier::external_body]
pub(crate) fn index_table_new() -> (r: FxHashMap<String, u32>)
    ensures
        index_table(r).dom() == Set::<Seq<char>>::empty(),
{
    FxHashMap::default()
}

/// std `HashMap::insert`: claimed to map the key to the value, replacing an
/// earlier value of the same key and leaving every other key as it was.
#[verifier::external_body]
pub(crate) fn index_table_insert(m: &mut FxHashMap<String, u32>, k: String, v: u32)
    ensures
        index_table(*final(m)) == index_table(*old(m)).insert(k@, v),
{
    m.insert(k, v);
}

/// std `HashMap::clone`: claimed to hold the same entries as the map cloned.
#[verifier::external_body]
pub(crate) fn index_table_clone(m: &FxHashMap<String, u32>) -> (r: FxHashMap<String, u32>)
    ensures
        index_table(r) == index_table(*m),
{
    m.clone()
}

/// `IndexMap::default()` of indexmap: claimed to hold no key.
#[verifier::external_body]
pub(crate) fn key_order_new() -> (r: IndexMap<String, ()>)
    ensures
        key_order(r) == Seq::<Seq<char>>::empty(),
{
    IndexMap::default()
}

/// `IndexMap::insert` of indexmap: a key that is already present keeps its
/// place; a new key goes last. The keys never repeat.
#[verifier::external_body]
pub(crate) fn key_order_insert(m: &mut IndexMap<String, ()>, k: String)
    ensures
        key_order(*final(m)) == (if key_order(*old(m)).contains(k@) {
            key_order(*old(m))
        } else {
            key_order(*old(m)).push(k@)
        }),
        key_order(*old(m)).no_duplicates() ==> key_order(*final(m)).no_duplicates(),
{
    m.insert(k, ());
}

/// `IndexMap::get_index_of` of indexmap: the position of the key, if present.
#[verifier::external_body]
pub(crate) fn key_order_index_of(m: &IndexMap<String, ()>, k: &str) -> (r: Option<usize>)
    ensures
        r is Some <==> key_order(*m).contains(k@),
        r matches Some(i) ==> i < key_order(*m).len() && key_order(*m)[i as int] == k@,
{
    m.get_index_of(k)
}

/// `HashMap::get` of std: the slot of the name, if the table has one.
#[verifier::external_body]
pub(crate) fn index_table_get(m: &FxHashMap<String, u32>, k: &str) -> (r: Option<u32>)
    ensures
        r == (if index_table(*m).dom().contains(k@) {
            Some(index_table(*m)[k@])
        } else {
            None
        }),
{
    m.get(k).copied()
}

/// `HashMap::get` of std: the expression stored under the name, if any.
#[verifier::external_body]
pub(crate) fn expr_table_get<'a>(m: &'a FxHashMap<String, Box<Expr>>, k: &str) -> (r: Option<
    &'a Box<Expr>,
>)
    ensures
        r is Some <==> expr_table(*m).dom().contains(k@),
        r matches Some(e) ==> e.model() == expr_table(*m)[k@],
{
    m.get(k)
}

/// `HashMap::get` of std: the statement stored under the name, if any.
#[verifier::external_body]
pub(crate) fn stmt_table_get<'a>(m: &'a FxHashMap<String, Box<Stmt>>, k: &str) -> (r: Option<
    &'a Box<Stmt>,
>)
    ensures
        r is Some <==> stmt_table(*m).dom().contains(k@),
        r matches Some(e) ==> e.model() == stmt_table(*m)[k@],
{
    m.get(k)
}

/// The names of a list of strings.
pub open spec fn names_of(v: Seq<String>) -> Seq<Seq<char>> {
    v.map_values(|s: String| s@)
}

/// `HashMap::keys` of std, each key cloned: every name of the table once, in
/// the order in which the map is walked. That order is left open: std gives
/// none, and it depends on how the map was filled.
#[verifier::external_body]
pub(crate) fn stmt_table_keys(m: &FxHashMap<String, Box<Stmt>>) -> (r: Vec<String>)
    ensures
        names_of(r@).no_duplicates(),
        names_of(r@).to_set() == stmt_table(*m).dom(),
{
    m.keys().cloned().collect()
}

/// What a table of compiled voxels holds, keyed by the voxels' names.
pub uninterp spec fn voxel_table(m: FxHashMap<String, VoxelCode>) -> Map<Seq<char>, VoxelCodeV>;

/// `FxHashMap::default()`: claimed to hold nothing.
#[verifier::external_body]
pub(crate) fn voxel_table_new() -> (r: FxHashMap<String, VoxelCode>)
    ensures
        voxel_table(r).dom() == Set::<Seq<char>>::empty(),
{
    FxHashMap::default()
}

/// `HashMap::insert` of std: the name maps to the voxel, replacing an earlier
/// one; every other name keeps its voxel.
#[verifier::external_body]
pub(crate) fn voxel_table_insert(m: &mut FxHashMap<String, VoxelCode>, k: String, v: VoxelCode)
    ensures
        voxel_table(*final(m)) == voxel_table(*old(m)).insert(k@, v.model()),
{
    m.insert(k, v);
}

/// `HashMap::remove` of std: takes the voxel of the name out, if there is one.
#[verifier::external_body]
pub(crate) fn voxel_table_remove(m: &mut FxHashMap<String, VoxelCode>, k: &str) -> (r: Option<
    VoxelCode,
>)
    ensures
        voxel_table(*final(m)) == voxel_table(*old(m)).remove(k@),
        r is Some <==> voxel_table(*old(m)).dom().contains(k@),
        r matches Some(v) ==> v.model() == voxel_table(*old(m))[k@],
{
    m.remove(k)
}

/// `HashMap::get` of std: the voxel of the name, if there is one.
#[verifier::external_body]
pub(crate) fn voxel_table_get<'a>(m: &'a FxHashMap<String, VoxelCode>, k: &str) -> (r: Option<
    &'a VoxelCode,
>)
    ensures
        r is Some <==> voxel_table(*m).dom().contains(k@),
        r matches Some(v) ==> v.model() == voxel_table(*m)[k@],
{
    m.get(k)
}

/// `HashMap::contains_key` of std.
#[verifier::external_body]
pub(crate) fn voxel_table_contains(m: &FxHashMap<String, VoxelCode>, k: &str) -> (r: bool)
    ensures
        r == voxel_table(*m).dom().contains(k@),
{
    m.contains_key(k)
}

/// What an insertion-ordered table of material code holds: each name with its
/// code, in the order in which the names first came.
pub uninterp spec fn material_table(m: IndexMap<String, Vec<NodeOp>>) -> Seq<(Seq<char>, Seq<NodeOpV>)>;

/// The names of a material table, in order.
pub open spec fn table_names(t: Seq<(Seq<char>, Seq<NodeOpV>)>) -> Seq<Seq<char>> {
    t.map_values(|e: (Seq<char>, Seq<NodeOpV>)| e.0)
}

/// `IndexMap::default()` of indexmap: claimed to hold nothing.
#[verifier::external_body]
pub(crate) fn material_table_new() -> (r: IndexMap<String, Vec<NodeOp>>)
    ensures
        material_table(r) == Seq::<(Seq<char>, Seq<NodeOpV>)>::empty(),
{
    IndexMap::default()
}

/// `IndexMap::insert` of indexmap: a name that is present keeps its place and
/// takes the new code; a new name goes last. A map never holds a name twice.
#[verifier::external_body]
pub(crate) fn material_table_insert(m: &mut IndexMap<String, Vec<NodeOp>>, k: String, v: Vec<NodeOp>)
    ensures
        table_names(material_table(*old(m))).contains(k@) ==> material_table(*final(m))
            == material_table(*old(m)).update(
            table_names(material_table(*old(m))).index_of(k@),
            (k@, NodeOp::models(v@)),
        ),
        !table_names(material_table(*old(m))).contains(k@) ==> material_table(*final(m))
            == material_table(*old(m)).push((k@, NodeOp::models(v@))),
        table_names(material_table(*final(m))).no_duplicates(),
{
    m.insert(k, v);
}

/// `IndexMap::get_index_of` of indexmap: the position of the name, if present.
#[verifier::external_body]
pub(crate) fn material_table_index_of(m: &IndexMap<String, Vec<NodeOp>>, k: &str) -> (r: Option<
    usize,
>)
    ensures
        r is Some <==> table_names(material_table(*m)).contains(k@),
        r matches Some(i) ==> i < material_table(*m).len() && material_table(*m)[i as int].0
            == k@,
{
    m.get_index_of(k)
}

/// What a table of functions holds, keyed by the functions' names.
pub uninterp spec fn function_table(m: FxHashMap<String, ASTFunction>) -> Map<Seq<char>, ASTFunctionV>;

/// `FxHashMap::default()`: claimed to hold nothing.
#[verifier::external_body]
pub(crate) fn fn_table_new() -> (r: FxHashMap<String, ASTFunction>)
    ensures
        function_table(r).dom() == Set::<Seq<char>>::empty(),
{
    FxHashMap::default()
}

/// `HashMap::insert` of std: the name maps to the function, replacing an
/// earlier one; every other name keeps its function.
#[verifier::external_body]
pub(crate) fn fn_table_insert(m: &mut FxHashMap<String, ASTFunction>, k: String, v: ASTFunction)
    ensures
        function_table(*final(m)) == function_table(*old(m)).insert(k@, v.model()),
{
    m.insert(k, v);
}

} // verus!
