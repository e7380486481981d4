//! A parsed module.
use vstd::prelude::*;
use rustc_hash::FxHashMap;

use crate::ast::{Stmt, StmtV};
use crate::tables::index_table;

verus! {

/// A parsed module: its source, its statements and the slots of its variables.
#[derive(Debug)]
pub struct Module {
    pub name: String,
    pub source: String,
    pub path: String,
    pub stmts: Vec<Box<Stmt>>,
    pub variables: FxHashMap<String, u32>,
}

/// The model of a [`Module`].
pub struct ModuleV {
    pub name: Seq<char>,
    pub source: Seq<char>,
    pub path: Seq<char>,
    pub stmts: Seq<StmtV>,
    pub variables: Map<Seq<char>, u32>,
}

impl Module {
    pub open spec fn model(&self) -> ModuleV {
        ModuleV {
            name: self.name@,
            source: self.source@,
            path: self.path@,
            stmts: Stmt::models(self.stmts@),
            variables: index_table(self.variables),
        }
    }

    pub fn new(
        name: String,
        source: String,
        path: String,
        stmts: Vec<Box<Stmt>>,
        variables: FxHashMap<String, u32>,
    ) -> (r: Self)
        ensures
            r.model() == (ModuleV {
                name: name@,
                source: source@,
                path: path@,
                stmts: Stmt::models(stmts@),
                variables: index_table(variables),
            }),
    {
        Module { name, source, path, stmts, variables }
    }
}

} // verus!
