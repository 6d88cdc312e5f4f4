//! The table of user-defined functions: name to (parameter name, body).

use vstd::prelude::*;
use vstd::hash_map::StringHashMap;
use crate::ast::{Expr, ExprModel, expr_model};

verus! {

/// Model of one user-defined function.
pub ghost struct FnDefModel {
    pub param: Seq<char>,
    pub body: ExprModel,
}

/// The user-function table.  Populated at parse time; redefinition silently
/// overwrites.  Functions take exactly one parameter.
pub struct FunctionTable {
    inner: StringHashMap<(String, Expr)>,
}

impl View for FunctionTable {
    type V = Map<Seq<char>, FnDefModel>;

    closed spec fn view(&self) -> Map<Seq<char>, FnDefModel> {
        Map::new(
            |k: Seq<char>| self.inner@.contains_key(k),
            |k: Seq<char>| FnDefModel {
                param: self.inner@[k].0@,
                body: expr_model(self.inner@[k].1),
            },
        )
    }
}

impl FunctionTable {
    /// An empty table.
    pub fn new() -> (r: FunctionTable)
        ensures
            r@ == Map::<Seq<char>, FnDefModel>::empty(),
    {
        let r = FunctionTable { inner: StringHashMap::new() };
        proof {
            assert(r@ =~= Map::<Seq<char>, FnDefModel>::empty());
        }
        r
    }

    /// Defines (or redefines) a function.
    pub fn define(&mut self, name: String, param: String, body: Expr)
        ensures
            final(self)@ == old(self)@.insert(
                name@,
                FnDefModel { param: param@, body: expr_model(body) },
            ),
    {
        let ghost gname = name@;
        let ghost gparam = param@;
        let ghost gbody = expr_model(body);
        self.inner.insert(name, (param, body));
        proof {
            assert(self@ =~= old(self)@.insert(gname, FnDefModel { param: gparam, body: gbody }));
        }
    }

    /// Looks a function up.
    pub fn lookup(&self, name: &str) -> (r: Option<&(String, Expr)>)
        ensures
            match r {
                Some(d) => self@.contains_key(name@) && d.0@ == self@[name@].param && expr_model(
                    d.1,
                ) == self@[name@].body,
                None => !self@.contains_key(name@),
            },
    {
        self.inner.get(name)
    }
}

} // verus!
