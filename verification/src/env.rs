//! The environment of a run: the table of functions and the table of
//! variables.

use vstd::prelude::*;
use vstd::hash_map::StringHashMap;
use crate::ast::{Function, FunctionView};
use crate::semantics::{Functions, Locals, Value};

verus! {

/// What a table of functions denotes: each function by its view.
pub open spec fn table_view(table: Map<Seq<char>, Function>) -> Functions {
    table.map_values(|f: Function| f@)
}

/// Entering a function in a table enters its view in the table's view.
pub proof fn lemma_table_view_insert(table: Map<Seq<char>, Function>, name: Seq<char>, f: Function)
    ensures
        table_view(table.insert(name, f)) == table_view(table).insert(name, f@),
{
    assert(table_view(table.insert(name, f)) =~= table_view(table).insert(name, f@));
}

/// The names that a run resolves: functions, entered once before the run, and
/// the variables of the call that is running.
pub struct Environment {
    pub functions: StringHashMap<Function>,
    pub locals: StringHashMap<Value>,
}

impl Environment {
    /// The functions, by name.
    pub open spec fn functions(&self) -> Functions {
        table_view(self.functions@)
    }

    /// The variables, by name.
    pub open spec fn locals(&self) -> Locals {
        self.locals@
    }

    /// An environment without functions or variables.
    pub fn new() -> (env: Self)
        ensures
            env.functions() == Map::<Seq<char>, FunctionView>::empty(),
            env.locals() == Map::<Seq<char>, Value>::empty(),
    {
        let env = Environment { functions: StringHashMap::new(), locals: StringHashMap::new() };
        assert(env.functions() =~= Map::empty());
        env
    }

    /// Enters `function` under its name, in place of any function of that name.
    pub fn define(&mut self, function: Function)
        ensures
            final(self).functions() == old(self).functions().insert(function.name@, function@),
            final(self).locals() == old(self).locals(),
    {
        proof {
            lemma_table_view_insert(self.functions@, function.name@, function);
        }
        let name = function.name.clone();
        self.functions.insert(name, function);
    }

    /// The function of the name `name`, if there is one.
    pub fn function(&self, name: &str) -> (r: Option<&Function>)
        ensures
            match r {
                Some(f) => self.functions().contains_key(name@) && f@ == self.functions()[name@],
                None => !self.functions().contains_key(name@),
            },
    {
        self.functions.get(name)
    }

    /// Gives the variable `name` the value `value`, whether or not it had one.
    pub fn set(&mut self, name: String, value: Value)
        ensures
            final(self).locals() == old(self).locals().insert(name@, value),
            final(self).functions() == old(self).functions(),
    {
        self.locals.insert(name, value);
    }

    /// The value of the variable `name`, if it has one.
    pub fn get(&self, name: &str) -> (r: Option<Value>)
        ensures
            r == if self.locals().contains_key(name@) {
                Some(self.locals()[name@])
            } else {
                None
            },
    {
        match self.locals.get(name) {
            Some(v) => Some(*v),
            None => None,
        }
    }
}

impl Default for Environment {
    /// An environment without functions or variables.
    fn default() -> (env: Self)
        ensures
            env.functions() == Map::<Seq<char>, FunctionView>::empty(),
            env.locals() == Map::<Seq<char>, Value>::empty(),
    {
        Environment::new()
    }
}

} // verus!
