use vstd::prelude::*;

use crate::bindings::Bindings;
use crate::types::{DefinedFunction, Value};

verus! {

/// The top-level variables and functions of one contract. Filled while the
/// contract loads, read only afterwards.
#[derive(Debug)]
pub struct ContractContext {
    pub name: String,
    pub variables: Bindings<Value>,
    pub functions: Bindings<DefinedFunction>,
}

impl ContractContext {
    pub fn new(name: String) -> (r: ContractContext)
        ensures
            r.name@ == name@,
            r.variables@ == Map::<Seq<char>, Value>::empty(),
            r.functions@ == Map::<Seq<char>, DefinedFunction>::empty(),
    {
        ContractContext { name, variables: Bindings::new(), functions: Bindings::new() }
    }

    /// A copy of the top-level variable `name`.
    pub fn lookup_variable(&self, name: &str) -> (r: Option<Value>)
        ensures
            self.variables@.contains_key(name@) <==> r is Some,
            r matches Some(v) ==> v == self.variables@[name@],
    {
        match self.variables.get(name) {
            Some(value) => Some(value.clone()),
            None => None,
        }
    }

    /// A copy of the function `name`.
    pub fn lookup_function(&self, name: &str) -> (r: Option<DefinedFunction>)
        ensures
            self.functions@.contains_key(name@) <==> r is Some,
            r matches Some(f) ==> f == self.functions@[name@],
    {
        match self.functions.get(name) {
            Some(function) => Some(function.clone()),
            None => None,
        }
    }
}

impl Clone for ContractContext {
    fn clone(&self) -> (r: Self)
        ensures
            r.name@ == self.name@,
            r.variables@ == self.variables@,
            r.functions@ == self.functions@,
    {
        let variables = self.variables.clone();
        let functions = self.functions.clone();
        proof {
            assert(variables.entry_seq() =~= self.variables.entry_seq());
            assert(functions.entry_seq() =~= self.functions.entry_seq());
            Bindings::lemma_view_of_history(&variables, &self.variables);
            Bindings::lemma_view_of_history(&functions, &self.functions);
        }
        ContractContext { name: self.name.clone(), variables, functions }
    }
}

/// A loaded contract.
#[derive(Debug)]
pub struct Contract {
    pub contract_context: ContractContext,
}

impl Clone for Contract {
    fn clone(&self) -> (r: Self)
        ensures
            r.contract_context.name@ == self.contract_context.name@,
            r.contract_context.variables@ == self.contract_context.variables@,
            r.contract_context.functions@ == self.contract_context.functions@,
    {
        Contract { contract_context: self.contract_context.clone() }
    }
}

} // verus!
