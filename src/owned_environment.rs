use vstd::prelude::*;

use crate::asset_map::{AssetKey, AssetMap};
use crate::call_stack::CallStack;
use crate::contract_context::{Contract, ContractContext};
use crate::database::{
    db_begin, inside_save_point, lemma_aborted_transaction_restores, lemma_roll_back_restores, ContractDatabase, DatabaseView,
};
use crate::environment::{
    begin_contract_call, call_refusal, finish_function_as_transaction, initialize_contract, is_principal, names_refused, same_context, same_kind,
    Environment,
    PreparedCall,
};
use crate::errors::{Error, InterpreterError};
use crate::global_context::{after_commit, after_nest, after_roll_back, is_response, settled, GlobalContext, ScopesView};
use crate::types::{DefinedFunction, SymbolicExpression, Value};

verus! {

/// A transaction whose function answers with an aborted response leaves the
/// database exactly as it was before the transaction began, and hands back
/// only the transfers of the root scope.
pub proof fn lemma_aborted_response_restores(d: DatabaseView, w: ScopesView, value: Value)
    requires
        is_response(value, false),
        w.1.len() == 2,
        w.2.len() == 2,
        inside_save_point(db_begin(d), w.0),
    ensures
        settled(w, false, Ok(value)) == (Ok::<Value, Error>(value), after_roll_back(w)),
        after_commit(after_roll_back(w)).0 == d,
        after_roll_back(w).1 == seq![w.1[0]],
{
    lemma_aborted_transaction_restores(d, w.0);
    assert(after_roll_back(w).1 =~= seq![w.1[0]]);
}

/// A transaction whose function fails, or whose result is refused, leaves the
/// database exactly as it was before the transaction began.
pub proof fn lemma_failed_transaction_restores(d: DatabaseView, w: ScopesView, result: Result<Value, Error>)
    requires
        w.1.len() == 2,
        w.2.len() == 2,
        inside_save_point(db_begin(d), w.0),
        settled(w, false, result).0 is Err,
    ensures
        settled(w, false, result).1 == after_roll_back(w),
        after_roll_back(after_roll_back(w)).0 == d,
{
    lemma_roll_back_restores(db_begin(d), w.0);
    assert(d.0.take(d.0.len() as int) =~= d.0);
    lemma_roll_back_restores(d, (d.0, db_begin(d).1));
}

/// The environment of one transaction: its root scope on a database, the
/// contract that raw expressions are evaluated in, and the call stack.
pub struct OwnedEnvironment {
    context: GlobalContext,
    default_contract: ContractContext,
    call_stack: CallStack,
}

impl OwnedEnvironment {
    pub closed spec fn spec_context(&self) -> GlobalContext {
        self.context
    }

    pub closed spec fn spec_call_stack(&self) -> CallStack {
        self.call_stack
    }

    /// The contract that raw expressions are evaluated in.
    pub closed spec fn spec_default_contract(&self) -> ContractContext {
        self.default_contract
    }

    pub closed spec fn wf(&self) -> bool {
        &&& self.context.wf()
        &&& self.call_stack.wf()
    }

    /// An environment whose root scope is a new save point on `database`.
    pub fn new(database: ContractDatabase) -> (r: OwnedEnvironment)
        requires
            database.wf(),
        ensures
            r.wf(),
            r.spec_context()@ == (db_begin(database@), seq![Map::<AssetKey, int>::empty()], seq![false]),
            r.spec_context().spec_database().contracts() == database.contracts(),
            r.spec_call_stack()@.0 == Seq::<Seq<char>>::empty(),
            r.spec_call_stack()@.1 == Set::<Seq<char>>::empty(),
            r.spec_default_contract().name@ == ":transient:"@,
            r.spec_default_contract().variables@ == Map::<Seq<char>, Value>::empty(),
            r.spec_default_contract().functions@ == Map::<Seq<char>, DefinedFunction>::empty(),
    {
        OwnedEnvironment {
            context: GlobalContext::begin_from(database),
            default_contract: ContractContext::new(":transient:".to_owned()),
            call_stack: CallStack::new(),
        }
    }

    pub fn context(&self) -> (r: &GlobalContext)
        ensures
            *r == self.spec_context(),
    {
        &self.context
    }

    /// An environment for evaluating in this transaction's current scope, on
    /// behalf of `sender`.
    pub fn get_exec_environment(&mut self, sender: Option<Value>) -> (r: Environment<'_>)
        requires
            is_principal(sender),
        ensures
            *r.global_context == old(self).spec_context(),
            final(self).spec_context() == *final(r.global_context),
            final(self).wf() == (final(r.global_context).wf() && final(r.call_stack).wf()),
            old(self).wf() ==> r.call_stack.wf(),
            r.sender == sender,
            r.caller == sender,
            r.contract_context == old(self).spec_default_contract(),
            *r.call_stack == old(self).spec_call_stack(),
    {
        let caller = match &sender {
            Some(v) => Some(v.clone()),
            None => None,
        };
        Environment::new(&mut self.context, &self.default_contract, &mut self.call_stack, sender, caller)
    }

    /// Resolves the root scope and hands back the transfers it collected.
    pub fn commit(&mut self) -> (r: Result<AssetMap, Error>)
        requires
            old(self).wf(),
            old(self).spec_context()@.1.len() > 0,
        ensures
            final(self).wf(),
            old(self).spec_context()@.1.len() == 1 ==> (r matches Ok(m) && m.wf() && m@ == old(self).spec_context()@.1[0]
                && final(self).spec_context()@ == after_commit(old(self).spec_context()@)),
            old(self).spec_context()@.1.len() > 1 ==> r is Err,
    {
        match self.context.commit() {
            Ok(Some(map)) => Ok(map),
            Ok(None) => Err(Error::Interpreter(InterpreterError::FailedToConstructAssetTable)),
            Err(e) => Err(e),
        }
    }

    /// Stores `contract`, the outcome of loading the contract `contract_name`,
    /// and commits the transaction. When loading failed, the transaction is
    /// rolled back and the error returned.
    pub fn initialize_contract(&mut self, contract_name: &str, contract: Result<Contract, Error>) -> (r: Result<(), Error>)
        requires
            old(self).wf(),
            old(self).spec_context()@.1.len() == 1,
        ensures
            final(self).wf(),
            final(self).spec_context()@.1.len() == 0,
            match contract {
                Ok(c) => r is Ok && final(self).spec_context().spec_database().contracts()
                    == old(self).spec_context().spec_database().contracts().insert(contract_name@, c),
                Err(e) => r == Err::<(), Error>(e) && final(self).spec_context()@ == after_roll_back(old(self).spec_context()@),
            },
    {
        let loaded = initialize_contract(&mut self.context, contract_name, contract);
        match loaded {
            Ok(()) => {
                match self.context.commit() {
                    Ok(_) => Ok(()),
                    Err(e) => Err(e),
                }
            },
            Err(e) => {
                self.context.roll_back();
                Err(e)
            },
        }
    }

    /// Starts the transaction `tx_name` of the contract `contract_name`, sent
    /// by `sender` with the literal arguments `args`: the function is
    /// resolved and its save point opened. A refused call rolls the
    /// transaction back.
    pub fn begin_transaction(&mut self, sender: Value, contract_name: &str, tx_name: &str, args: &[SymbolicExpression]) -> (r: Result<PreparedCall, Error>)
        requires
            old(self).wf(),
            old(self).spec_context()@.1.len() == 1,
            sender is Principal,
        ensures
            final(self).wf(),
            ({
                let v = old(self).spec_context()@;
                match call_refusal(old(self).spec_context().spec_database(), contract_name@, tx_name@, args@) {
                    Some(e) => r matches Err(e2) && same_kind(e, e2) && names_refused(e2, contract_name@, tx_name@) && final(self).spec_context()@ == after_roll_back(v),
                    None => r matches Ok(call) && {
                        &&& call.function == old(self).spec_context().spec_database().contracts()[contract_name@].contract_context.functions@[tx_name@]
                        &&& same_context(call.contract_context, old(self).spec_context().spec_database().contracts()[contract_name@].contract_context)
                        &&& call.args@.len() == args@.len()
                        &&& forall|i: int| 0 <= i < args@.len() ==> args@[i] == SymbolicExpression::AtomValue(#[trigger] call.args@[i])
                        &&& final(self).spec_context()@ == after_nest(v, call.function.read_only)
                    },
                }
            }),
    {
        let begun = begin_contract_call(&mut self.context, contract_name, tx_name, args);
        match begun {
            Ok(call) => Ok(call),
            Err(e) => {
                self.context.roll_back();
                Err(e)
            },
        }
    }

    /// Finishes the transaction begun for `call`, whose function returned
    /// `result`: its save point is resolved as `settled` says, then the root
    /// scope commits and its transfers are handed back with the value. An
    /// error rolls the transaction back instead.
    pub fn finish_transaction(&mut self, call: &PreparedCall, result: Result<Value, Error>) -> (r: Result<(Value, AssetMap), Error>)
        requires
            old(self).wf(),
            old(self).spec_context()@.1.len() == 2,
        ensures
            final(self).wf(),
            ({
                let (r1, v1) = settled(old(self).spec_context()@, call.function.read_only, result);
                match r1 {
                    Ok(value) => r matches Ok((value2, m)) && value2 == value && m.wf() && m@ == v1.1[0]
                        && final(self).spec_context()@ == after_commit(v1),
                    Err(e) => r == Err::<(Value, AssetMap), Error>(e) && final(self).spec_context()@ == after_roll_back(v1),
                }
            }),
    {
        let finished = finish_function_as_transaction(&mut self.context, &call.function, result);
        match finished {
            Ok(value) => match self.commit() {
                Ok(map) => Ok((value, map)),
                Err(e) => Err(e),
            },
            Err(e) => {
                self.context.roll_back();
                Err(e)
            },
        }
    }

    /// Gives the database back.
    pub fn into_database(self) -> (r: ContractDatabase)
        requires
            self.wf(),
        ensures
            r.wf(),
            r == self.spec_context().spec_database(),
    {
        self.context.into_database()
    }
}

} // verus!
