use vstd::prelude::*;

use crate::asset_map::merged;
use crate::call_stack::CallStack;
use crate::contract_context::{Contract, ContractContext};
use crate::database::ContractDatabase;
use crate::errors::{Error, InterpreterError, RuntimeErrorType, UncheckedError};
use crate::global_context::{after_nest, commit_fits, settled, GlobalContext};
use crate::types::{DefinedFunction, SymbolicExpression, Value};

verus! {

/// Whether an optional identity, where present, is a principal.
pub open spec fn is_principal(v: Option<Value>) -> bool {
    v matches Some(p) ==> p is Principal
}

/// Whether every argument is a literal value.
pub open spec fn all_literals(args: Seq<SymbolicExpression>) -> bool {
    forall|i: int| 0 <= i < args.len() ==> (#[trigger] args[i]) is AtomValue
}

/// The error a transaction call is refused with, if any: the contract must
/// exist, define the function, make it public, and get literal arguments.
pub open spec fn call_refusal(db: ContractDatabase, contract_name: Seq<char>, tx_name: Seq<char>, args: Seq<SymbolicExpression>) -> Option<Error> {
    if !db.contracts().contains_key(contract_name) {
        Some(Error::Unchecked(UncheckedError::UndefinedContract(arbitrary())))
    } else if !db.contracts()[contract_name].contract_context.functions@.contains_key(tx_name) {
        Some(Error::Unchecked(UncheckedError::UndefinedFunction(arbitrary())))
    } else if !db.contracts()[contract_name].contract_context.functions@[tx_name].public {
        Some(Error::Unchecked(UncheckedError::NonPublicFunction(arbitrary())))
    } else if !all_literals(args) {
        Some(Error::Interpreter(InterpreterError::InterpreterError(arbitrary())))
    } else {
        None
    }
}

/// The same kind of error, whatever message it carries.
pub open spec fn same_kind(a: Error, b: Error) -> bool {
    match (a, b) {
        (Error::Unchecked(UncheckedError::UndefinedContract(_)), Error::Unchecked(UncheckedError::UndefinedContract(_))) => true,
        (Error::Unchecked(UncheckedError::UndefinedFunction(_)), Error::Unchecked(UncheckedError::UndefinedFunction(_))) => true,
        (Error::Unchecked(UncheckedError::NonPublicFunction(_)), Error::Unchecked(UncheckedError::NonPublicFunction(_))) => true,
        (Error::Interpreter(InterpreterError::InterpreterError(_)), Error::Interpreter(InterpreterError::InterpreterError(_))) => true,
        _ => a == b,
    }
}

/// A refusal names what it refuses: the contract, or the function.
pub open spec fn names_refused(e: Error, contract_name: Seq<char>, tx_name: Seq<char>) -> bool {
    match e {
        Error::Unchecked(UncheckedError::UndefinedContract(n)) => n@ == contract_name,
        Error::Unchecked(UncheckedError::UndefinedFunction(n)) => n@ == tx_name,
        Error::Unchecked(UncheckedError::NonPublicFunction(n)) => n@ == tx_name,
        _ => true,
    }
}

/// `c` holds what `d` holds.
pub open spec fn same_context(c: ContractContext, d: ContractContext) -> bool {
    &&& c.name@ == d.name@
    &&& c.variables@ == d.variables@
    &&& c.functions@ == d.functions@
}

/// A function call whose save point is open, waiting for the evaluator's
/// result, with the context of the contract it belongs to.
#[derive(Debug)]
pub struct PreparedCall {
    pub function: DefinedFunction,
    pub args: Vec<Value>,
    pub contract_context: ContractContext,
}

/// The expression of a program that is evaluated: its first.
pub fn first_expression(program: &[SymbolicExpression]) -> (r: Result<&SymbolicExpression, Error>)
    ensures
        program@.len() > 0 <==> r is Ok,
        r matches Ok(e) ==> *e == program@[0],
        r matches Err(e) ==> e matches Error::Runtime(RuntimeErrorType::ParseError(_)),
{
    if program.len() < 1 {
        Err(Error::Runtime(RuntimeErrorType::ParseError("Expected a program of at least length 1".to_string())))
    } else {
        Ok(&program[0])
    }
}

// The steps of a call below need only the global context. `Environment`
// offers them to the evaluator, and `OwnedEnvironment` runs them on the
// context it owns.

/// Looks up `tx_name` in the contract `contract_name` and checks that it
/// may be called as a transaction with `args`.
pub fn resolve_contract_call(global_context: &GlobalContext, contract_name: &str, tx_name: &str, args: &[SymbolicExpression]) -> (r: Result<PreparedCall, Error>)
    ensures
        ({
            let db = global_context.spec_database();
            match call_refusal(db, contract_name@, tx_name@, args@) {
                Some(e) => r matches Err(e2) && same_kind(e, e2) && names_refused(e2, contract_name@, tx_name@),
                None => r matches Ok(call) && {
                    &&& call.function == db.contracts()[contract_name@].contract_context.functions@[tx_name@]
                    &&& same_context(call.contract_context, db.contracts()[contract_name@].contract_context)
                    &&& call.args@.len() == args@.len()
                    &&& forall|i: int| 0 <= i < args@.len() ==> args@[i] == SymbolicExpression::AtomValue(#[trigger] call.args@[i])
                },
            }
        }),
{
    let contract = match global_context.database().get_contract(contract_name) {
        Ok(c) => c,
        Err(e) => return Err(e),
    };
    let function = match contract.contract_context.lookup_function(tx_name) {
        Some(f) => f,
        None => return Err(Error::Unchecked(UncheckedError::UndefinedFunction(tx_name.to_owned()))),
    };
    if !function.is_public() {
        return Err(Error::Unchecked(UncheckedError::NonPublicFunction(tx_name.to_owned())));
    }
    let mut values: Vec<Value> = Vec::new();
    let mut i: usize = 0;
    while i < args.len()
        invariant
            i <= args@.len(),
            values@.len() == i,
            global_context.spec_database().contracts().contains_key(contract_name@),
            global_context.spec_database().contracts()[contract_name@].contract_context.functions@.contains_key(tx_name@),
            function == global_context.spec_database().contracts()[contract_name@].contract_context.functions@[tx_name@],
            function.public,
            *contract == global_context.spec_database().contracts()[contract_name@],
            forall|j: int| 0 <= j < i ==> args@[j] == SymbolicExpression::AtomValue(#[trigger] values@[j]),
        decreases args@.len() - i,
    {
        match args[i].match_atom_value() {
            Some(v) => values.push(v.clone()),
            None => {
                assert(!(args@[i as int] is AtomValue));
                assert(!all_literals(args@));
                return Err(Error::Interpreter(InterpreterError::InterpreterError("Passed non-value expression to exec_tx".to_string())));
            },
        }
        i = i + 1;
    }
    assert forall|j: int| 0 <= j < args@.len() implies (#[trigger] args@[j]) is AtomValue by {
        assert(args@[j] == SymbolicExpression::AtomValue(values@[j]));
    }
    Ok(PreparedCall { function, args: values, contract_context: contract.contract_context.clone() })
}

/// Opens the save point a call of `function` runs under: a read-only one
/// for a read-only function.
pub fn begin_function_as_transaction(global_context: &mut GlobalContext, function: &DefinedFunction)
    requires
        old(global_context).wf(),
        old(global_context)@.1.len() > 0,
    ensures
        final(global_context).wf(),
        final(global_context)@ == after_nest(old(global_context)@, function.read_only),
{
    if function.is_read_only() {
        global_context.nest_read_only();
    } else {
        global_context.nest();
    }
}

/// Resolves the save point of a call of `function` by what the call
/// returned: always rolled back for a read-only function, otherwise as
/// `GlobalContext::handle_tx_result` decides.
pub fn finish_function_as_transaction(global_context: &mut GlobalContext, function: &DefinedFunction, result: Result<Value, Error>) -> (r: Result<Value, Error>)
    requires
        old(global_context).wf(),
        old(global_context)@.1.len() > 0,
    ensures
        final(global_context).wf(),
        (r, final(global_context)@) == settled(old(global_context)@, function.read_only, result),
{
    if function.is_read_only() {
        global_context.roll_back();
        result
    } else {
        global_context.handle_tx_result(result)
    }
}

/// Resolves a transaction call of `tx_name` on the contract
/// `contract_name` and opens the save point it runs under. The evaluator
/// then applies the function to the arguments, and
/// `finish_function_as_transaction` resolves the save point.
pub fn begin_contract_call(global_context: &mut GlobalContext, contract_name: &str, tx_name: &str, args: &[SymbolicExpression]) -> (r: Result<PreparedCall, Error>)
    requires
        old(global_context).wf(),
        old(global_context)@.1.len() > 0,
    ensures
        final(global_context).wf(),
        ({
            let db = old(global_context).spec_database();
            match call_refusal(db, contract_name@, tx_name@, args@) {
                Some(e) => r matches Err(e2) && same_kind(e, e2) && names_refused(e2, contract_name@, tx_name@) && *final(global_context) == *old(global_context),
                None => r matches Ok(call) && {
                    &&& call.function == db.contracts()[contract_name@].contract_context.functions@[tx_name@]
                    &&& same_context(call.contract_context, db.contracts()[contract_name@].contract_context)
                    &&& call.args@.len() == args@.len()
                    &&& forall|i: int| 0 <= i < args@.len() ==> args@[i] == SymbolicExpression::AtomValue(#[trigger] call.args@[i])
                    &&& final(global_context)@ == after_nest(old(global_context)@, call.function.read_only)
                },
            }
        }),
{
    let call = match resolve_contract_call(global_context, contract_name, tx_name, args) {
        Ok(c) => c,
        Err(e) => return Err(e),
    };
    begin_function_as_transaction(global_context, &call.function);
    Ok(call)
}

/// Opens a save point for reading the contract `contract_name`, once the
/// program has at least one expression and the contract exists, and hands
/// back that contract's context. The evaluator then runs the first
/// expression in it, and `GlobalContext::roll_back` discards whatever it did,
/// whether it succeeded or failed.
pub fn begin_read_only(global_context: &mut GlobalContext, contract_name: &str, program: &[SymbolicExpression]) -> (r: Result<ContractContext, Error>)
    requires
        old(global_context).wf(),
        old(global_context)@.1.len() > 0,
    ensures
        final(global_context).wf(),
        program@.len() == 0 ==> r matches Err(Error::Runtime(RuntimeErrorType::ParseError(_))),
        program@.len() > 0 && !old(global_context).spec_database().contracts().contains_key(contract_name@)
            ==> (r matches Err(Error::Unchecked(UncheckedError::UndefinedContract(n))) && n@ == contract_name@),
        r is Err ==> *final(global_context) == *old(global_context),
        r is Ok <==> program@.len() > 0 && old(global_context).spec_database().contracts().contains_key(contract_name@),
        r matches Ok(c) ==> final(global_context)@ == after_nest(old(global_context)@, false)
            && same_context(c, old(global_context).spec_database().contracts()[contract_name@].contract_context),
{
    match first_expression(program) {
        Ok(_) => {},
        Err(e) => return Err(e),
    }
    let context = match global_context.database().get_contract(contract_name) {
        Ok(c) => c.contract_context.clone(),
        Err(e) => return Err(e),
    };
    global_context.nest();
    Ok(context)
}

/// Stores `contract`, the outcome of loading the contract `contract_name`,
/// under a save point of its own: committed when loading succeeded, rolled
/// back (and the error returned) when it failed.
pub fn initialize_contract(global_context: &mut GlobalContext, contract_name: &str, contract: Result<Contract, Error>) -> (r: Result<(), Error>)
    requires
        old(global_context).wf(),
        old(global_context)@.1.len() > 0,
    ensures
        final(global_context).wf(),
        match contract {
            Ok(c) => r is Ok && final(global_context).spec_database().contracts()
                == old(global_context).spec_database().contracts().insert(contract_name@, c)
                && final(global_context)@.1 == old(global_context)@.1
                && final(global_context)@.2 == old(global_context)@.2,
            Err(e) => r == Err::<(), Error>(e) && final(global_context)@ == old(global_context)@,
        },
{
    global_context.nest();
    match contract {
        Ok(c) => {
            global_context.insert_contract(contract_name, c);
            let ghost nested = global_context@;
            assert(commit_fits(nested));
            match global_context.commit() {
                Ok(_) => {
                    assert(merged(nested.1[nested.1.len() - 2], Map::empty()) =~= nested.1[nested.1.len() - 2]);
                    assert(global_context@.1 =~= old(global_context)@.1);
                    assert(global_context@.2 =~= old(global_context)@.2);
                    Ok(())
                },
                Err(e) => Err(e),
            }
        },
        Err(e) => {
            global_context.roll_back();
            Err(e)
        },
    }
}

/// What the evaluator runs under: the global context, the current contract,
/// the call stack, and who sent the transaction and who made this call.
pub struct Environment<'a> {
    pub global_context: &'a mut GlobalContext,
    pub contract_context: &'a ContractContext,
    pub call_stack: &'a mut CallStack,
    pub sender: Option<Value>,
    pub caller: Option<Value>,
}

impl<'a> Environment<'a> {
    pub fn new(
        global_context: &'a mut GlobalContext,
        contract_context: &'a ContractContext,
        call_stack: &'a mut CallStack,
        sender: Option<Value>,
        caller: Option<Value>,
    ) -> (r: Environment<'a>)
        requires
            is_principal(sender),
            is_principal(caller),
        ensures
            *r.global_context == *old(global_context),
            *final(global_context) == *final(r.global_context),
            *r.call_stack == *old(call_stack),
            *final(call_stack) == *final(r.call_stack),
            r.contract_context == contract_context,
            r.sender == sender,
            r.caller == caller,
    {
        Environment { global_context, contract_context, call_stack, sender, caller }
    }

    /// An environment in which `sender` acts on its own behalf, as a contract
    /// does: it is both the sender and the caller.
    pub fn nest_as_principal<'c>(&'c mut self, sender: Value) -> (r: Environment<'c>)
        requires
            sender is Principal,
        ensures
            *r.global_context == *old(self).global_context,
            *r.call_stack == *old(self).call_stack,
            r.contract_context == old(self).contract_context,
            r.sender == Some(sender),
            r.caller == Some(sender),
    {
        let caller = sender.clone();
        Environment::new(&mut *self.global_context, self.contract_context, &mut *self.call_stack, Some(sender), Some(caller))
    }

    /// An environment for a call made by `caller`, on behalf of the same
    /// sender.
    pub fn nest_with_caller<'c>(&'c mut self, caller: Value) -> (r: Environment<'c>)
        requires
            caller is Principal,
            is_principal(old(self).sender),
        ensures
            *r.global_context == *old(self).global_context,
            *r.call_stack == *old(self).call_stack,
            r.contract_context == old(self).contract_context,
            r.sender == old(self).sender,
            r.caller == Some(caller),
    {
        let sender = match &self.sender {
            Some(v) => Some(v.clone()),
            None => None,
        };
        Environment::new(&mut *self.global_context, self.contract_context, &mut *self.call_stack, sender, Some(caller))
    }

    /// Opens the save point a call of `function` runs under: a read-only one
    /// for a read-only function.
    pub fn begin_function_as_transaction(&mut self, function: &DefinedFunction)
        requires
            old(self).global_context.wf(),
            old(self).global_context@.1.len() > 0,
        ensures
            final(self).global_context.wf(),
            final(self).global_context@ == after_nest(old(self).global_context@, function.read_only),
            final(self).contract_context == old(self).contract_context,
            *final(self).call_stack == *old(self).call_stack,
    {
        begin_function_as_transaction(self.global_context, function)
    }

    /// Resolves the save point of a call of `function` by what the call
    /// returned: always rolled back for a read-only function, otherwise as
    /// `GlobalContext::handle_tx_result` decides.
    pub fn finish_function_as_transaction(&mut self, function: &DefinedFunction, result: Result<Value, Error>) -> (r: Result<Value, Error>)
        requires
            old(self).global_context.wf(),
            old(self).global_context@.1.len() > 0,
        ensures
            final(self).global_context.wf(),
            final(self).contract_context == old(self).contract_context,
            *final(self).call_stack == *old(self).call_stack,
            (r, final(self).global_context@) == settled(old(self).global_context@, function.read_only, result),
    {
        finish_function_as_transaction(self.global_context, function, result)
    }

    /// Resolves a transaction call of `tx_name` on the contract
    /// `contract_name` and opens the save point it runs under. The evaluator
    /// then applies the function to the arguments, and
    /// `finish_function_as_transaction` resolves the save point.
    pub fn begin_contract_call(&mut self, contract_name: &str, tx_name: &str, args: &[SymbolicExpression]) -> (r: Result<PreparedCall, Error>)
        requires
            old(self).global_context.wf(),
            old(self).global_context@.1.len() > 0,
        ensures
            final(self).global_context.wf(),
            final(self).contract_context == old(self).contract_context,
            *final(self).call_stack == *old(self).call_stack,
            ({
                let db = old(self).global_context.spec_database();
                match call_refusal(db, contract_name@, tx_name@, args@) {
                    Some(e) => r matches Err(e2) && same_kind(e, e2) && names_refused(e2, contract_name@, tx_name@) && *final(self).global_context == *old(self).global_context,
                    None => r matches Ok(call) && {
                        &&& call.function == db.contracts()[contract_name@].contract_context.functions@[tx_name@]
                        &&& same_context(call.contract_context, db.contracts()[contract_name@].contract_context)
                        &&& call.args@.len() == args@.len()
                        &&& forall|i: int| 0 <= i < args@.len() ==> args@[i] == SymbolicExpression::AtomValue(#[trigger] call.args@[i])
                        &&& final(self).global_context@ == after_nest(old(self).global_context@, call.function.read_only)
                    },
                }
            }),
    {
        begin_contract_call(self.global_context, contract_name, tx_name, args)
    }

    /// Opens a save point for reading the contract `contract_name`, once the
    /// program has at least one expression and the contract exists, and hands
    /// back that contract's context. The evaluator then runs the first
    /// expression in it, and `GlobalContext::roll_back` discards whatever it did,
    /// whether it succeeded or failed.
    pub fn begin_read_only(&mut self, contract_name: &str, program: &[SymbolicExpression]) -> (r: Result<ContractContext, Error>)
        requires
            old(self).global_context.wf(),
            old(self).global_context@.1.len() > 0,
        ensures
            final(self).global_context.wf(),
            final(self).contract_context == old(self).contract_context,
            *final(self).call_stack == *old(self).call_stack,
            program@.len() == 0 ==> r matches Err(Error::Runtime(RuntimeErrorType::ParseError(_))),
            program@.len() > 0 && !old(self).global_context.spec_database().contracts().contains_key(contract_name@)
                ==> (r matches Err(Error::Unchecked(UncheckedError::UndefinedContract(n))) && n@ == contract_name@),
            r is Err ==> *final(self).global_context == *old(self).global_context,
            r is Ok <==> program@.len() > 0 && old(self).global_context.spec_database().contracts().contains_key(contract_name@),
            r matches Ok(c) ==> final(self).global_context@ == after_nest(old(self).global_context@, false)
                && same_context(c, old(self).global_context.spec_database().contracts()[contract_name@].contract_context),
    {
        begin_read_only(self.global_context, contract_name, program)
    }

    /// Stores `contract`, the outcome of loading the contract `contract_name`,
    /// under a save point of its own: committed when loading succeeded, rolled
    /// back (and the error returned) when it failed.
    pub fn initialize_contract(&mut self, contract_name: &str, contract: Result<Contract, Error>) -> (r: Result<(), Error>)
        requires
            old(self).global_context.wf(),
            old(self).global_context@.1.len() > 0,
        ensures
            final(self).global_context.wf(),
            final(self).contract_context == old(self).contract_context,
            *final(self).call_stack == *old(self).call_stack,
            match contract {
                Ok(c) => r is Ok && final(self).global_context.spec_database().contracts()
                    == old(self).global_context.spec_database().contracts().insert(contract_name@, c)
                    && final(self).global_context@.1 == old(self).global_context@.1
                    && final(self).global_context@.2 == old(self).global_context@.2,
                Err(e) => r == Err::<(), Error>(e) && final(self).global_context@ == old(self).global_context@,
            },
    {
        initialize_contract(self.global_context, contract_name, contract)
    }
}

} // verus!
