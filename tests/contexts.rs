use vm_contexts::asset_map::AssetMap;
use vm_contexts::call_stack::CallStack;
use vm_contexts::contract_context::{Contract, ContractContext};
use vm_contexts::database::{BlockHeaderHash, BurnchainHeaderHash, ContractDatabase, SimmedBlock, VRFSeed};
use vm_contexts::environment::{begin_read_only, first_expression, PreparedCall};
use vm_contexts::errors::{Error, InterpreterError, RuntimeErrorType, UncheckedError};
use vm_contexts::global_context::GlobalContext;
use vm_contexts::local_context::{LocalContext, MAX_CONTEXT_DEPTH};
use vm_contexts::owned_environment::OwnedEnvironment;
use vm_contexts::types::{AssetIdentifier, DefinedFunction, FunctionIdentifier, PrincipalData, ResponseData, SymbolicExpression, Value};

fn asset(contract: &str, name: &str) -> AssetIdentifier {
    AssetIdentifier { contract_name: contract.to_string(), asset_name: name.to_string() }
}

fn p(id: u64) -> PrincipalData {
    PrincipalData { id }
}

fn response(committed: bool) -> Value {
    Value::Response(ResponseData { committed, data: Box::new(Value::Bool(true)) })
}

fn function(name: &str, public: bool, read_only: bool) -> DefinedFunction {
    DefinedFunction { name: name.to_string(), public, read_only }
}

fn token_contract() -> Contract {
    let mut context = ContractContext::new("C".to_string());
    context.functions.insert("pay".to_string(), function("pay", true, false));
    context.functions.insert("secret".to_string(), function("secret", false, false));
    context.functions.insert("peek".to_string(), function("peek", true, true));
    context.variables.insert("supply".to_string(), Value::Int(1000));
    Contract { contract_context: context }
}

fn database_with_token() -> ContractDatabase {
    let mut env = OwnedEnvironment::new(ContractDatabase::new());
    env.initialize_contract("C", Ok(token_contract())).unwrap();
    env.into_database()
}

fn fid(name: &str) -> FunctionIdentifier {
    FunctionIdentifier { identifier: name.to_string() }
}

fn nest_depth(ctx: &LocalContext, remaining: u32) -> Result<u16, Error> {
    if remaining == 0 {
        return Ok(ctx.depth());
    }
    let child = ctx.extend()?;
    nest_depth(&child, remaining - 1)
}

#[test]
fn add_transfer_accumulates() {
    let mut map = AssetMap::new();
    map.add_transfer(&p(1), asset("C", "token"), 100).unwrap();
    map.add_transfer(&p(1), asset("C", "token"), -30).unwrap();
    map.add_transfer(&p(2), asset("C", "token"), 5).unwrap();
    assert_eq!(map.get_amount(&p(1), &asset("C", "token")), 70);
    assert_eq!(map.get_amount(&p(2), &asset("C", "token")), 5);
    assert_eq!(map.get_amount(&p(3), &asset("C", "token")), 0);
    assert_eq!(map.get_amount(&p(1), &asset("C", "other")), 0);
}

#[test]
fn add_transfer_overflow_leaves_map_unchanged() {
    let mut map = AssetMap::new();
    map.add_transfer(&p(1), asset("C", "token"), i128::MAX).unwrap();
    let r = map.add_transfer(&p(1), asset("C", "token"), 1);
    assert_eq!(r, Err(Error::Runtime(RuntimeErrorType::ArithmeticOverflow)));
    assert_eq!(map.get_amount(&p(1), &asset("C", "token")), i128::MAX);
    let r = map.add_transfer(&p(2), asset("C", "token"), i128::MIN);
    assert!(r.is_ok());
    assert_eq!(map.add_transfer(&p(2), asset("C", "token"), -1), Err(Error::Runtime(RuntimeErrorType::ArithmeticOverflow)));
}

#[test]
fn commit_other_matches_direct_transfers() {
    let mut parent = AssetMap::new();
    parent.add_transfer(&p(1), asset("C", "token"), 10).unwrap();
    let mut direct = AssetMap::new();
    direct.add_transfer(&p(1), asset("C", "token"), 10).unwrap();

    let mut child = AssetMap::new();
    for (who, amount) in [(1u64, 5i128), (2, 7), (1, 3)] {
        child.add_transfer(&p(who), asset("C", "token"), amount).unwrap();
        direct.add_transfer(&p(who), asset("C", "token"), amount).unwrap();
    }
    parent.commit_other(child).unwrap();
    assert_eq!(parent.get_amount(&p(1), &asset("C", "token")), 18);
    assert_eq!(parent.get_amount(&p(2), &asset("C", "token")), 7);
    assert_eq!(direct.get_amount(&p(1), &asset("C", "token")), 18);
    assert_eq!(direct.get_amount(&p(2), &asset("C", "token")), 7);
}

#[test]
fn commit_other_overflow_is_atomic() {
    let mut parent = AssetMap::new();
    parent.add_transfer(&p(1), asset("C", "a"), 1).unwrap();
    parent.add_transfer(&p(2), asset("C", "b"), i128::MAX).unwrap();
    let mut child = AssetMap::new();
    child.add_transfer(&p(1), asset("C", "a"), 50).unwrap();
    child.add_transfer(&p(3), asset("C", "c"), 9).unwrap();
    child.add_transfer(&p(2), asset("C", "b"), 1).unwrap();
    let r = parent.commit_other(child);
    assert_eq!(r, Err(Error::Runtime(RuntimeErrorType::ArithmeticOverflow)));
    assert_eq!(parent.get_amount(&p(1), &asset("C", "a")), 1);
    assert_eq!(parent.get_amount(&p(2), &asset("C", "b")), i128::MAX);
    assert_eq!(parent.get_amount(&p(3), &asset("C", "c")), 0);
}

#[test]
fn call_stack_reentrancy_guard() {
    let mut stack = CallStack::new();
    let f = fid("user:C:pay");
    assert!(!stack.contains(&f));
    stack.insert(&f, true);
    assert!(stack.contains(&f));
    assert_eq!(stack.depth(), 1);
    stack.remove(&f, true).unwrap();
    assert!(!stack.contains(&f));
    assert_eq!(stack.depth(), 0);
}

#[test]
fn call_stack_untracked_is_not_in_use() {
    let mut stack = CallStack::new();
    let f = fid("user:C:peek");
    stack.insert(&f, false);
    assert!(!stack.contains(&f));
    assert_eq!(stack.depth(), 1);
    stack.remove(&f, false).unwrap();
    assert_eq!(stack.depth(), 0);
}

#[test]
fn call_stack_balanced_sequence_ends_empty() {
    let mut stack = CallStack::new();
    let (f, g, h) = (fid("f"), fid("g"), fid("h"));
    stack.insert(&f, true);
    stack.insert(&g, false);
    stack.remove(&g, false).unwrap();
    stack.insert(&h, true);
    assert_eq!(stack.make_stack_trace().len(), 2);
    assert_eq!(stack.make_stack_trace()[1].identifier, "h");
    stack.remove(&h, true).unwrap();
    stack.remove(&f, true).unwrap();
    assert_eq!(stack.depth(), 0);
    assert!(!stack.contains(&f) && !stack.contains(&g) && !stack.contains(&h));
    assert!(stack.make_stack_trace().is_empty());
}

#[test]
fn call_stack_remove_errors() {
    let mut stack = CallStack::new();
    assert!(matches!(stack.remove(&fid("f"), false), Err(Error::Interpreter(InterpreterError::InterpreterError(_)))));
    stack.insert(&fid("f"), false);
    assert!(matches!(stack.remove(&fid("g"), false), Err(Error::Interpreter(InterpreterError::InterpreterError(_)))));
    assert_eq!(stack.depth(), 0);
}

#[test]
fn local_context_depth_cap() {
    let root = LocalContext::new();
    assert_eq!(nest_depth(&root, 256), Ok(MAX_CONTEXT_DEPTH));
    assert_eq!(nest_depth(&root, 257), Err(Error::Runtime(RuntimeErrorType::MaxContextDepthReached)));
}

#[test]
fn local_context_lookup_innermost() {
    let mut root = LocalContext::new();
    root.define_variable("x".to_string(), Value::Int(1));
    root.define_variable("y".to_string(), Value::Int(2));
    let mut child = root.extend().unwrap();
    child.define_variable("x".to_string(), Value::Int(10));
    let grandchild = child.extend().unwrap();
    assert_eq!(grandchild.depth(), 2);
    assert!(matches!(grandchild.lookup_variable("x"), Some(Value::Int(10))));
    assert!(matches!(grandchild.lookup_variable("y"), Some(Value::Int(2))));
    assert!(grandchild.lookup_variable("z").is_none());
    assert!(matches!(root.lookup_variable("x"), Some(Value::Int(1))));
}

#[test]
fn contract_context_lookups() {
    let contract = token_contract();
    let ctx = &contract.contract_context;
    assert!(matches!(ctx.lookup_variable("supply"), Some(Value::Int(1000))));
    assert!(ctx.lookup_variable("missing").is_none());
    let f = ctx.lookup_function("secret").unwrap();
    assert!(!f.is_public());
    assert!(!f.is_read_only());
    assert!(ctx.lookup_function("peek").unwrap().is_read_only());
    assert!(ctx.lookup_function("missing").is_none());
}

#[test]
fn database_save_points() {
    let mut db = ContractDatabase::new();
    db.begin_save_point();
    db.insert_contract("A", token_contract());
    db.begin_save_point();
    db.insert_contract("B", token_contract());
    assert!(db.get_contract("B").is_ok());
    db.roll_back();
    assert!(db.get_contract("B").is_err());
    db.begin_save_point();
    db.insert_contract("B", token_contract());
    db.commit();
    db.commit();
    assert_eq!(db.save_point_depth(), 0);
    assert!(db.get_contract("A").is_ok());
    assert!(db.get_contract("B").is_ok());
    assert!(matches!(db.get_contract("Z"), Err(Error::Unchecked(UncheckedError::UndefinedContract(n))) if n == "Z"));
}

#[test]
fn read_only_evaluation_leaves_database() {
    let mut ctx = GlobalContext::begin_from(database_with_token());
    let program = vec![SymbolicExpression::Atom("x".to_string())];
    begin_read_only(&mut ctx, "C", &program).unwrap();
    ctx.insert_contract("D", token_contract());
    ctx.log_asset_transfer(&p(1), "C", "token", 3).unwrap();
    assert!(ctx.database().get_contract("D").is_ok());
    ctx.roll_back();
    assert!(ctx.database().get_contract("D").is_err());
    assert_eq!(ctx.depth(), 1);
    assert!(matches!(begin_read_only(&mut ctx, "C", &[]), Err(Error::Runtime(RuntimeErrorType::ParseError(_)))));
    assert!(matches!(begin_read_only(&mut ctx, "Q", &program), Err(Error::Unchecked(UncheckedError::UndefinedContract(_)))));
    assert_eq!(ctx.depth(), 1);
}

#[test]
fn global_context_nesting_and_read_only() {
    let mut ctx = GlobalContext::begin_from(ContractDatabase::new());
    assert!(!ctx.is_read_only());
    ctx.nest_read_only();
    assert!(ctx.is_read_only());
    ctx.nest();
    assert!(ctx.is_read_only());
    assert_eq!(ctx.depth(), 3);
    ctx.roll_back();
    ctx.roll_back();
    assert!(!ctx.is_read_only());
}

#[test]
fn global_context_commit_folds_into_parent() {
    let mut ctx = GlobalContext::begin_from(ContractDatabase::new());
    ctx.log_asset_transfer(&p(1), "C", "token", 4).unwrap();
    ctx.nest();
    ctx.log_asset_transfer(&p(1), "C", "token", 6).unwrap();
    assert!(matches!(ctx.commit(), Ok(None)));
    let map = ctx.commit().unwrap().unwrap();
    assert_eq!(map.get_amount(&p(1), &asset("C", "token")), 10);
    assert_eq!(ctx.depth(), 0);
}

#[test]
fn overflow_on_commit_rolls_back() {
    let mut ctx = GlobalContext::begin_from(ContractDatabase::new());
    ctx.log_asset_transfer(&p(1), "C", "token", i128::MAX).unwrap();
    ctx.nest();
    ctx.insert_contract("D", token_contract());
    ctx.log_asset_transfer(&p(1), "C", "token", 1).unwrap();
    let r = ctx.handle_tx_result(Ok(response(true)));
    assert!(matches!(r, Err(Error::Runtime(RuntimeErrorType::ArithmeticOverflow))));
    assert!(ctx.database().get_contract("D").is_err());
    let map = ctx.commit().unwrap().unwrap();
    assert_eq!(map.get_amount(&p(1), &asset("C", "token")), i128::MAX);
}

#[test]
fn handle_tx_result_non_response() {
    let mut ctx = GlobalContext::begin_from(ContractDatabase::new());
    ctx.nest();
    let r = ctx.handle_tx_result(Ok(Value::Int(3)));
    assert_eq!(r.unwrap_err(), Error::Unchecked(UncheckedError::ContractMustReturnBoolean));
    assert_eq!(ctx.depth(), 1);
    ctx.nest();
    let r = ctx.handle_tx_result(Err(Error::Runtime(RuntimeErrorType::ArithmeticOverflow)));
    assert_eq!(r.unwrap_err(), Error::Runtime(RuntimeErrorType::ArithmeticOverflow));
    assert_eq!(ctx.depth(), 1);
}

#[test]
fn transaction_commit_path() {
    let mut env = OwnedEnvironment::new(database_with_token());
    let args = vec![SymbolicExpression::AtomValue(Value::Principal(p(2))), SymbolicExpression::AtomValue(Value::Int(100))];
    let call: PreparedCall = env.begin_transaction(Value::Principal(p(1)), "C", "pay", &args).unwrap();
    assert_eq!(call.args.len(), 2);
    assert!(matches!(call.args[1], Value::Int(100)));
    {
        let exec_env = env.get_exec_environment(Some(Value::Principal(p(1))));
        exec_env.global_context.log_asset_transfer(&p(1), "C", "token", 100).unwrap();
    }
    let (value, map) = env.finish_transaction(&call, Ok(response(true))).unwrap();
    assert!(matches!(value, Value::Response(ResponseData { committed: true, .. })));
    assert_eq!(map.get_amount(&p(1), &asset("C", "token")), 100);
    assert_eq!(env.context().depth(), 0);
}

#[test]
fn transaction_abort_path() {
    let mut env = OwnedEnvironment::new(database_with_token());
    let args = vec![SymbolicExpression::AtomValue(Value::Principal(p(2))), SymbolicExpression::AtomValue(Value::Int(100))];
    let call = env.begin_transaction(Value::Principal(p(1)), "C", "pay", &args).unwrap();
    {
        let exec_env = env.get_exec_environment(Some(Value::Principal(p(1))));
        exec_env.global_context.log_asset_transfer(&p(1), "C", "token", 100).unwrap();
        exec_env.global_context.insert_contract("D", token_contract());
    }
    let (value, map) = env.finish_transaction(&call, Ok(response(false))).unwrap();
    assert!(matches!(value, Value::Response(ResponseData { committed: false, .. })));
    assert_eq!(map.get_amount(&p(1), &asset("C", "token")), 0);
    let db = env.into_database();
    assert!(db.get_contract("D").is_err());
    assert!(db.get_contract("C").is_ok());
    assert_eq!(db.save_point_depth(), 0);
}

#[test]
fn transaction_non_public_function() {
    let mut env = OwnedEnvironment::new(database_with_token());
    let r = env.begin_transaction(Value::Principal(p(1)), "C", "secret", &[]);
    assert!(matches!(r, Err(Error::Unchecked(UncheckedError::NonPublicFunction(n))) if n == "secret"));
    assert_eq!(env.context().depth(), 0);
}

#[test]
fn transaction_refusals() {
    let mut env = OwnedEnvironment::new(database_with_token());
    let r = env.begin_transaction(Value::Principal(p(1)), "C", "nope", &[]);
    assert!(matches!(r, Err(Error::Unchecked(UncheckedError::UndefinedFunction(n))) if n == "nope"));
    let mut env = OwnedEnvironment::new(env.into_database());
    let r = env.begin_transaction(Value::Principal(p(1)), "Z", "pay", &[]);
    assert!(matches!(r, Err(Error::Unchecked(UncheckedError::UndefinedContract(_)))));
    let mut env = OwnedEnvironment::new(env.into_database());
    let args = vec![SymbolicExpression::Atom("x".to_string())];
    let r = env.begin_transaction(Value::Principal(p(1)), "C", "pay", &args);
    assert!(matches!(r, Err(Error::Interpreter(InterpreterError::InterpreterError(_)))));
}

#[test]
fn transaction_read_only_function_is_rolled_back() {
    let mut env = OwnedEnvironment::new(database_with_token());
    let call = env.begin_transaction(Value::Principal(p(1)), "C", "peek", &[]).unwrap();
    assert!(env.context().is_read_only());
    {
        let exec_env = env.get_exec_environment(None);
        exec_env.global_context.log_asset_transfer(&p(1), "C", "token", 5).unwrap();
    }
    let (value, map) = env.finish_transaction(&call, Ok(Value::Int(7))).unwrap();
    assert!(matches!(value, Value::Int(7)));
    assert_eq!(map.get_amount(&p(1), &asset("C", "token")), 0);
}

#[test]
fn transaction_error_propagates() {
    let mut env = OwnedEnvironment::new(database_with_token());
    let call = env.begin_transaction(Value::Principal(p(1)), "C", "pay", &[]).unwrap();
    let r = env.finish_transaction(&call, Err(Error::Runtime(RuntimeErrorType::ArithmeticOverflow)));
    assert!(matches!(r, Err(Error::Runtime(RuntimeErrorType::ArithmeticOverflow))));
    assert_eq!(env.context().depth(), 0);
}

#[test]
fn initialize_contract_failure_rolls_back() {
    let mut env = OwnedEnvironment::new(ContractDatabase::new());
    let r = env.initialize_contract("C", Err(Error::Runtime(RuntimeErrorType::ParseError("bad".to_string()))));
    assert_eq!(r, Err(Error::Runtime(RuntimeErrorType::ParseError("bad".to_string()))));
    let db = env.into_database();
    assert!(db.get_contract("C").is_err());
    assert_eq!(db.save_point_depth(), 0);
}

#[test]
fn to_table_groups_by_principal() {
    let mut map = AssetMap::new();
    map.add_transfer(&p(1), asset("C", "a"), 3).unwrap();
    map.add_transfer(&p(2), asset("C", "a"), 4).unwrap();
    map.add_transfer(&p(1), asset("C", "b"), 5).unwrap();
    map.add_transfer(&p(1), asset("C", "a"), 1).unwrap();
    let table = map.to_table();
    assert_eq!(table.len(), 2);
    let ones: Vec<_> = table.iter().filter(|(who, _)| who.id == 1).collect();
    assert_eq!(ones.len(), 1);
    let mut entries: Vec<(String, i128)> = ones[0].1.iter().map(|(a, n)| (a.asset_name.clone(), *n)).collect();
    entries.sort();
    assert_eq!(entries, vec![("a".to_string(), 4), ("b".to_string(), 5)]);
    let twos: Vec<_> = table.iter().filter(|(who, _)| who.id == 2).collect();
    assert_eq!(twos[0].1.len(), 1);
    assert_eq!(twos[0].1[0].1, 4);
    assert!(AssetMap::new().to_table().is_empty());
}

#[test]
fn chain_state_accessors() {
    let mut db = ContractDatabase::new();
    for h in 0..3u8 {
        db.sim_mine_block(SimmedBlock {
            time: 1000 + h as u64,
            header_hash: BlockHeaderHash([h; 32]),
            burnchain_header_hash: BurnchainHeaderHash([h + 10; 32]),
            vrf_seed: VRFSeed([h + 20; 32]),
        });
    }
    assert!(db.get_simmed_block(3).is_none());
    let ctx = GlobalContext::begin_from(db);
    assert_eq!(ctx.get_block_height(), 3);
    assert_eq!(ctx.get_block_time(2), 1002);
    assert_eq!(ctx.get_block_header_hash(1).0, [1u8; 32]);
    assert_eq!(ctx.get_burnchain_block_header_hash(1).0, [11u8; 32]);
    assert_eq!(ctx.get_block_vrf_seed(0).0, [20u8; 32]);
}

#[test]
fn environment_nesting_sets_sender_and_caller() {
    let mut ctx = GlobalContext::begin_from(ContractDatabase::new());
    let contract = ContractContext::new("C".to_string());
    let mut stack = CallStack::new();
    let mut env = vm_contexts::environment::Environment::new(&mut ctx, &contract, &mut stack, Some(Value::Principal(p(1))), Some(Value::Principal(p(1))));
    {
        let inner = env.nest_with_caller(Value::Principal(p(2)));
        assert!(matches!(inner.sender, Some(Value::Principal(PrincipalData { id: 1 }))));
        assert!(matches!(inner.caller, Some(Value::Principal(PrincipalData { id: 2 }))));
    }
    let inner = env.nest_as_principal(Value::Principal(p(3)));
    assert!(matches!(inner.sender, Some(Value::Principal(PrincipalData { id: 3 }))));
    assert!(matches!(inner.caller, Some(Value::Principal(PrincipalData { id: 3 }))));
}

#[test]
fn prepared_call_carries_contract_context() {
    let mut env = OwnedEnvironment::new(database_with_token());
    let call = env.begin_transaction(Value::Principal(p(1)), "C", "peek", &[]).unwrap();
    assert_eq!(call.contract_context.name, "C");
    assert!(matches!(call.contract_context.lookup_variable("supply"), Some(Value::Int(1000))));
    assert!(call.contract_context.lookup_function("pay").unwrap().is_public());
}

#[test]
fn read_only_hands_back_contract_context() {
    let mut ctx = GlobalContext::begin_from(database_with_token());
    let program = vec![SymbolicExpression::AtomValue(Value::Int(1))];
    let context = begin_read_only(&mut ctx, "C", &program).unwrap();
    assert_eq!(context.name, "C");
    assert!(matches!(context.lookup_variable("supply"), Some(Value::Int(1000))));
    ctx.roll_back();
}

#[test]
fn first_expression_of_program() {
    let program = vec![SymbolicExpression::AtomValue(Value::Int(4)), SymbolicExpression::Atom("x".to_string())];
    assert!(matches!(first_expression(&program), Ok(SymbolicExpression::AtomValue(Value::Int(4)))));
    assert!(matches!(first_expression(&[]), Err(Error::Runtime(RuntimeErrorType::ParseError(_)))));
}

#[test]
fn contract_clone_keeps_contents() {
    let contract = token_contract();
    let copy = contract.clone();
    assert_eq!(copy.contract_context.name, "C");
    assert!(matches!(copy.contract_context.lookup_variable("supply"), Some(Value::Int(1000))));
    assert!(!copy.contract_context.lookup_function("secret").unwrap().is_public());
}

#[test]
fn aborted_transaction_table_is_empty() {
    let mut env = OwnedEnvironment::new(database_with_token());
    let call = env.begin_transaction(Value::Principal(p(1)), "C", "pay", &[]).unwrap();
    {
        let exec_env = env.get_exec_environment(Some(Value::Principal(p(1))));
        exec_env.global_context.log_asset_transfer(&p(1), "C", "token", 100).unwrap();
    }
    let (_, map) = env.finish_transaction(&call, Ok(response(false))).unwrap();
    assert!(map.to_table().is_empty());
}
