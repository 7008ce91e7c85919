use vstd::prelude::*;

verus! {

/// Identity of an entity that can hold assets and send transactions.
#[derive(PartialEq, Eq, Structural, Clone, Copy, Debug, Hash)]
pub struct PrincipalData {
    pub id: u64,
}

/// An asset, named by the contract that defines it and its name there.
#[derive(Debug)]
pub struct AssetIdentifier {
    pub contract_name: String,
    pub asset_name: String,
}

impl View for AssetIdentifier {
    type V = (Seq<char>, Seq<char>);

    open spec fn view(&self) -> (Seq<char>, Seq<char>) {
        (self.contract_name@, self.asset_name@)
    }
}

impl Clone for AssetIdentifier {
    fn clone(&self) -> (r: Self)
        ensures
            r@ == self@,
    {
        AssetIdentifier { contract_name: self.contract_name.clone(), asset_name: self.asset_name.clone() }
    }
}

impl AssetIdentifier {
    pub fn same_as(&self, other: &AssetIdentifier) -> (r: bool)
        ensures
            r == (self@ == other@),
    {
        self.contract_name == other.contract_name && self.asset_name == other.asset_name
    }
}

/// Identifier of a function on the call stack, e.g. `user:token:pay`.
#[derive(Debug)]
pub struct FunctionIdentifier {
    pub identifier: String,
}

impl View for FunctionIdentifier {
    type V = Seq<char>;

    open spec fn view(&self) -> Seq<char> {
        self.identifier@
    }
}

impl Clone for FunctionIdentifier {
    fn clone(&self) -> (r: Self)
        ensures
            r@ == self@,
    {
        FunctionIdentifier { identifier: self.identifier.clone() }
    }
}

/// Payload of a response: whether the transaction commits, and its data.
#[derive(Debug)]
pub struct ResponseData {
    pub committed: bool,
    pub data: Box<Value>,
}

/// The evaluator's values, as far as the execution contexts read them.
#[derive(Debug)]
pub enum Value {
    Int(i128),
    Bool(bool),
    Principal(PrincipalData),
    Response(ResponseData),
}

impl Clone for Value {
    fn clone(&self) -> (r: Self)
        ensures
            r == *self,
        decreases self,
    {
        match self {
            Value::Int(i) => Value::Int(*i),
            Value::Bool(b) => Value::Bool(*b),
            Value::Principal(p) => Value::Principal(*p),
            Value::Response(d) => {
                let inner: Value = (*d.data).clone();
                Value::Response(ResponseData { committed: d.committed, data: Box::new(inner) })
            },
        }
    }
}

} // verus!

verus! {

/// A function defined by a contract, as the execution contexts see it.
#[derive(Debug)]
pub struct DefinedFunction {
    pub name: String,
    pub public: bool,
    pub read_only: bool,
}

impl Clone for DefinedFunction {
    fn clone(&self) -> (r: Self)
        ensures
            r == *self,
    {
        DefinedFunction { name: self.name.clone(), public: self.public, read_only: self.read_only }
    }
}

impl DefinedFunction {
    pub fn is_public(&self) -> (r: bool)
        ensures
            r == self.public,
    {
        self.public
    }

    pub fn is_read_only(&self) -> (r: bool)
        ensures
            r == self.read_only,
    {
        self.read_only
    }
}

/// A parsed expression, as far as the execution contexts read it.
#[derive(Debug)]
pub enum SymbolicExpression {
    AtomValue(Value),
    Atom(String),
    List(Vec<SymbolicExpression>),
}

impl SymbolicExpression {
    /// The literal value this expression is, if it is one.
    pub fn match_atom_value(&self) -> (r: Option<&Value>)
        ensures
            match self {
                SymbolicExpression::AtomValue(v) => r == Some(v),
                _ => r is None,
            },
    {
        match self {
            SymbolicExpression::AtomValue(v) => Some(v),
            _ => None,
        }
    }
}

} // verus!
