use vstd::prelude::*;

use crate::bindings::Bindings;
use crate::errors::{Error, RuntimeErrorType};
use crate::types::Value;

verus! {

pub const MAX_CONTEXT_DEPTH: u16 = 256;

/// A lexical scope: its own variables, and the scope it extends.
pub struct LocalContext<'a> {
    parent: Option<&'a LocalContext<'a>>,
    variables: Bindings<Value>,
    depth: u16,
}

impl<'a> LocalContext<'a> {
    pub closed spec fn spec_depth(&self) -> nat {
        self.depth as nat
    }

    /// The variables this scope binds itself.
    pub closed spec fn own_variables(&self) -> Map<Seq<char>, Value> {
        self.variables@
    }

    /// The scope this one extends.
    pub closed spec fn parent_context(&self) -> Option<&'a LocalContext<'a>> {
        self.parent
    }

    /// The root has depth 0 and no parent; every other scope is one deeper
    /// than its parent, and none is deeper than `MAX_CONTEXT_DEPTH`.
    pub closed spec fn wf(&self) -> bool
        decreases self.spec_depth(),
    {
        &&& self.depth <= MAX_CONTEXT_DEPTH
        &&& match self.parent {
            None => self.depth == 0,
            Some(p) => p.depth + 1 == self.depth && p.wf(),
        }
    }

    /// The value `name` has here: the innermost scope that binds it decides.
    pub closed spec fn resolve(&self, name: Seq<char>) -> Option<Value>
        decreases self.spec_depth(),
        when self.wf()
    {
        if self.variables@.contains_key(name) {
            Some(self.variables@[name])
        } else {
            match self.parent {
                None => None,
                Some(p) => p.resolve(name),
            }
        }
    }

    /// A name resolves to its binding in the innermost scope that binds it,
    /// and to nothing where no scope on the chain binds it.
    pub proof fn lemma_resolve(&self, name: Seq<char>)
        requires
            self.wf(),
        ensures
            self.own_variables().contains_key(name) ==> self.resolve(name) == Some(self.own_variables()[name]),
            !self.own_variables().contains_key(name) && self.parent_context() is None ==> self.resolve(name) is None,
            !self.own_variables().contains_key(name) && self.parent_context() is Some ==> self.parent_context()->Some_0.wf()
                && self.resolve(name) == self.parent_context()->Some_0.resolve(name),
    {
    }

    /// Whether some scope on the chain from this one outwards binds `name`.
    pub open spec fn binds(&self, name: Seq<char>) -> bool
        decreases self.spec_depth(),
        when self.wf()
    {
        self.own_variables().contains_key(name) || match self.parent_context() {
            None => false,
            Some(p) => p.binds(name),
        }
    }

    /// A name resolves to a value exactly where some scope on the chain binds
    /// it, and then to the value that the innermost such scope binds.
    pub proof fn lemma_resolve_chain(&self, name: Seq<char>)
        requires
            self.wf(),
        ensures
            self.resolve(name) is Some <==> self.binds(name),
            self.own_variables().contains_key(name) ==> self.resolve(name) == Some(self.own_variables()[name]),
        decreases self.spec_depth(),
    {
        if !self.own_variables().contains_key(name) {
            if let Some(p) = self.parent_context() {
                assert(p.wf());
                assert(p.spec_depth() < self.spec_depth());
                p.lemma_resolve_chain(name);
            }
        }
    }

    pub fn new() -> (r: LocalContext<'a>)
        ensures
            r.wf(),
            r.spec_depth() == 0,
            r.parent_context() is None,
            r.own_variables() == Map::<Seq<char>, Value>::empty(),
    {
        LocalContext { depth: 0, parent: None, variables: Bindings::new() }
    }

    pub fn depth(&self) -> (r: u16)
        ensures
            r == self.spec_depth(),
    {
        self.depth
    }

    /// A new empty scope inside this one; fails once `MAX_CONTEXT_DEPTH`
    /// scopes are nested.
    pub fn extend(&'a self) -> (r: Result<LocalContext<'a>, Error>)
        requires
            self.wf(),
        ensures
            self.spec_depth() >= MAX_CONTEXT_DEPTH <==> r is Err,
            r matches Err(e) ==> e == Error::Runtime(RuntimeErrorType::MaxContextDepthReached),
            r matches Ok(c) ==> {
                &&& c.wf()
                &&& c.spec_depth() == self.spec_depth() + 1
                &&& c.parent_context() == Some(self)
                &&& c.own_variables() == Map::<Seq<char>, Value>::empty()
            },
    {
        if self.depth >= MAX_CONTEXT_DEPTH {
            Err(Error::Runtime(RuntimeErrorType::MaxContextDepthReached))
        } else {
            Ok(LocalContext { parent: Some(self), variables: Bindings::new(), depth: self.depth + 1 })
        }
    }

    /// Binds `name` in this scope, hiding any binding of it further out.
    pub fn define_variable(&mut self, name: String, value: Value)
        requires
            old(self).wf(),
        ensures
            final(self).wf(),
            final(self).spec_depth() == old(self).spec_depth(),
            final(self).parent_context() == old(self).parent_context(),
            final(self).own_variables() == old(self).own_variables().insert(name@, value),
    {
        self.variables.insert(name, value);
    }

    /// A copy of the value of `name` in the innermost scope that binds it.
    pub fn lookup_variable(&self, name: &str) -> (r: Option<Value>)
        requires
            self.wf(),
        ensures
            r == self.resolve(name@),
        decreases self.spec_depth(),
    {
        match self.variables.get(name) {
            Some(value) => Some(value.clone()),
            None => match self.parent {
                Some(parent) => parent.lookup_variable(name),
                None => None,
            },
        }
    }
}

} // verus!
