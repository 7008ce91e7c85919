use vstd::prelude::*;

use crate::errors::{Error, InterpreterError};
use crate::types::FunctionIdentifier;

verus! {

/// What a call stack holds: the functions in call order, and the set of
/// those that were pushed with tracking, for re-entrancy checks.
pub type CallStackView = (Seq<Seq<char>>, Set<Seq<char>>);

pub open spec fn after_insert(v: CallStackView, f: Seq<char>, track: bool) -> CallStackView {
    (v.0.push(f), if track { v.1.insert(f) } else { v.1 })
}

pub open spec fn after_remove(v: CallStackView, f: Seq<char>, untrack: bool) -> CallStackView {
    (v.0.drop_last(), if untrack { v.1.remove(f) } else { v.1 })
}

/// A call followed by its return leaves the stack as it found it, provided
/// that a call pushed with `track` was not already in progress.
pub proof fn lemma_call_then_return(v: CallStackView, f: Seq<char>, track: bool)
    requires
        track ==> !v.1.contains(f),
    ensures
        after_remove(after_insert(v, f, track), f, track) == v,
{
    assert(v.0.push(f).drop_last() =~= v.0);
    if track {
        assert(v.1.insert(f).remove(f) =~= v.1);
    }
}

/// The stack after each of `calls` is pushed in order and then each returns,
/// innermost first.
pub open spec fn nested_calls(v: CallStackView, calls: Seq<(Seq<char>, bool)>) -> CallStackView
    decreases calls.len(),
{
    if calls.len() == 0 {
        v
    } else {
        let (f, track) = calls[0];
        after_remove(nested_calls(after_insert(v, f, track), calls.drop_first()), f, track)
    }
}

/// Calls nested to any depth, each returning in turn, leave the stack as they
/// found it, provided that no function is pushed with `track` while it is
/// already in progress.
pub proof fn lemma_nested_calls_return(v: CallStackView, calls: Seq<(Seq<char>, bool)>)
    requires
        forall|i: int| 0 <= i < calls.len() && (#[trigger] calls[i]).1 ==> !v.1.contains(calls[i].0),
        forall|i: int, j: int| 0 <= i < j < calls.len() && (#[trigger] calls[i]).1 && (#[trigger] calls[j]).1 ==> calls[i].0 != calls[j].0,
    ensures
        nested_calls(v, calls) == v,
    decreases calls.len(),
{
    if calls.len() > 0 {
        let (f, track) = calls[0];
        let rest = calls.drop_first();
        let inner = after_insert(v, f, track);
        assert forall|i: int| 0 <= i < rest.len() && (#[trigger] rest[i]).1 implies !inner.1.contains(rest[i].0) by {
            assert(rest[i] == calls[i + 1]);
        }
        assert forall|i: int, j: int| 0 <= i < j < rest.len() && (#[trigger] rest[i]).1 && (#[trigger] rest[j]).1 implies rest[i].0 != rest[j].0 by {
            assert(rest[i] == calls[i + 1]);
            assert(rest[j] == calls[j + 1]);
        }
        lemma_nested_calls_return(inner, rest);
        lemma_call_then_return(v, f, track);
    }
}

/// Starting from an empty stack, calls nested to any depth that all return
/// leave the depth at 0 and no function in progress.
pub proof fn lemma_nested_calls_from_empty(calls: Seq<(Seq<char>, bool)>)
    requires
        forall|i: int, j: int| 0 <= i < j < calls.len() && (#[trigger] calls[i]).1 && (#[trigger] calls[j]).1 ==> calls[i].0 != calls[j].0,
    ensures
        nested_calls((Seq::empty(), Set::empty()), calls).0.len() == 0,
        forall|f: Seq<char>| !nested_calls((Seq::empty(), Set::empty()), calls).1.contains(f),
{
    lemma_nested_calls_return((Seq::empty(), Set::empty()), calls);
}

/// The functions being executed, innermost last.
///
/// The calls in progress are kept in a `Vec`, each function once, rather
/// than a `HashSet`: a `HashSet` keyed by `String` gives the contracts
/// nothing to say about membership.
pub struct CallStack {
    stack: Vec<FunctionIdentifier>,
    set: Vec<FunctionIdentifier>,
}

pub type StackTrace = Vec<FunctionIdentifier>;

impl View for CallStack {
    type V = CallStackView;

    closed spec fn view(&self) -> CallStackView {
        (
            self.stack@.map_values(|f: FunctionIdentifier| f@),
            Set::new(|f: Seq<char>| exists|i: int| 0 <= i < self.set@.len() && self.set@[i]@ == f),
        )
    }
}

impl CallStack {
    /// The list of calls pushed with `track` holds each function once.
    pub closed spec fn wf(&self) -> bool {
        forall|i: int, j: int| 0 <= i < j < self.set@.len() ==> self.set@[i]@ != self.set@[j]@
    }

    pub fn new() -> (r: CallStack)
        ensures
            r.wf(),
            r@.0 == Seq::<Seq<char>>::empty(),
            r@.1 == Set::<Seq<char>>::empty(),
    {
        let r = CallStack { stack: Vec::new(), set: Vec::new() };
        assert(r@.0 =~= Seq::<Seq<char>>::empty());
        assert(r@.1 =~= Set::<Seq<char>>::empty());
        r
    }

    pub fn depth(&self) -> (r: usize)
        ensures
            r == self@.0.len(),
    {
        self.stack.len()
    }

    fn tracked_index(&self, function: &FunctionIdentifier) -> (r: Option<usize>)
        ensures
            match r {
                Some(i) => i < self.set@.len() && self.set@[i as int]@ == function@,
                None => !self@.1.contains(function@),
            },
    {
        let mut i: usize = 0;
        while i < self.set.len()
            invariant
                i <= self.set@.len(),
                forall|j: int| 0 <= j < i ==> self.set@[j]@ != function@,
            decreases self.set@.len() - i,
        {
            if self.set[i].identifier == function.identifier {
                return Some(i);
            }
            i = i + 1;
        }
        None
    }

    /// Whether `function` is among the calls in progress that were pushed with `track`.
    pub fn contains(&self, function: &FunctionIdentifier) -> (r: bool)
        ensures
            r == self@.1.contains(function@),
    {
        self.tracked_index(function).is_some()
    }

    /// Pushes `function`; with `track`, also records it as in progress.
    pub fn insert(&mut self, function: &FunctionIdentifier, track: bool)
        requires
            old(self).wf(),
        ensures
            final(self).wf(),
            final(self)@ == after_insert(old(self)@, function@, track),
    {
        self.stack.push(function.clone());
        if track && !self.contains(function) {
            self.set.push(function.clone());
        }
        assert(self@.0 =~= old(self)@.0.push(function@));
        if track {
            assert(self@.1 =~= old(self)@.1.insert(function@)) by {
                assert(self.set@.len() > 0 && old(self)@.1.contains(function@) ==> self@.1.contains(function@));
                if !old(self)@.1.contains(function@) {
                    assert(self.set@.last()@ == function@);
                }
                assert forall|f: Seq<char>| old(self)@.1.contains(f) implies self@.1.contains(f) by {
                    let i = choose|i: int| 0 <= i < old(self).set@.len() && old(self).set@[i]@ == f;
                    assert(self.set@[i] == old(self).set@[i]);
                }
                assert forall|f: Seq<char>| self@.1.contains(f) && f != function@ implies old(self)@.1.contains(f) by {
                    let i = choose|i: int| 0 <= i < self.set@.len() && self.set@[i]@ == f;
                    assert(i < old(self).set@.len());
                    assert(self.set@[i] == old(self).set@[i]);
                }
            }
        } else {
            assert(self@.1 =~= old(self)@.1);
        }
    }

    /// Pops the innermost call, which must be `function`; with `untrack`,
    /// `function` is no longer in progress. Fails on an empty stack, and when
    /// another function is innermost (that one is popped all the same).
    pub fn remove(&mut self, function: &FunctionIdentifier, untrack: bool) -> (r: Result<(), Error>)
        requires
            old(self).wf(),
            untrack && old(self)@.0.len() > 0 && old(self)@.0.last() == function@ ==> old(self)@.1.contains(function@),
        ensures
            final(self).wf(),
            old(self)@.0.len() == 0 ==> final(self)@ == old(self)@ && r matches Err(Error::Interpreter(InterpreterError::InterpreterError(_))),
            old(self)@.0.len() > 0 && old(self)@.0.last() != function@ ==> final(self)@ == (old(self)@.0.drop_last(), old(self)@.1)
                && r matches Err(Error::Interpreter(InterpreterError::InterpreterError(_))),
            old(self)@.0.len() > 0 && old(self)@.0.last() == function@ ==> final(self)@ == after_remove(old(self)@, function@, untrack)
                && r is Ok,
    {
        match self.stack.pop() {
            None => {
                assert(self@.0 =~= old(self)@.0);
                Err(Error::Interpreter(InterpreterError::InterpreterError("Tried to remove item from empty call stack.".to_string())))
            },
            Some(removed) => {
                assert(self@.0 =~= old(self)@.0.drop_last());
                assert(removed@ == old(self)@.0.last());
                if removed.identifier != function.identifier {
                    return Err(Error::Interpreter(InterpreterError::InterpreterError("Tried to remove a function that is not innermost on the call stack.".to_string())));
                }
                if untrack {
                    match self.tracked_index(function) {
                        Some(i) => {
                            let ghost before = self.set@;
                            self.set.remove(i);
                            assert(self@.1 =~= old(self)@.1.remove(function@)) by {
                                assert forall|f: Seq<char>| self@.1.contains(f) implies old(self)@.1.contains(f) && f != function@ by {
                                    let j = choose|j: int| 0 <= j < self.set@.len() && self.set@[j]@ == f;
                                    if j < i {
                                        assert(self.set@[j] == before[j]);
                                    } else {
                                        assert(self.set@[j] == before[j + 1]);
                                    }
                                }
                                assert forall|f: Seq<char>| old(self)@.1.contains(f) && f != function@ implies self@.1.contains(f) by {
                                    let j = choose|j: int| 0 <= j < before.len() && before[j]@ == f;
                                    if j < i {
                                        assert(self.set@[j] == before[j]);
                                    } else {
                                        assert(self.set@[j - 1] == before[j]);
                                    }
                                }
                            }
                        },
                        None => {},
                    }
                }
                Ok(())
            },
        }
    }

    /// The calls in progress, outermost first.
    pub fn make_stack_trace(&self) -> (r: StackTrace)
        ensures
            r@.map_values(|f: FunctionIdentifier| f@) == self@.0,
    {
        let mut trace: StackTrace = Vec::new();
        let mut i: usize = 0;
        while i < self.stack.len()
            invariant
                i <= self.stack@.len(),
                trace@.len() == i,
                forall|j: int| 0 <= j < i ==> trace@[j]@ == self.stack@[j]@,
            decreases self.stack@.len() - i,
        {
            trace.push(self.stack[i].clone());
            i = i + 1;
        }
        assert(trace@.map_values(|f: FunctionIdentifier| f@) =~= self@.0);
        trace
    }
}

} // verus!
