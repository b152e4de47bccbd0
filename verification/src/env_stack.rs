//! The stack of environments and the chain of middleware that a runtime holds.
//!
//! Both hold trait objects whose traits name `Runtime`, while `Runtime` holds
//! them: Verus refuses such a cycle among type definitions, so each collection
//! stands in a struct whose fields Verus does not read. Verus cannot tell one
//! trait object from another either, so each environment and each middleware
//! carries an identifier, kept beside it; the contents are named by
//! `env_count`, `env_ids`, `env_below_top` and `middleware_ids`, and each
//! method's contract says what it does to them.

use crate::handler::{CommandHandler, Middleware};
use std::rc::Rc;
use vstd::prelude::*;

verus! {

/// The environments, bottom (index 0) to top, and beside them their
/// identifiers. As a value in contracts a stack stands for the environments
/// it holds, in order, and their identifiers; nothing here reads a capacity.
#[verifier::external_body]
pub struct EnvStack {
    envs: Vec<Box<dyn CommandHandler>>,
    ids: Vec<u64>,
}

/// How many environments the stack holds.
pub uninterp spec fn env_count(stack: EnvStack) -> nat;

/// The identifiers kept beside the environments, bottom to top.
pub uninterp spec fn env_ids(stack: EnvStack) -> Seq<u64>;

/// The stack without its top environment and that environment's identifier.
pub uninterp spec fn env_below_top(stack: EnvStack) -> EnvStack;

/// Whether each environment has its identifier: the vector of environments
/// handed out by `as_mut_vec` may have been changed without them.
pub open spec fn in_step(stack: EnvStack) -> bool {
    env_ids(stack).len() == env_count(stack)
}

/// The identifiers of a stack once brought in step: cut to the number of
/// environments, or completed with 0 for environments that came without one.
pub open spec fn stack_ids_of(stack: EnvStack) -> Seq<u64> {
    let ids = env_ids(stack);
    let n = env_count(stack);
    if ids.len() >= n {
        ids.take(n as int)
    } else {
        ids + Seq::new((n - ids.len()) as nat, |k: int| 0u64)
    }
}

/// A stack in step has its own identifiers.
pub proof fn lemma_in_step_ids(stack: EnvStack)
    requires
        in_step(stack),
    ensures
        stack_ids_of(stack) == env_ids(stack),
{
    assert(env_ids(stack).take(env_count(stack) as int) =~= env_ids(stack));
}

impl EnvStack {
    /// `Vec::new`, for both vectors: an empty stack.
    #[verifier::external_body]
    pub(crate) fn new() -> (s: EnvStack)
        ensures
            env_count(s) == 0,
            env_ids(s) == Seq::<u64>::empty(),
    {
        EnvStack { envs: Vec::new(), ids: Vec::new() }
    }

    /// `Vec::len` of the environments.
    #[verifier::external_body]
    pub(crate) fn len(&self) -> (n: usize)
        ensures
            n == env_count(*self),
    {
        self.envs.len()
    }

    /// `Vec::len` of the identifiers.
    #[verifier::external_body]
    pub(crate) fn id_count(&self) -> (n: usize)
        ensures
            n == env_ids(*self).len(),
    {
        self.ids.len()
    }

    /// `Vec::push`, for both vectors: the environment becomes the top, with
    /// its identifier, above the stack as it was.
    #[verifier::external_body]
    pub(crate) fn push(&mut self, id: u64, env: Box<dyn CommandHandler>)
        ensures
            env_count(*final(self)) == env_count(*old(self)) + 1,
            env_ids(*final(self)) == env_ids(*old(self)).push(id),
            env_below_top(*final(self)) == *old(self),
    {
        self.envs.push(env);
        self.ids.push(id);
    }

    /// `Vec::pop`, for both vectors: removes the top environment, if there is
    /// one, and hands it back with its identifier; what is left is the stack
    /// below it.
    #[verifier::external_body]
    pub(crate) fn pop(&mut self) -> (top: Option<(u64, Box<dyn CommandHandler>)>)
        requires
            in_step(*old(self)),
        ensures
            env_count(*old(self)) == 0 ==> top is None && *final(self) == *old(self),
            env_count(*old(self)) > 0 ==> (top matches Some((id, _)) && id == env_ids(
                *old(self),
            ).last()) && *final(self) == env_below_top(*old(self)) && env_count(*final(self))
                == env_count(*old(self)) - 1 && env_ids(*final(self)) == env_ids(
                *old(self),
            ).drop_last(),
    {
        match (self.ids.pop(), self.envs.pop()) {
            (Some(id), Some(env)) => Some((id, env)),
            _ => None,
        }
    }

    /// `Vec::remove`, for both vectors: takes the environment at `index`, with
    /// its identifier, out of the stack.
    #[verifier::external_body]
    pub(crate) fn take(&mut self, index: usize) -> (taken: (u64, Box<dyn CommandHandler>))
        requires
            index < env_count(*old(self)),
            in_step(*old(self)),
        ensures
            taken.0 == env_ids(*old(self))[index as int],
            env_count(*final(self)) == env_count(*old(self)) - 1,
            env_ids(*final(self)) == env_ids(*old(self)).remove(index as int),
    {
        (self.ids.remove(index), self.envs.remove(index))
    }

    /// `Vec::insert`, for both vectors: puts an environment back at `index`,
    /// with its identifier.
    #[verifier::external_body]
    pub(crate) fn restore(&mut self, index: usize, id: u64, env: Box<dyn CommandHandler>)
        requires
            index <= env_count(*old(self)),
            in_step(*old(self)),
        ensures
            env_count(*final(self)) == env_count(*old(self)) + 1,
            env_ids(*final(self)) == env_ids(*old(self)).insert(index as int, id),
    {
        self.envs.insert(index, env);
        self.ids.insert(index, id);
    }

    /// `Vec::pop` of the identifiers alone.
    #[verifier::external_body]
    pub(crate) fn pop_id(&mut self)
        requires
            env_ids(*old(self)).len() > 0,
        ensures
            env_count(*final(self)) == env_count(*old(self)),
            env_ids(*final(self)) == env_ids(*old(self)).drop_last(),
    {
        self.ids.pop();
    }

    /// `Vec::push` of an identifier alone.
    #[verifier::external_body]
    pub(crate) fn push_id(&mut self, id: u64)
        ensures
            env_count(*final(self)) == env_count(*old(self)),
            env_ids(*final(self)) == env_ids(*old(self)).push(id),
    {
        self.ids.push(id);
    }

    /// The environments as a slice.
    #[verifier::external_body]
    pub(crate) fn as_slice(&self) -> (s: &[Box<dyn CommandHandler>])
        ensures
            s@.len() == env_count(*self),
    {
        self.envs.as_slice()
    }

    /// The vector of environments, for the caller to change at will; the
    /// identifiers stay as they were.
    #[verifier::external_body]
    pub(crate) fn as_mut_vec(&mut self) -> (v: &mut Vec<Box<dyn CommandHandler>>)
        ensures
            v@.len() == env_count(*old(self)),
            env_count(*final(self)) == final(v)@.len(),
            env_ids(*final(self)) == env_ids(*old(self)),
    {
        &mut self.envs
    }
}

/// Brings the identifiers in step with the environments: extra identifiers
/// go, and an environment that came without one gets 0. A stack already in
/// step is left as it is.
pub(crate) fn sync_ids(stack: &mut EnvStack)
    ensures
        env_count(*final(stack)) == env_count(*old(stack)),
        env_ids(*final(stack)) == stack_ids_of(*old(stack)),
        in_step(*final(stack)),
        in_step(*old(stack)) ==> *final(stack) == *old(stack),
{
    let ghost ids0 = env_ids(*stack);
    let n = stack.len();
    if stack.id_count() == n {
        assert(ids0.take(n as int) =~= ids0);
        return;
    }
    while stack.id_count() > n
        invariant
            env_count(*stack) == n,
            ids0.len() >= env_ids(*stack).len(),
            env_ids(*stack) == ids0.take(env_ids(*stack).len() as int),
            env_ids(*stack).len() >= n || env_ids(*stack).len() == ids0.len(),
        decreases env_ids(*stack).len(),
    {
        let ghost before = env_ids(*stack);
        stack.pop_id();
        assert(env_ids(*stack) =~= ids0.take(env_ids(*stack).len() as int));
    }
    proof {
        if ids0.len() < n {
            assert(env_ids(*stack) =~= ids0);
            assert(env_ids(*stack) =~= ids0 + Seq::new(0, |k: int| 0u64));
        }
    }
    let ghost k0 = env_ids(*stack).len();
    while stack.id_count() < n
        invariant
            env_count(*stack) == n,
            k0 <= env_ids(*stack).len() <= n,
            ids0.len() >= n ==> k0 == n && env_ids(*stack) == ids0.take(n as int),
            ids0.len() < n ==> k0 == ids0.len() && env_ids(*stack) == ids0 + Seq::new(
                (env_ids(*stack).len() - k0) as nat,
                |k: int| 0u64,
            ),
        decreases n - env_ids(*stack).len(),
    {
        let ghost before = env_ids(*stack);
        stack.push_id(0);
        proof {
            if ids0.len() < n {
                assert(env_ids(*stack) =~= ids0 + Seq::new(
                    (env_ids(*stack).len() - k0) as nat,
                    |k: int| 0u64,
                ));
            }
        }
    }
    proof {
        if ids0.len() < n {
            assert(env_ids(*stack) =~= ids0 + Seq::new((n - ids0.len()) as nat, |k: int| 0u64));
        }
    }
}

/// The middleware, in the order in which they were added, each with an
/// identifier.
#[verifier::external_body]
pub struct MiddlewareChain {
    items: Vec<(u64, Rc<Box<dyn Middleware>>)>,
}

/// The identifiers of the middleware, in the order in which they were added.
pub uninterp spec fn middleware_ids(chain: MiddlewareChain) -> Seq<u64>;

/// How many middleware the chain holds.
pub open spec fn middleware_count(chain: MiddlewareChain) -> nat {
    middleware_ids(chain).len()
}

impl MiddlewareChain {
    /// `Vec::new`: an empty chain.
    #[verifier::external_body]
    pub(crate) fn new() -> (c: MiddlewareChain)
        ensures
            middleware_ids(c) == Seq::<u64>::empty(),
    {
        MiddlewareChain { items: Vec::new() }
    }

    /// `Vec::push` of the middleware, shared by `Rc::new`, with its
    /// identifier: it becomes the last.
    #[verifier::external_body]
    pub(crate) fn push(&mut self, id: u64, m: Box<dyn Middleware>)
        ensures
            middleware_ids(*final(self)) == middleware_ids(*old(self)).push(id),
    {
        self.items.push((id, Rc::new(m)))
    }

    /// `Vec::len`.
    #[verifier::external_body]
    pub(crate) fn len(&self) -> (n: usize)
        ensures
            n == middleware_count(*self),
    {
        self.items.len()
    }

    /// The middleware at `index` (`Rc::clone`: the same middleware, shared),
    /// with its identifier.
    #[verifier::external_body]
    pub(crate) fn get(&self, index: usize) -> (m: (u64, Rc<Box<dyn Middleware>>))
        requires
            index < middleware_count(*self),
        ensures
            m.0 == middleware_ids(*self)[index as int],
    {
        (self.items[index].0, self.items[index].1.clone())
    }
}

} // verus!
