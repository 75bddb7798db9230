//! The path-to-callback registry the server dispatches through.

use vstd::hash_map::StringHashMap;
use vstd::prelude::*;
use vstd::string::*;

use crate::status_code::StatusCode;

verus! {

/// Errors from managing or consulting the registry.
#[derive(Debug, PartialEq, Eq)]
pub enum CallbackError {
    /// `register` found the path already taken.
    AlreadyRegistered,
    /// `unregister` or `handle` found no callback for the path.
    NoCallbackForPath,
}

/// A mapping from exact paths to zero-argument handlers that produce a
/// status code.  `F` is the handler type: a plain function pointer
/// (`fn() -> StatusCode`) or a boxed closure both serve.
#[verifier::reject_recursive_types(F)]
pub struct CallbackHandler<F> {
    callbacks: StringHashMap<F>,
}

impl<F> View for CallbackHandler<F> {
    type V = Map<Seq<char>, F>;

    closed spec fn view(&self) -> Map<Seq<char>, F> {
        self.callbacks@
    }
}

impl<F: Fn() -> StatusCode> CallbackHandler<F> {
    /// Every registered handler may be invoked.
    pub open spec fn wf(&self) -> bool {
        forall|p: Seq<char>| #[trigger] self@.contains_key(p) ==> call_requires(self@[p], ())
    }

    /// An empty registry.
    pub fn new() -> (r: CallbackHandler<F>)
        ensures
            r@ == Map::<Seq<char>, F>::empty(),
            r.wf(),
    {
        CallbackHandler { callbacks: StringHashMap::new() }
    }

    /// Register `func` as the callback for `path`.  Fails, changing
    /// nothing, when a callback is already registered there.
    pub fn register(&mut self, path: &str, func: F) -> (r: Result<(), CallbackError>)
        requires
            old(self).wf(),
            call_requires(func, ()),
        ensures
            final(self).wf(),
            match r {
                Ok(()) => !old(self)@.contains_key(path@) && final(self)@ == old(self)@.insert(
                    path@,
                    func,
                ),
                Err(e) => e == CallbackError::AlreadyRegistered && old(self)@.contains_key(path@)
                    && final(self)@ == old(self)@,
            },
    {
        if self.callbacks.contains_key(path) {
            return Err(CallbackError::AlreadyRegistered);
        }
        self.callbacks.insert(path.to_owned(), func);
        proof {
            assert forall|p: Seq<char>| #[trigger] self@.contains_key(p) implies call_requires(
                self@[p],
                (),
            ) by {
                if p != path@ {
                    assert(old(self)@.contains_key(p));
                }
            }
        }
        Ok(())
    }

    /// Remove the callback registered for `path`.  Fails, changing
    /// nothing, when there is none.
    pub fn unregister(&mut self, path: &str) -> (r: Result<(), CallbackError>)
        requires
            old(self).wf(),
        ensures
            final(self).wf(),
            match r {
                Ok(()) => old(self)@.contains_key(path@) && final(self)@ == old(self)@.remove(
                    path@,
                ),
                Err(e) => e == CallbackError::NoCallbackForPath && !old(self)@.contains_key(path@)
                    && final(self)@ == old(self)@,
            },
    {
        if self.callbacks.contains_key(path) {
            self.callbacks.remove(path);
            proof {
                assert forall|p: Seq<char>| #[trigger] self@.contains_key(p) implies call_requires(
                    self@[p],
                    (),
                ) by {
                    assert(old(self)@.contains_key(p));
                }
            }
            Ok(())
        } else {
            Err(CallbackError::NoCallbackForPath)
        }
    }

    /// Look up the callback for `path` and invoke it.  Fails when no
    /// callback is registered there; the caller chooses the default.
    pub fn handle(&self, path: &str) -> (r: Result<StatusCode, CallbackError>)
        requires
            self.wf(),
        ensures
            match r {
                Ok(code) => self@.contains_key(path@) && call_ensures(self@[path@], (), code),
                Err(e) => e == CallbackError::NoCallbackForPath && !self@.contains_key(path@),
            },
    {
        match self.callbacks.get(path) {
            None => Err(CallbackError::NoCallbackForPath),
            Some(func) => {
                proof {
                    assert(self@.contains_key(path@));
                    assert(call_requires(self@[path@], ()));
                }
                Ok(func())
            },
        }
    }
}

impl<F: Fn() -> StatusCode> Default for CallbackHandler<F> {
    fn default() -> (r: Self)
        ensures
            r@ == Map::<Seq<char>, F>::empty(),
            r.wf(),
    {
        Self::new()
    }
}

/// Registering the same path twice fails the second call: after the first
/// registration the path is present, so by `register`'s contract the
/// second attempt returns `AlreadyRegistered` and leaves the registry
/// unchanged — and the path still maps to the handler from the first
/// registration, which is therefore the one `handle` invokes.
pub proof fn lemma_second_registration_rejected<F>(m: Map<Seq<char>, F>, path: Seq<char>, first: F)
    ensures
        m.insert(path, first).contains_key(path),
        m.insert(path, first)[path] == first,
{
}

} // verus!
