//! A value that is computed when it is first needed.
use vstd::prelude::*;
use crate::sync::once::{OnceLock, OnceStage};

verus! {

/// What a `LazyLock` holds, as a mathematical value.
pub struct LazyState<T> {
    /// The value, once it has been computed.
    pub value: Option<T>,
    /// Whether the function that computes the value is still kept.
    pub armed: bool,
}

/// The effect of one access.
pub struct LazyAccess<T> {
    /// The state after the access.
    pub state: LazyState<T>,
    /// The value that the access returns.
    pub value: T,
    /// Whether the access ran the function.
    pub ran: bool,
}

impl<T> LazyState<T> {
    /// The function is kept exactly as long as there is no value.
    pub open spec fn wf(self) -> bool {
        self.armed == self.value is None
    }

    /// One access, where a call of the function would produce `produced`.
    pub open spec fn force(self, produced: T) -> LazyAccess<T> {
        match self.value {
            Some(value) => LazyAccess { state: self, value, ran: false },
            None => LazyAccess {
                state: LazyState { value: Some(produced), armed: false },
                value: produced,
                ran: true,
            },
        }
    }

    /// The state after one access for each element of `produced`.
    pub open spec fn after_accesses(self, produced: Seq<T>) -> LazyState<T>
        decreases produced.len(),
    {
        if produced.len() == 0 {
            self
        } else {
            self.after_accesses(produced.drop_last()).force(produced.last()).state
        }
    }

    /// How often these accesses ran the function.
    pub open spec fn runs(self, produced: Seq<T>) -> nat
        decreases produced.len(),
    {
        if produced.len() == 0 {
            0
        } else {
            self.runs(produced.drop_last()) + if self.after_accesses(produced.drop_last()).force(
                produced.last(),
            ).ran {
                1nat
            } else {
                0nat
            }
        }
    }
}

/// Memoisation: however often a `LazyLock` is accessed, the function runs at the
/// first access only, and every access returns the value of the first one.
pub proof fn lemma_lazy_lock_memoizes<T>(state: LazyState<T>, produced: Seq<T>)
    requires
        state.wf(),
        produced.len() >= 1,
    ensures
        state.after_accesses(produced).wf(),
        state.after_accesses(produced).value == Some(state.force(produced[0]).value),
        state.runs(produced) == if state.value is None {
            1nat
        } else {
            0nat
        },
        forall|k: int|
            0 <= k < produced.len() ==> (#[trigger] state.after_accesses(produced.take(k)).force(
                produced[k],
            )).value == state.force(produced[0]).value,
    decreases produced.len(),
{
    let earlier = produced.drop_last();
    if earlier.len() == 0 {
        assert(produced.take(0) =~= earlier);
        assert(state.after_accesses(earlier) == state);
        assert(state.runs(earlier) == 0);
        assert(produced.last() == produced[0]);
        assert forall|k: int| 0 <= k < produced.len() implies (#[trigger] state.after_accesses(
            produced.take(k),
        ).force(produced[k])).value == state.force(produced[0]).value by {
            assert(produced.take(k) =~= earlier);
        }
    } else {
        lemma_lazy_lock_memoizes(state, earlier);
        assert(earlier[0] == produced[0]);
        assert forall|k: int| 0 <= k < produced.len() implies (#[trigger] state.after_accesses(
            produced.take(k),
        ).force(produced[k])).value == state.force(produced[0]).value by {
            if k < earlier.len() {
                assert(produced.take(k) =~= earlier.take(k));
                assert(produced[k] == earlier[k]);
                assert((#[trigger] state.after_accesses(earlier.take(k)).force(earlier[k])).value
                    == state.force(earlier[0]).value);
            } else {
                assert(produced.take(k) =~= earlier);
            }
        }
    }
}

/// A value together with the function that computes it. The function runs at the
/// first access and is discarded; every later access finds the value.
pub struct LazyLock<T, F> {
    cell: OnceLock<T>,
    init: Option<F>,
}

impl<T, F: FnOnce() -> T> LazyLock<T, F> {
    /// The value, once it has been computed.
    pub closed spec fn value(&self) -> Option<T> {
        self.cell.value()
    }

    /// The state of the `LazyLock`.
    pub open spec fn view(&self) -> LazyState<T> {
        LazyState { value: self.value(), armed: self.initializer() is Some }
    }

    /// The function that computes the value, until it has run.
    pub closed spec fn initializer(&self) -> Option<F> {
        self.init
    }

    /// The value is there, or the function that computes it is and can be called.
    pub closed spec fn wf(&self) -> bool {
        &&& self.cell.wf()
        &&& self.cell.state().stage != OnceStage::Initializing
        &&& (self.cell.value() is None ==> self.init is Some && call_requires(self.init->0, ()))
        &&& (self.cell.value() is Some ==> self.init is None)
    }

    /// A value that `init` will compute. Nothing is computed yet.
    pub fn new(init: F) -> (lazy: Self)
        requires
            call_requires(init, ()),
        ensures
            lazy.wf(),
            lazy@.wf(),
            lazy.value() is None,
            lazy.initializer() == Some(init),
    {
        LazyLock { cell: OnceLock::new(), init: Some(init) }
    }

    /// The value, if it has been computed. Computes nothing.
    pub fn get(&self) -> (value: Option<&T>)
        ensures
            value is Some == self.value() is Some,
            value is Some ==> *value->0 == self.value()->0,
    {
        self.cell.get()
    }

    /// The value. The first access computes it, with the function that the
    /// `LazyLock` was made with, and discards the function; every later access
    /// returns the value that the first one computed.
    pub fn force(&mut self) -> (value: &T)
        requires
            old(self).wf(),
        ensures
            final(self).wf(),
            old(self)@.wf() && final(self)@.wf(),
            old(self)@.force(*value) == (LazyAccess {
                state: final(self)@,
                value: *value,
                ran: old(self).value() is None,
            }),
            final(self).value() == Some(*value),
            final(self).initializer() is None,
            old(self).value() is Some ==> final(self).value() == old(self).value(),
            old(self).value() is None ==> call_ensures(old(self).initializer()->0, (), *value),
    {
        if self.cell.is_initialized() {
            self.cell.get().unwrap()
        } else {
            let init = self.init.take().unwrap();
            self.cell.get_or_init(0, init).unwrap()
        }
    }

    /// Takes the `LazyLock` apart and returns the value, if it has been computed.
    pub fn into_inner(self) -> (value: Option<T>)
        ensures
            value == self.value(),
    {
        self.cell.into_inner()
    }
}

} // verus!
