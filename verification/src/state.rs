//! A container for a plugin's state, created empty and filled with the
//! state type's default value on first use.
use vstd::prelude::*;

verus! {

/// A plugin's state: empty until first used, then holding a value.
pub struct PluginState<T> {
    inner: Option<T>,
}

impl<T> View for PluginState<T> {
    type V = Option<T>;

    /// The state, or `None` while the container has not been used.
    closed spec fn view(&self) -> Option<T> {
        self.inner
    }
}

/// What `get` leaves and returns: the state, set to `T::default()` first if
/// there was none, and a clone of it.
pub open spec fn get_result<T: Default + Clone>(before: Option<T>, after: Option<T>, r: T) -> bool {
    &&& after is Some
    &&& (before is Some ==> after == before)
    &&& (before is None ==> call_ensures(T::default, (), after->0))
    &&& cloned(after->0, r)
}

/// What `update` leaves: `f` applied once to the state, or to
/// `T::default()` if there was none.
pub open spec fn update_result<T: Default + Clone, F: FnOnce(T) -> T>(
    before: Option<T>,
    f: F,
    after: Option<T>,
) -> bool {
    &&& after is Some
    &&& exists|start: T|
        {
            &&& (before is Some ==> start == before->0)
            &&& (before is None ==> call_ensures(T::default, (), start))
            &&& #[trigger] call_ensures(f, (start,), after->0)
        }
}

/// What `try_get` returns: nothing while there is no state, else a clone.
pub open spec fn try_get_result<T: Clone>(state: Option<T>, r: Option<T>) -> bool {
    &&& (state is None ==> r is None)
    &&& (state is Some ==> r is Some && cloned(state->0, r->0))
}

impl<T: Default + Clone> PluginState<T> {
    /// Creates a container that holds no state yet.
    pub fn new() -> (s: Self)
        ensures
            s@ is None,
    {
        PluginState { inner: None }
    }

    /// Fills the container with `T::default()` if it is still empty.
    fn init(&mut self)
        ensures
            final(self)@ is Some,
            old(self)@ is Some ==> final(self)@ == old(self)@,
            old(self)@ is None ==> call_ensures(T::default, (), final(self)@->0),
    {
        if self.inner.is_none() {
            self.inner = Some(T::default());
        }
    }

    /// A clone of the current state, which is first set to `T::default()`
    /// if the container is still empty.
    pub fn get(&mut self) -> (r: T)
        ensures
            get_result(old(self)@, final(self)@, r),
    {
        self.init();
        match &self.inner {
            Some(v) => v.clone(),
            None => T::default(),
        }
    }

    /// Applies `f` to the state, which is first set to `T::default()` if
    /// the container is still empty.
    pub fn update<F: FnOnce(T) -> T>(&mut self, f: F)
        requires
            forall|t: T| call_requires(f, (t,)),
        ensures
            update_result(old(self)@, f, final(self)@),
    {
        self.init();
        let ghost before = self.inner->0;
        let current = match self.inner.take() {
            Some(v) => v,
            None => T::default(),
        };
        self.inner = Some(f(current));
        assert(call_ensures(f, (before,), self.inner->0));
        assert((old(self)@ is Some ==> before == old(self)@->0) && (old(self)@ is None
            ==> call_ensures(T::default, (), before)));
    }

    /// Replaces the whole state.
    pub fn set(&mut self, value: T)
        ensures
            final(self)@ == Some(value),
    {
        self.inner = Some(value);
    }

    /// A clone of the state, or `None` if the container has not been used.
    pub fn try_get(&self) -> (r: Option<T>)
        ensures
            try_get_result(self@, r),
    {
        match &self.inner {
            Some(v) => Some(v.clone()),
            None => None,
        }
    }
}

/// After `set(v)`, `get` returns a clone of `v` and leaves `v` in place, so
/// a second `get` returns a clone of `v` as well.
pub proof fn lemma_get_after_set<T: Default + Clone>(
    v: T,
    s1: Option<T>,
    r1: T,
    s2: Option<T>,
    r2: T,
)
    requires
        get_result(Some(v), s1, r1),
        get_result(s1, s2, r2),
    ensures
        s1 == Some(v),
        s2 == Some(v),
        cloned(v, r1),
        cloned(v, r2),
{
}

/// `update(f)` calls `f` once, on the state or on `T::default()` when there
/// was none, and `try_get` afterwards returns a clone of what `f` returned.
pub proof fn lemma_update_then_try_get<T: Default + Clone, F: FnOnce(T) -> T>(
    before: Option<T>,
    f: F,
    after: Option<T>,
    r: Option<T>,
)
    requires
        update_result(before, f, after),
        try_get_result(after, r),
    ensures
        exists|start: T, result: T|
            {
                &&& (before is Some ==> start == before->0)
                &&& (before is None ==> call_ensures(T::default, (), start))
                &&& call_ensures(f, (start,), result)
                &&& after == Some(result)
                &&& r is Some
                &&& cloned(result, r->0)
            },
{
    let start = choose|start: T|
        {
            &&& (before is Some ==> start == before->0)
            &&& (before is None ==> call_ensures(T::default, (), start))
            &&& #[trigger] call_ensures(f, (start,), after->0)
        };
    let result = after->0;
    assert(call_ensures(f, (start,), result));
    assert(r is Some && cloned(result, r->0));
    assert(before is Some ==> start == before->0);
    assert(before is None ==> call_ensures(T::default, (), start));
}

} // verus!
