//! An option type of the library's own, with the operations of its API.
use crate::result::Result;
use vstd::prelude::*;

verus! {

/// An equivalent of [`core::option::Option`], as a type of the library's own: a
/// [`Result`] whose `Err` variant holds nothing. Its layout is that of the Rust
/// types it wraps.
#[derive(Debug, PartialEq, Eq, Hash)]
pub struct Option<T> {
    /// `Ok` holds the value, `Err` stands for no value.
    inner: Result<T, ()>,
}

impl<T> View for Option<T> {
    type V = core::option::Option<T>;

    closed spec fn view(&self) -> core::option::Option<T> {
        match self.inner@ {
            Ok(v) => Some(v),
            Err(_) => None,
        }
    }
}

impl<T> Option<T> {
    /// Constructs the `Some` variant.
    pub fn new_some(value: T) -> (r: Self)
        ensures
            r@ == Some(value),
    {
        Option { inner: Result::new_ok(value) }
    }

    /// Constructs the `None` variant.
    pub fn new_none() -> (r: Self)
        ensures
            r@ == core::option::Option::<T>::None,
    {
        Option { inner: Result::new_err(()) }
    }

    /// Returns a reference to the option's contents if they exist.
    pub fn as_ref(&self) -> (r: core::option::Option<&T>)
        ensures
            match self@ {
                Some(v) => r matches Some(x) && *x == v,
                None => r is None,
            },
    {
        self.inner.ok_ref()
    }

    /// A mutable reference to the option's contents, if they exist.
    pub fn as_mut(&mut self) -> (r: core::option::Option<&mut T>)
        ensures
            match old(self)@ {
                Some(v) => r matches Some(g) && *g == v && final(self)@ == Some(*final(g)),
                None => r is None && final(self)@ == old(self)@,
            },
    {
        self.inner.ok_mut()
    }

    /// Equivalent to `match &self`.
    pub fn match_ref<'a, U, FnSome: FnOnce(&'a T) -> U, FnNone: FnOnce() -> U>(
        &'a self,
        some: FnSome,
        none: FnNone,
    ) -> (r: U)
        requires
            self@ matches Some(v) ==> some.requires((&v,)),
            self@ is None ==> none.requires(()),
        ensures
            self@ matches Some(v) ==> some.ensures((&v,), r),
            self@ is None ==> none.ensures((), r),
    {
        match self.inner.ok_ref() {
            Some(v) => some(v),
            None => none(),
        }
    }

    /// Equivalent to `match &self`, handing `ctx` to the branch taken.
    pub fn match_ref_ctx<'a, I, U, FnSome: FnOnce(I, &'a T) -> U, FnNone: FnOnce(I) -> U>(
        &'a self,
        ctx: I,
        some: FnSome,
        none: FnNone,
    ) -> (r: U)
        requires
            self@ matches Some(v) ==> some.requires((ctx, &v)),
            self@ is None ==> none.requires((ctx,)),
        ensures
            self@ matches Some(v) ==> some.ensures((ctx, &v), r),
            self@ is None ==> none.ensures((ctx,), r),
    {
        match self.inner.ok_ref() {
            Some(v) => some(ctx, v),
            None => none(ctx),
        }
    }

    /// Equivalent to `match self`.
    pub fn match_owned<U, FnSome: FnOnce(T) -> U, FnNone: FnOnce() -> U>(self, some: FnSome, none: FnNone) -> (r: U)
        requires
            self@ matches Some(v) ==> some.requires((v,)),
            self@ is None ==> none.requires(()),
        ensures
            self@ matches Some(v) ==> some.ensures((v,), r),
            self@ is None ==> none.ensures((), r),
    {
        match self.inner.ok() {
            Some(v) => some(v),
            None => none(),
        }
    }

    /// Equivalent to `match self`, handing `ctx` to the branch taken.
    pub fn match_owned_ctx<I, U, FnSome: FnOnce(I, T) -> U, FnNone: FnOnce(I) -> U>(
        self,
        ctx: I,
        some: FnSome,
        none: FnNone,
    ) -> (r: U)
        requires
            self@ matches Some(v) ==> some.requires((ctx, v)),
            self@ is None ==> none.requires((ctx,)),
        ensures
            self@ matches Some(v) ==> some.ensures((ctx, v), r),
            self@ is None ==> none.ensures((ctx,), r),
    {
        match self.inner.ok() {
            Some(v) => some(ctx, v),
            None => none(ctx),
        }
    }

    /// Returns `true` if `self` contains a value.
    pub fn is_some(&self) -> (r: bool)
        ensures
            r == self@ is Some,
    {
        self.inner.is_ok()
    }

    /// Returns `true` if `self` doesn't contain a value.
    pub fn is_none(&self) -> (r: bool)
        ensures
            r == self@ is None,
    {
        !self.is_some()
    }

    /// Returns the value, or the result of `f` if there is none.
    pub fn unwrap_or_else<F: FnOnce() -> T>(self, f: F) -> (r: T)
        requires
            self@ is None ==> f.requires(()),
        ensures
            match self@ {
                Some(v) => r == v,
                None => f.ensures((), r),
            },
    {
        match self.inner.ok() {
            Some(v) => v,
            None => f(),
        }
    }

    /// Returns the value; `self` must contain one.
    pub fn unwrap(self) -> (r: T)
        requires
            self@ is Some,
        ensures
            self@ == Some(r),
    {
        self.inner.unwrap()
    }
}

impl<T: Clone> Clone for Option<T> {
    /// Clones the value, if there is one.
    fn clone(&self) -> (r: Self)
        ensures
            match (r@, self@) {
                (Some(a), Some(b)) => cloned(b, a),
                (None, None) => true,
                _ => false,
            },
    {
        match self.inner.ok_ref() {
            Some(v) => Option::new_some(v.clone()),
            None => Option::new_none(),
        }
    }
}

impl<T> Default for Option<T> {
    fn default() -> (r: Self)
        ensures
            r@ is None,
    {
        Option::new_none()
    }
}

impl<T> From<core::option::Option<T>> for Option<T> {
    fn from(value: core::option::Option<T>) -> (r: Self) {
        match value {
            Some(v) => {
                let inner = Result::new_ok(v);
                proof {
                    Result::<T, ()>::lemma_from_std(Ok(v));
                    Result::<T, ()>::lemma_view_injective(inner, Result::from_std(Ok(v)));
                }
                Option { inner }
            },
            None => {
                let inner = Result::new_err(());
                proof {
                    Result::<T, ()>::lemma_from_std(Err(()));
                    Result::<T, ()>::lemma_view_injective(inner, Result::from_std(Err(())));
                }
                Option { inner }
            },
        }
    }
}

impl<T> vstd::std_specs::convert::FromSpecImpl<core::option::Option<T>> for Option<T> {
    open spec fn obeys_from_spec() -> bool {
        true
    }

    open spec fn from_spec(v: core::option::Option<T>) -> Self {
        Option::from_std(v)
    }
}

impl<T> From<Option<T>> for core::option::Option<T> {
    fn from(value: Option<T>) -> (r: Self) {
        value.inner.ok()
    }
}

impl<T> vstd::std_specs::convert::FromSpecImpl<Option<T>> for core::option::Option<T> {
    open spec fn obeys_from_spec() -> bool {
        true
    }

    open spec fn from_spec(v: Option<T>) -> Self {
        v@
    }
}

impl<T> Option<T> {
    /// The stable option that holds the same value as `v`, if any.
    pub closed spec fn from_std(v: core::option::Option<T>) -> Self {
        match v {
            Some(x) => Option { inner: Result::from_std(Ok(x)) },
            None => Option { inner: Result::from_std(Err(())) },
        }
    }

    /// A stable option holds the value it was made from, if any.
    pub proof fn lemma_from_std(v: core::option::Option<T>)
        ensures
            Self::from_std(v)@ == v,
    {
        match v {
            Some(x) => Result::<T, ()>::lemma_from_std(Ok(x)),
            None => Result::<T, ()>::lemma_from_std(Err(())),
        }
    }
}

} // verus!
