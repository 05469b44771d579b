//! A result type of the library's own, with the operations of its API.
use vstd::prelude::*;

verus! {

/// An equivalent of [`core::result::Result`], as a type of the library's own; its
/// layout is that of the Rust result it wraps.
#[derive(Debug, PartialEq, Eq, Hash)]
pub struct Result<T, E> {
    /// The variant and its value.
    inner: core::result::Result<T, E>,
}

impl<T, E> View for Result<T, E> {
    type V = core::result::Result<T, E>;

    closed spec fn view(&self) -> core::result::Result<T, E> {
        self.inner
    }
}

impl<T, E> Result<T, E> {
    /// Constructs the `Ok` variant.
    pub fn new_ok(value: T) -> (r: Self)
        ensures
            r@ == core::result::Result::<T, E>::Ok(value),
    {
        Result { inner: Ok(value) }
    }

    /// Constructs the `Err` variant.
    pub fn new_err(value: E) -> (r: Self)
        ensures
            r@ == core::result::Result::<T, E>::Err(value),
    {
        Result { inner: Err(value) }
    }

    /// Converts to a standard result of references to the variants.
    pub fn as_ref(&self) -> (r: core::result::Result<&T, &E>)
        ensures
            match (r, self@) {
                (Ok(a), Ok(b)) => *a == b,
                (Err(a), Err(b)) => *a == b,
                _ => false,
            },
    {
        match &self.inner {
            Ok(v) => Ok(v),
            Err(e) => Err(e),
        }
    }

    /// A mutable reference to the `Ok` value, if there is one.
    pub fn ok_mut(&mut self) -> (r: Option<&mut T>)
        ensures
            match old(self)@ {
                Ok(v) => r matches Some(g) && *g == v && final(self)@ == core::result::Result::<T, E>::Ok(*final(g)),
                Err(_) => r is None && final(self)@ == old(self)@,
            },
    {
        match &mut self.inner {
            Ok(v) => Some(v),
            Err(_) => None,
        }
    }

    /// A mutable reference to the `Err` value, if there is one.
    pub fn err_mut(&mut self) -> (r: Option<&mut E>)
        ensures
            match old(self)@ {
                Err(e) => r matches Some(g) && *g == e && final(self)@ == core::result::Result::<T, E>::Err(*final(g)),
                Ok(_) => r is None && final(self)@ == old(self)@,
            },
    {
        match &mut self.inner {
            Err(e) => Some(e),
            Ok(_) => None,
        }
    }

    /// Equivalent to `match &self`.
    pub fn match_ref<'a, U, FnOk: FnOnce(&'a T) -> U, FnErr: FnOnce(&'a E) -> U>(
        &'a self,
        ok: FnOk,
        err: FnErr,
    ) -> (r: U)
        requires
            self@ matches Ok(v) ==> ok.requires((&v,)),
            self@ matches Err(e) ==> err.requires((&e,)),
        ensures
            self@ matches Ok(v) ==> ok.ensures((&v,), r),
            self@ matches Err(e) ==> err.ensures((&e,), r),
    {
        match &self.inner {
            Ok(v) => ok(v),
            Err(e) => err(e),
        }
    }

    /// Equivalent to `match &self`, handing `ctx` to the branch taken.
    pub fn match_ref_ctx<'a, I, U, FnOk: FnOnce(I, &'a T) -> U, FnErr: FnOnce(I, &'a E) -> U>(
        &'a self,
        ctx: I,
        ok: FnOk,
        err: FnErr,
    ) -> (r: U)
        requires
            self@ matches Ok(v) ==> ok.requires((ctx, &v)),
            self@ matches Err(e) ==> err.requires((ctx, &e)),
        ensures
            self@ matches Ok(v) ==> ok.ensures((ctx, &v), r),
            self@ matches Err(e) ==> err.ensures((ctx, &e), r),
    {
        match &self.inner {
            Ok(v) => ok(ctx, v),
            Err(e) => err(ctx, e),
        }
    }

    /// Equivalent to `match self`.
    pub fn match_owned<U, FnOk: FnOnce(T) -> U, FnErr: FnOnce(E) -> U>(self, ok: FnOk, err: FnErr) -> (r: U)
        requires
            self@ matches Ok(v) ==> ok.requires((v,)),
            self@ matches Err(e) ==> err.requires((e,)),
        ensures
            self@ matches Ok(v) ==> ok.ensures((v,), r),
            self@ matches Err(e) ==> err.ensures((e,), r),
    {
        match self.inner {
            Ok(v) => ok(v),
            Err(e) => err(e),
        }
    }

    /// Equivalent to `match self`, handing `ctx` to the branch taken.
    pub fn match_owned_ctx<U, I, FnOk: FnOnce(I, T) -> U, FnErr: FnOnce(I, E) -> U>(
        self,
        ctx: I,
        ok: FnOk,
        err: FnErr,
    ) -> (r: U)
        requires
            self@ matches Ok(v) ==> ok.requires((ctx, v)),
            self@ matches Err(e) ==> err.requires((ctx, e)),
        ensures
            self@ matches Ok(v) ==> ok.ensures((ctx, v), r),
            self@ matches Err(e) ==> err.ensures((ctx, e), r),
    {
        match self.inner {
            Ok(v) => ok(ctx, v),
            Err(e) => err(ctx, e),
        }
    }

    /// Returns `true` if in the `Ok` variant.
    pub fn is_ok(&self) -> (r: bool)
        ensures
            r == self@ is Ok,
    {
        self.inner.is_ok()
    }

    /// Returns `true` if in the `Err` variant.
    pub fn is_err(&self) -> (r: bool)
        ensures
            r == self@ is Err,
    {
        !self.is_ok()
    }

    /// Returns the `Ok` value if there is one, `None` otherwise.
    pub fn ok(self) -> (r: Option<T>)
        ensures
            r == match self@ {
                Ok(v) => Some(v),
                Err(_) => None,
            },
    {
        match self.inner {
            Ok(v) => Some(v),
            Err(_) => None,
        }
    }

    /// Returns the `Err` value if there is one, `None` otherwise.
    pub fn err(self) -> (r: Option<E>)
        ensures
            r == match self@ {
                Ok(_) => None,
                Err(e) => Some(e),
            },
    {
        match self.inner {
            Ok(_) => None,
            Err(e) => Some(e),
        }
    }

    /// Returns the `Ok` value by reference if there is one, `None` otherwise.
    pub fn ok_ref(&self) -> (r: Option<&T>)
        ensures
            match self@ {
                Ok(v) => r matches Some(x) && *x == v,
                Err(_) => r is None,
            },
    {
        match &self.inner {
            Ok(v) => Some(v),
            Err(_) => None,
        }
    }

    /// Returns the `Err` value by reference if there is one, `None` otherwise.
    pub fn err_ref(&self) -> (r: Option<&E>)
        ensures
            match self@ {
                Ok(_) => r is None,
                Err(e) => r matches Some(x) && *x == e,
            },
    {
        match &self.inner {
            Ok(_) => None,
            Err(e) => Some(e),
        }
    }

    /// Applies `f` to the `Ok` value.
    pub fn map<U, F: FnOnce(T) -> U>(self, f: F) -> (r: Result<U, E>)
        requires
            self@ matches Ok(v) ==> f.requires((v,)),
        ensures
            match self@ {
                Ok(v) => r@ matches Ok(u) && f.ensures((v,), u),
                Err(e) => r@ == core::result::Result::<U, E>::Err(e),
            },
    {
        match self.inner {
            Ok(v) => Result { inner: Ok(f(v)) },
            Err(e) => Result { inner: Err(e) },
        }
    }

    /// Applies the fallible computation `f` to the `Ok` value.
    pub fn and_then<U, F: FnOnce(T) -> Result<U, E>>(self, f: F) -> (r: Result<U, E>)
        requires
            self@ matches Ok(v) ==> f.requires((v,)),
        ensures
            match self@ {
                Ok(v) => f.ensures((v,), r),
                Err(e) => r@ == core::result::Result::<U, E>::Err(e),
            },
    {
        match self.inner {
            Ok(v) => f(v),
            Err(e) => Result { inner: Err(e) },
        }
    }

    /// Returns the `Ok` value, or the result of `f` on the `Err` value.
    pub fn unwrap_or_else<F: FnOnce(E) -> T>(self, f: F) -> (r: T)
        requires
            self@ matches Err(e) ==> f.requires((e,)),
        ensures
            match self@ {
                Ok(v) => r == v,
                Err(e) => f.ensures((e,), r),
            },
    {
        match self.inner {
            Ok(v) => v,
            Err(e) => f(e),
        }
    }

    /// Returns the `Ok` value; `self` must be in the `Ok` variant.
    pub fn unwrap(self) -> (r: T)
        where
            E: core::fmt::Debug,
        requires
            self@ is Ok,
        ensures
            self@ == core::result::Result::<T, E>::Ok(r),
    {
        self.inner.unwrap()
    }

    /// Returns the `Err` value, or the result of `f` on the `Ok` value.
    pub fn unwrap_err_or_else<F: FnOnce(T) -> E>(self, f: F) -> (r: E)
        requires
            self@ matches Ok(v) ==> f.requires((v,)),
        ensures
            match self@ {
                Ok(v) => f.ensures((v,), r),
                Err(e) => r == e,
            },
    {
        match self.inner {
            Ok(v) => f(v),
            Err(e) => e,
        }
    }

    /// Returns the `Err` value; `self` must be in the `Err` variant.
    pub fn unwrap_err(self) -> (r: E)
        where
            T: core::fmt::Debug,
        requires
            self@ is Err,
        ensures
            self@ == core::result::Result::<T, E>::Err(r),
    {
        self.inner.unwrap_err()
    }
}

impl<T: Clone, E: Clone> Clone for Result<T, E> {
    /// Clones the value of the variant.
    fn clone(&self) -> (r: Self)
        ensures
            match (r@, self@) {
                (Ok(a), Ok(b)) => cloned(b, a),
                (Err(a), Err(b)) => cloned(b, a),
                _ => false,
            },
    {
        match &self.inner {
            Ok(v) => Result { inner: Ok(v.clone()) },
            Err(e) => Result { inner: Err(e.clone()) },
        }
    }
}

impl<T, E> From<core::result::Result<T, E>> for Result<T, E> {
    fn from(value: core::result::Result<T, E>) -> (r: Self) {
        Result { inner: value }
    }
}

impl<T, E> vstd::std_specs::convert::FromSpecImpl<core::result::Result<T, E>> for Result<T, E> {
    open spec fn obeys_from_spec() -> bool {
        true
    }

    open spec fn from_spec(v: core::result::Result<T, E>) -> Self {
        Result::from_std(v)
    }
}

impl<T, E> From<Result<T, E>> for core::result::Result<T, E> {
    fn from(value: Result<T, E>) -> (r: Self) {
        value.inner
    }
}

impl<T, E> vstd::std_specs::convert::FromSpecImpl<Result<T, E>> for core::result::Result<T, E> {
    open spec fn obeys_from_spec() -> bool {
        true
    }

    open spec fn from_spec(v: Result<T, E>) -> Self {
        v@
    }
}

impl<T, E> Result<T, E> {
    /// The stable result that holds the same variant and value as `v`.
    pub closed spec fn from_std(v: core::result::Result<T, E>) -> Self {
        Result { inner: v }
    }

    /// A stable result holds the variant and value it was made from.
    pub proof fn lemma_from_std(v: core::result::Result<T, E>)
        ensures
            Self::from_std(v)@ == v,
    {
    }

    /// Two stable results with the same variant and value are the same.
    pub proof fn lemma_view_injective(a: Self, b: Self)
        requires
            a@ == b@,
        ensures
            a == b,
    {
    }
}

} // verus!
