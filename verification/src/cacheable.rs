//! A cache for one value that is rebuilt whenever it goes stale.
use vstd::prelude::*;

verus! {

#[derive(Debug, Clone, Copy, PartialEq, Eq, Structural)]
pub enum CacheStatus {
    Uncached,
    CachedValid,
    CachedInvalid,
}

/// A value that can be built from arguments and that knows when it is stale
/// for a given set of arguments. Its users implement it.
pub trait Cacheable: Sized {
    type Args<'a>;
    type Error;

    /// Whether this value is stale for `args`.
    spec fn stale_for(&self, args: &Self::Args<'_>) -> bool;

    /// Whether `result` is an outcome of building a value from `args`.
    spec fn built(args: Self::Args<'_>, result: Result<Self, Self::Error>) -> bool;

    /// Builds a fresh value.
    fn operation(args: Self::Args<'_>) -> (r: Result<Self, Self::Error>)
        ensures Self::built(args, r);

    fn is_invalid(&self, args: &Self::Args<'_>) -> (r: bool)
        ensures r == self.stale_for(args);
}

/// Holds at most one value of `S`.
#[derive(Debug, Clone)]
pub struct Cache<S> {
    state: Option<S>,
}

impl<S> Cache<S> {
    pub closed spec fn state(&self) -> Option<S> {
        self.state
    }

    pub fn new() -> (r: Self)
        ensures r.state() is None,
    {
        Cache { state: None }
    }

    pub fn get_state(&self) -> (r: Option<&S>)
        ensures
            match self.state() {
                Some(s) => r matches Some(x) && *x == s,
                None => r is None,
            },
    {
        self.state.as_ref()
    }

    pub fn get_state_mut(&mut self) -> (r: Option<&mut S>)
        ensures
            match old(self).state() {
                Some(s) => r is Some && *r->0 == s && final(self).state() == Some(*final(r->0)),
                None => r is None && final(self).state() is None,
            },
    {
        self.state.as_mut()
    }
}

impl<S: Cacheable> Cache<S> {
    pub open spec fn status_spec(&self, args: &S::Args<'_>) -> CacheStatus {
        match self.state() {
            None => CacheStatus::Uncached,
            Some(s) => if s.stale_for(args) { CacheStatus::CachedInvalid } else { CacheStatus::CachedValid },
        }
    }

    pub fn get_status(&self, args: &S::Args<'_>) -> (r: CacheStatus)
        ensures r == self.status_spec(args),
    {
        match &self.state {
            None => CacheStatus::Uncached,
            Some(state) => if state.is_invalid(args) { CacheStatus::CachedInvalid } else { CacheStatus::CachedValid },
        }
    }

    /// The cached value if it is still good for `args`; otherwise the stale
    /// value is dropped and `S::operation(args)` builds a fresh one, which is
    /// stored and handed back. If building fails, the cache is left empty and
    /// the error is returned.
    pub fn try_get_or_init(&mut self, args: S::Args<'_>) -> (r: Result<&mut S, S::Error>)
        ensures
            old(self).status_spec(&args) == CacheStatus::CachedValid ==>
                r is Ok && *r->Ok_0 == old(self).state()->0 && final(self).state() == Some(*final(r->Ok_0)),
            old(self).status_spec(&args) != CacheStatus::CachedValid ==>
                match r {
                    Ok(s) => S::built(args, Ok(*s)) && final(self).state() == Some(*final(s)),
                    Err(e) => S::built(args, Err(e)) && final(self).state() is None,
                },
    {
        let keep = match &self.state {
            Some(s) => !s.is_invalid(&args),
            None => false,
        };
        if keep {
            return Ok(self.state.as_mut().unwrap());
        }
        self.build(args)
    }

    /// `try_get_or_init` for a value whose building cannot fail: its error
    /// type has no values, and its `built` admits no error.
    pub fn get_or_init(&mut self, args: S::Args<'_>) -> (r: &mut S)
        where S: Cacheable<Error = std::convert::Infallible>
        requires forall|e: std::convert::Infallible| !#[trigger] S::built(args, Err(e)),
        ensures
            old(self).status_spec(&args) == CacheStatus::CachedValid ==>
                *r == old(self).state()->0 && final(self).state() == Some(*final(r)),
            old(self).status_spec(&args) != CacheStatus::CachedValid ==>
                S::built(args, Ok(*r)) && final(self).state() == Some(*final(r)),
    {
        match self.try_get_or_init(args) {
            Ok(s) => s,
            Err(e) => vstd::pervasive::unreached(),
        }
    }

    fn build(&mut self, args: S::Args<'_>) -> (r: Result<&mut S, S::Error>)
        ensures
            match r {
                Ok(s) => S::built(args, Ok(*s)) && final(self).state() == Some(*final(s)),
                Err(e) => S::built(args, Err(e)) && final(self).state() is None,
            },
    {
        self.state = None;
        match S::operation(args) {
            Ok(v) => Ok(self.state.insert(v)),
            Err(e) => Err(e),
        }
    }
}

/// Holds at most one value of `S`, built by asynchronous work that the
/// caller performs; the cache itself only keeps what it is given.
#[derive(Debug, Clone)]
pub struct CacheAsync<S> {
    state: Option<S>,
}

impl<S> CacheAsync<S> {
    pub closed spec fn state(&self) -> Option<S> {
        self.state
    }

    pub fn new() -> (r: Self)
        ensures r.state() is None,
    {
        CacheAsync { state: None }
    }

    pub fn get_state(&self) -> (r: Option<&S>)
        ensures
            match self.state() {
                Some(s) => r matches Some(x) && *x == s,
                None => r is None,
            },
    {
        self.state.as_ref()
    }

    pub fn get_state_mut(&mut self) -> (r: Option<&mut S>)
        ensures
            match old(self).state() {
                Some(s) => r is Some && *r->0 == s && final(self).state() == Some(*final(r->0)),
                None => r is None && final(self).state() is None,
            },
    {
        self.state.as_mut()
    }

    /// Drops the held value.
    pub fn clear(&mut self)
        ensures final(self).state() is None,
    {
        self.state = None;
    }

    /// Keeps a freshly built value and hands it back.
    pub fn store(&mut self, value: S) -> (r: &mut S)
        ensures
            *r == value,
            final(self).state() == Some(*final(r)),
    {
        self.state.insert(value)
    }
}

} // verus!
