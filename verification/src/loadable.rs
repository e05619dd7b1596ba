use vstd::prelude::*;
use vstd::string::to_string_from_display_ensures;

verus! {

/// A value that is fetched in the background, with where its fetch stands.
#[derive(Clone, Debug, PartialEq)]
pub enum Loadable<T> {
    NotLoaded,
    Loading,
    Loaded(T),
    Failed(String),
}

impl<T> Default for Loadable<T> {
    fn default() -> (r: Self)
        ensures
            r is NotLoaded,
    {
        Loadable::NotLoaded
    }
}

impl<T> Loadable<T> {
    /// Whether `self` is what `result` turns into: the value, or a failure
    /// whose message is the error's text.
    pub open spec fn made_from<E: core::fmt::Display>(self, result: Result<T, E>) -> bool {
        match result {
            Ok(value) => self == Loadable::Loaded(value),
            Err(error) => self matches Loadable::Failed(text) && to_string_from_display_ensures::<
                E,
            >(&error, text),
        }
    }

    pub fn get(&self) -> (r: Option<&T>)
        ensures
            r is Some <==> self is Loaded,
            r matches Some(v) ==> *v == self->Loaded_0,
    {
        match self {
            Loadable::Loaded(value) => Some(value),
            _ => None,
        }
    }

    pub fn get_mut(&mut self) -> (r: Option<&mut T>)
        ensures
            r is Some <==> *old(self) is Loaded,
            r matches Some(v) ==> *v == (*old(self))->Loaded_0 && *final(self) == Loadable::Loaded(
                *final(v),
            ),
            r is None ==> *final(self) == *old(self),
    {
        match self {
            Loadable::Loaded(value) => Some(value),
            _ => None,
        }
    }

    pub fn is_loading(&self) -> (r: bool)
        ensures
            r == self is Loading,
    {
        matches!(self, Loadable::Loading)
    }

    /// Whether a fetch should start: nothing was fetched yet, or the last one failed.
    pub fn needs_load(&self) -> (r: bool)
        ensures
            r == (self is NotLoaded || self is Failed),
    {
        matches!(self, Loadable::NotLoaded | Loadable::Failed(_))
    }

    pub fn from_result<E: core::fmt::Display>(result: Result<T, E>) -> (r: Self)
        ensures
            r.made_from(result),
    {
        match result {
            Ok(value) => Loadable::Loaded(value),
            Err(error) => Loadable::Failed(error.to_string()),
        }
    }

    /// Keeps an already loaded value when a refresh fails.
    pub fn refresh<E: core::fmt::Display>(&mut self, result: Result<T, E>)
        ensures
            (result is Err && *old(self) is Loaded) ==> *final(self) == *old(self),
            (result is Ok || !(*old(self) is Loaded)) ==> final(self).made_from(result),
    {
        if result.is_ok() || self.get().is_none() {
            *self = Self::from_result(result);
        }
    }
}

} // verus!
