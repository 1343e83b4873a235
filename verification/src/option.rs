//! Option extensions.
use vstd::prelude::*;
use crate::path::{Component, same_component};

verus! {

/// Extensions for options.
pub trait OptionExt<T> {
    /// Whether the option holds `value`.
    spec fn holds(&self, value: T) -> bool;

    /// Whether the option is `Some` of the given value.
    fn has(&self, value: T) -> (r: bool)
        ensures
            r == self.holds(value),
    ;
}

impl OptionExt<Component> for Option<Component> {
    open spec fn holds(&self, value: Component) -> bool {
        match self {
            Some(c) => c@ == value@,
            None => false,
        }
    }

    fn has(&self, value: Component) -> (r: bool) {
        match self {
            Some(c) => same_component(c, &value),
            None => false,
        }
    }
}

impl OptionExt<u32> for Option<u32> {
    open spec fn holds(&self, value: u32) -> bool {
        *self == Some(value)
    }

    fn has(&self, value: u32) -> (r: bool) {
        match self {
            Some(c) => *c == value,
            None => false,
        }
    }
}

} // verus!
