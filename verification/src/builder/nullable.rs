//! Whether a generator may produce null.

use vstd::prelude::*;

verus! {

/// Whether a generator may produce null.
#[derive(Debug, PartialEq, Eq, Clone, Copy)]
pub struct Nullable {
    use_null: bool,
}

impl Nullable {
    /// Whether null may be produced.
    pub closed spec fn allows_null(&self) -> bool {
        self.use_null
    }

    /// A status that never produces null.
    pub fn new_required() -> (r: Self)
        ensures
            !r.allows_null(),
    {
        Nullable { use_null: false }
    }

    /// A status that may produce null.
    pub fn new_nullable() -> (r: Self)
        ensures
            r.allows_null(),
    {
        Nullable { use_null: true }
    }

    /// A status whose null flag is set: despite its name, it may produce null.
    pub fn new_as_required() -> (r: Self)
        ensures
            r.allows_null(),
    {
        Nullable { use_null: true }
    }

    /// A status whose null flag is cleared: despite its name, it never produces null.
    pub fn new_as_nullable() -> (r: Self)
        ensures
            !r.allows_null(),
    {
        Nullable { use_null: false }
    }

    /// Whether null is never produced.
    pub fn is_required(&self) -> (r: bool)
        ensures
            r == !self.allows_null(),
    {
        !self.use_null
    }

    /// Whether null may be produced.
    pub fn is_nullable(&self) -> (r: bool)
        ensures
            r == self.allows_null(),
    {
        self.use_null
    }
}

} // verus!
