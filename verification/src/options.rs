//! Merge configuration: the class prefix and the variant separator, and a
//! single-assignment cell for a process-wide default.

use vstd::prelude::*;

verus! {

/// Configuration for parsing and merging: an optional class prefix (stripped
/// from the base utility, required when nonempty) and the separator between
/// variant segments.
#[derive(Clone)]
pub struct MergeOptions {
    pub prefix: String,
    pub separator: String,
}

impl Default for MergeOptions {
    /// No prefix, `:` as the separator.
    fn default() -> (r: Self)
        ensures
            r.prefix@ == ""@,
            r.separator@ == ":"@,
    {
        MergeOptions { prefix: String::from_str(""), separator: String::from_str(":") }
    }
}

/// A single-assignment holder for process-wide merge options. The first
/// `set` takes effect; every later `set` is silently ignored, so the held
/// value can never change once written.
pub struct MergeOptionsCell {
    pub options: MergeOptions,
    pub is_set: bool,
}

impl MergeOptionsCell {
    /// An unset cell holding the default options.
    pub fn new() -> (r: Self)
        ensures
            !r.is_set,
            r.options.prefix@ == ""@,
            r.options.separator@ == ":"@,
    {
        MergeOptionsCell { options: Default::default(), is_set: false }
    }

    /// Writes the options if the cell was never written; otherwise changes
    /// nothing.
    pub fn set(&mut self, options: MergeOptions)
        ensures
            old(self).is_set ==> *final(self) == *old(self),
            !old(self).is_set ==> final(self).is_set && final(self).options == options,
    {
        if !self.is_set {
            self.options = options;
            self.is_set = true;
        }
    }

    /// The options in effect: what was first set, or the defaults.
    pub fn get(&self) -> (r: &MergeOptions)
        ensures
            r == &self.options,
    {
        &self.options
    }
}

} // verus!
