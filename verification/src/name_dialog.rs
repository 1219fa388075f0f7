//! A single-field prompt for a new folder name or a rename.

use vstd::prelude::*;
use crate::text::{is_empty, trim, trimmed};

verus! {

/// What the prompt's input starts with.
#[derive(Debug)]
pub struct NameDialog {
    pub placeholder: &'static str,
    pub initial: Option<String>,
}

impl NameDialog {
    /// An empty `initial` leaves the input empty, so that the placeholder shows.
    pub fn new(initial: &str, placeholder: &'static str) -> (r: NameDialog)
        ensures
            r.placeholder == placeholder,
            match r.initial {
                Some(text) => initial@.len() > 0 && text@ == initial@,
                None => initial@.len() == 0,
            },
    {
        let initial = if is_empty(initial) {
            None
        } else {
            Some(initial.to_owned())
        };
        NameDialog { placeholder, initial }
    }

    /// The typed name, trimmed.
    ///
    /// Whether the name can be used is decided where it is used, so that the rules have
    /// exactly one home.
    pub fn value(&self, typed: &str) -> (r: String)
        ensures
            r@ == trimmed(typed@),
    {
        trim(typed).to_owned()
    }
}

} // verus!
