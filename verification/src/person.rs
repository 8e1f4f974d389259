//! A sample record for documentation templates.

use vstd::prelude::*;

verus! {

/// A small example type whose constructor fills in a template placeholder;
/// a rendering pass may later substitute a concrete name for it.
pub struct Person {
    pub name: String,
}

impl Person {
    /// Builds the sample person with the default template placeholder as name.
    pub fn new() -> (r: Self)
        ensures
            r.name@ == "{{name|default('Richard')}}"@,
    {
        Person { name: String::from_str("{{name|default('Richard')}}") }
    }
}

} // verus!
