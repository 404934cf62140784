//! Form state handed back to the presentation layer: submitted values and
//! field-level error messages, both keyed by field name.

use vstd::prelude::*;
use std::collections::HashMap;

verus! {

/// The state of the contact-entry form: the values to re-display and the
/// validation errors to annotate them with.
pub struct FormData {
    pub values: HashMap<String, String>,
    pub errors: HashMap<String, String>,
}

/// A fresh form: no values, no errors.
pub fn new_form_data() -> (r: FormData)
    ensures
        r.values@ == Map::<String, String>::empty(),
        r.errors@ == Map::<String, String>::empty(),
{
    FormData {
        values: HashMap::new(),
        errors: HashMap::new(),
    }
}

} // verus!
