//! The settings of the search.

use vstd::prelude::*;

verus! {

/// How deep each strength of the engine may search.
#[derive(Debug, Clone, Copy, PartialEq, Eq, Structural)]
pub struct SearchConfig {
    pub max_depth_light: u8,
    pub max_depth_strong: u8,
}

impl Default for SearchConfig {
    fn default() -> (c: Self)
        ensures
            c == (SearchConfig { max_depth_light: 2, max_depth_strong: 4 }),
    {
        SearchConfig { max_depth_light: 2, max_depth_strong: 4 }
    }
}

/// The name of the evaluator that is used where none is asked for.
pub fn default_evaluator_type() -> (n: String)
    ensures
        n@ == "Handcrafted"@,
{
    "Handcrafted".to_string()
}

} // verus!
