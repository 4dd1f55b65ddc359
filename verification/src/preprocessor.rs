//! The identity of the preprocessor towards its host.

use vstd::prelude::*;
use vstd::string::*;

verus! {

/// The hints preprocessor, as the host of a book build sees it.
pub struct HintPreprocessor;

impl HintPreprocessor {
    /// The name under which the preprocessor is configured.
    pub fn name(&self) -> (name: &'static str)
        ensures
            name@ == "hints"@,
    {
        "hints"
    }

    /// Whether the preprocessor runs for `renderer`: only for `html`.
    pub fn supports_renderer(&self, renderer: &str) -> (supported: bool)
        ensures
            supported == (renderer@ == "html"@),
    {
        let wanted = String::from_str("html");
        let given = String::from_str(renderer);
        given == wanted
    }
}

} // verus!
