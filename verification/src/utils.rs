//! Compiling CSS selectors.

use crate::dom::{compiled, parse_selector};
use crate::errors::DownApkError;
use scraper::Selector;
use vstd::prelude::*;

verus! {

/// What compiling a selector text gives: the selector, or this library's error
/// around the reason why the text is none.
pub open spec fn selector_outcome(text: Seq<char>) -> Result<Selector, DownApkError> {
    match compiled(text) {
        Ok(selector) => Ok(selector),
        Err(kind) => Err(DownApkError::Selector(kind)),
    }
}

/// Compiles a CSS selector group.
pub fn selector(text: &str) -> (r: Result<Selector, DownApkError>)
    ensures
        r == selector_outcome(text@),
{
    match parse_selector(text) {
        Ok(compiled) => Ok(compiled),
        Err(kind) => Err(DownApkError::from(kind)),
    }
}

} // verus!
