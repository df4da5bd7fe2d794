//! What the person at the keyboard asked for, read into what the library
//! takes: constraints, a place in a list, and how many files to fetch.

use crate::text::{optional_text, same_text};
use vstd::prelude::*;

verus! {

/// The constraint that a word stands for: `all`, in small or in capital
/// letters, stands for no constraint, any other word for itself.
pub open spec fn constraint(word: Seq<char>) -> Option<Seq<char>> {
    if word == "all"@ || word == "ALL"@ {
        None
    } else {
        Some(word)
    }
}

/// The version filter that a word stands for: `latest` stands for no filter,
/// any other word for itself.
pub open spec fn version_filter(word: Seq<char>) -> Option<Seq<char>> {
    if word == "latest"@ {
        None
    } else {
        Some(word)
    }
}

/// The place in a list of `count` entries that a number counted from one
/// stands for; none where the number is zero or beyond the list.
pub open spec fn place(number: usize, count: usize) -> Option<usize> {
    if 1 <= number <= count {
        Some((number - 1) as usize)
    } else {
        None
    }
}

/// Whether one file of several is asked for, or all of them.
#[derive(Debug, Clone, Copy, PartialEq, Eq, Structural)]
pub enum DownloadOption {
    One,
    All,
}

/// What is to be fetched of the variants that were found.
#[derive(Debug, Clone, Copy, PartialEq, Eq, Structural)]
pub enum Fetch {
    /// There is no variant, so there is nothing to fetch.
    Nothing,
    /// Every variant.
    All,
    /// One variant, which is still to be chosen.
    One,
    /// The person has not said, and is to be asked.
    Ask,
}

/// What is to be fetched of `count` variants: a single variant is fetched
/// without asking, and of several the person's option decides.
pub open spec fn fetch(count: usize, option: Option<DownloadOption>) -> Fetch {
    if count == 0 {
        Fetch::Nothing
    } else if count == 1 {
        Fetch::All
    } else {
        match option {
            Some(DownloadOption::All) => Fetch::All,
            Some(DownloadOption::One) => Fetch::One,
            None => Fetch::Ask,
        }
    }
}

/// The constraint that a word stands for.
pub fn constraint_of<'a>(word: &'a str) -> (r: Option<&'a str>)
    ensures
        optional_text(r) == constraint(word@),
{
    if same_text(word, "all") || same_text(word, "ALL") {
        None
    } else {
        Some(word)
    }
}

/// The version filter that a word stands for.
pub fn version_filter_of<'a>(word: &'a str) -> (r: Option<&'a str>)
    ensures
        optional_text(r) == version_filter(word@),
{
    if same_text(word, "latest") {
        None
    } else {
        Some(word)
    }
}

/// The place in a list of `count` entries that a number counted from one
/// stands for.
pub fn place_of(number: usize, count: usize) -> (r: Option<usize>)
    ensures
        r == place(number, count),
{
    if number == 0 || number > count {
        None
    } else {
        Some(number - 1)
    }
}

/// What is to be fetched of `count` variants.
pub fn fetch_of(count: usize, option: Option<DownloadOption>) -> (r: Fetch)
    ensures
        r == fetch(count, option),
{
    if count == 0 {
        Fetch::Nothing
    } else if count == 1 {
        Fetch::All
    } else {
        match option {
            Some(DownloadOption::All) => Fetch::All,
            Some(DownloadOption::One) => Fetch::One,
            None => Fetch::Ask,
        }
    }
}

} // verus!
