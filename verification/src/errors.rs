//! What can go wrong while a page is read.

use crate::dom::{describe_selector_error, selector_error_text};
use crate::text::join;
use scraper::error::SelectorErrorKind;
use vstd::prelude::*;

verus! {

/// An element that a page of the site must hold for the library to read it.
#[derive(Clone, Copy, Debug, PartialEq, Eq, Structural)]
pub enum Landmark {
    /// The search button of the landing page, exactly once.
    SearchButton,
    /// The columns of a variant row that hold architecture, minimum OS version
    /// and screen density.
    VariantColumns,
    /// The download button of a variant page, with its link.
    DownloadButton,
    /// The anchor of an interstitial page that leads to the file itself.
    FinalLink,
}

/// The errors of this library.
#[derive(Debug)]
pub enum DownApkError {
    /// A text is no CSS selector.
    Selector(SelectorErrorKind),
    /// A page lacks an element that the site's layout promises.
    StructuralMismatch(Landmark),
    /// A package type other than `APK` and `BUNDLE`.
    UnknownType(String),
    /// Any other failure, in words.
    Other(String),
}

/// An error, with its texts as sequences of characters.
pub enum ErrorView {
    Selector(SelectorErrorKind),
    StructuralMismatch(Landmark),
    UnknownType(Seq<char>),
    Other(Seq<char>),
}

impl View for DownApkError {
    type V = ErrorView;

    open spec fn view(&self) -> ErrorView {
        match self {
            DownApkError::Selector(kind) => ErrorView::Selector(*kind),
            DownApkError::StructuralMismatch(landmark) => ErrorView::StructuralMismatch(*landmark),
            DownApkError::UnknownType(name) => ErrorView::UnknownType(name@),
            DownApkError::Other(words) => ErrorView::Other(words@),
        }
    }
}

impl From<SelectorErrorKind> for DownApkError {
    /// The error around the reason why a text is no selector.
    fn from(kind: SelectorErrorKind) -> (r: DownApkError) {
        DownApkError::Selector(kind)
    }
}

impl vstd::std_specs::convert::FromSpecImpl<SelectorErrorKind> for DownApkError {
    open spec fn obeys_from_spec() -> bool {
        true
    }

    open spec fn from_spec(kind: SelectorErrorKind) -> DownApkError {
        DownApkError::Selector(kind)
    }
}

impl From<String> for DownApkError {
    /// The error that these words tell.
    fn from(words: String) -> (r: DownApkError) {
        DownApkError::Other(words)
    }
}

impl vstd::std_specs::convert::FromSpecImpl<String> for DownApkError {
    open spec fn obeys_from_spec() -> bool {
        true
    }

    open spec fn from_spec(words: String) -> DownApkError {
        DownApkError::Other(words)
    }
}

impl Landmark {
    /// The words that name a landmark in a message.
    pub open spec fn words(self) -> Seq<char> {
        match self {
            Landmark::SearchButton => "the landing page does not hold exactly one search button"@,
            Landmark::VariantColumns => "a variant row lacks its architecture or density column"@,
            Landmark::DownloadButton => "no download button with a link on the variant page"@,
            Landmark::FinalLink => "no final download link on the interstitial page"@,
        }
    }

    /// The words that name this landmark in a message.
    pub fn describe(&self) -> (r: &'static str)
        ensures
            r@ == self.words(),
    {
        match self {
            Landmark::SearchButton => "the landing page does not hold exactly one search button",
            Landmark::VariantColumns => "a variant row lacks its architecture or density column",
            Landmark::DownloadButton => "no download button with a link on the variant page",
            Landmark::FinalLink => "no final download link on the interstitial page",
        }
    }
}

impl ErrorView {
    /// The message of an error: a prefix that tells its kind, then its detail.
    pub open spec fn message(self) -> Seq<char> {
        match self {
            ErrorView::Selector(kind) => "Selector error: "@ + selector_error_text(kind),
            ErrorView::StructuralMismatch(landmark) => "Structural mismatch: "@ + landmark.words(),
            ErrorView::UnknownType(name) => "Got an unknown apk type: "@ + name,
            ErrorView::Other(words) => "Other error: "@ + words,
        }
    }
}

impl DownApkError {
    /// The message of this error, for a person to read.
    pub fn message(&self) -> (r: String)
        ensures
            r@ == self@.message(),
    {
        match self {
            DownApkError::Selector(kind) => {
                let detail = describe_selector_error(kind);
                join("Selector error: ", detail.as_str())
            },
            DownApkError::StructuralMismatch(landmark) => join(
                "Structural mismatch: ",
                landmark.describe(),
            ),
            DownApkError::UnknownType(name) => join("Got an unknown apk type: ", name.as_str()),
            DownApkError::Other(words) => join("Other error: ", words.as_str()),
        }
    }
}

} // verus!
