//! The mirror site: its address, the queries that its pages are read with, and
//! the session that holds them.

use crate::dom::{
    compiled, element_matches, page_matches, parse_page, parsed, select_in, select_in_page,
};
use crate::errors::{DownApkError, ErrorView, Landmark};
use crate::text::{join, starts_with};
use crate::utils::selector;
use scraper::error::SelectorErrorKind;
use scraper::{ElementRef, Selector};
use vstd::prelude::*;

pub mod listing;
pub mod resolver;
pub mod transfer;
pub mod variants;

pub use listing::ExtractedLink;
pub use resolver::{Resolution, Walk};
pub use transfer::{multiple_file_download, single_file_download, Progress, Transfer};
pub use variants::{ApkType, DownloadApkMirror};

verus! {

/// The address of the site. Links that pages give without a scheme are taken
/// to lie below it.
pub const HOST: &'static str = "https://www.apkmirror.com";

/// The path and query of a search for releases, up to the search words.
pub const SEARCH_PATH: &'static str = "/?post_type=app_release&searchtype=apk&s=";

/// The number of queries that the site's pages are read with.
pub const QUERY_COUNT: usize = 15;

/// The search button of the landing page.
pub const SEARCH_BUTTON: usize = 0;

/// The container of the results of a listing page.
pub const LIST_WIDGET: usize = 1;

/// A block of the results container that stands for one release.
pub const RESULT_BLOCK: usize = 2;

/// The anchor of a result block that holds the release's title and link.
pub const TITLE_LINK: usize = 3;

/// The info panel of a result block.
pub const INFO_PANEL: usize = 4;

/// One label and value of an info panel.
pub const INFO_PAIR: usize = 5;

/// The label of a pair of an info panel.
pub const INFO_NAME: usize = 6;

/// The value of a pair of an info panel.
pub const INFO_VALUE: usize = 7;

/// A row of the variant table of a release page.
pub const TABLE_ROW: usize = 8;

/// A cell of a variant row.
pub const TABLE_CELL: usize = 9;

/// The badge of a cell that tells the package type.
pub const TYPE_BADGE: usize = 10;

/// The anchor of a cell that leads to the variant's page.
pub const VARIANT_LINK: usize = 11;

/// A container among the children of a variant row.
pub const ROW_COLUMN: usize = 12;

/// The download button of a variant page.
pub const DOWNLOAD_BUTTON: usize = 13;

/// The anchor of an interstitial page that leads to the file: it is marked
/// `nofollow` and carries the vignette marker, which no advertisement does.
pub const FINAL_LINK: usize = 14;

/// The CSS selectors of the queries, in the order of their numbers.
pub open spec fn query_texts() -> Seq<Seq<char>> {
    seq![
        "button[class='searchButton']"@,
        "div.listWidget"@,
        "div:not([class])"@,
        "a[class='fontBlack']"@,
        "div.infoSlide.t-height"@,
        "p"@,
        "span.infoSlide-name"@,
        "span.infoSlide-value"@,
        "div[class='table-row headerFont']"@,
        "div[class='table-cell rowheight addseparator expand pad dowrap']"@,
        "span.apkm-badge"@,
        "a[class='accent_color']"@,
        "div"@,
        "a.accent_bg.btn.btn-flat.downloadButton"@,
        "a[rel='nofollow'][data-google-vignette='false']"@,
    ]
}

/// The compiled selector of a query.
pub open spec fn query(which: usize) -> Selector {
    compiled(query_texts()[which as int]).unwrap()
}

/// The reason why the first of these texts that is no selector is none.
pub open spec fn first_invalid(texts: Seq<Seq<char>>) -> Option<SelectorErrorKind>
    decreases texts.len(),
{
    if texts.len() == 0 {
        None
    } else {
        match compiled(texts[0]) {
            Err(kind) => Some(kind),
            Ok(_) => first_invalid(texts.drop_first()),
        }
    }
}

/// The first of some elements, if there is any.
pub open spec fn first(found: Seq<ElementRef<'static>>) -> Option<ElementRef<'static>> {
    if found.len() > 0 {
        Some(found[0])
    } else {
        None
    }
}

/// A link in absolute form: one that begins with `http` stands as it is, any
/// other is taken to lie below the site's address.
pub open spec fn absolute(url: Seq<char>) -> Seq<char> {
    if "http"@.is_prefix_of(url) {
        url
    } else {
        HOST@ + url
    }
}

/// Whether a page is a page of the site in good order: it holds exactly one
/// search button.
pub open spec fn is_site_page(page: Seq<char>) -> bool {
    page_matches(parsed(page), query(SEARCH_BUTTON)).len() == 1
}

/// What opening a session on a landing page gives, when it fails: the error
/// of the first query that does not compile, else the missing search button.
pub open spec fn session_error(page: Seq<char>) -> Option<ErrorView> {
    match first_invalid(query_texts()) {
        Some(kind) => Some(ErrorView::Selector(kind)),
        None => if is_site_page(page) {
            None
        } else {
            Some(ErrorView::StructuralMismatch(Landmark::SearchButton))
        },
    }
}

/// The headers that every request to the site carries, each a name and a
/// value, in the order in which they are set. The site serves its pages to
/// what looks like its own application on a phone.
pub open spec fn header_texts() -> Seq<(Seq<char>, Seq<char>)> {
    seq![
        (
            "accept"@,
            "text/html,application/xhtml+xml,application/xml;q=0.9,image/avif,image/webp,image/apng,*/*;q=0.8,application/signed-exchange;v=b3;q=0.7"@,
        ),
        ("accept-encoding"@, "text"@),
        ("accept-language"@, "en-IN,en-US;q=0.9,en;q=0.8"@),
        ("host"@, "www.apkmirror.com"@),
        ("proxy-connection"@, "keep-alive"@),
        ("upgrade-insecure-requests"@, "1"@),
        (
            "user-agent"@,
            "Mozilla/5.0 (Linux; Android 13; Pixel 5 Build/TQ3A.230901.001; wv) AppleWebKit/537.36 (KHTML, like Gecko) Version/4.0 Chrome/118.0.0.0 Safari/537.36"@,
        ),
        ("x-requested-with"@, "cf.vojtechh.apkmirror"@),
    ]
}

/// A header as texts.
pub open spec fn header_text(header: (&'static str, &'static str)) -> (Seq<char>, Seq<char>) {
    (header.0@, header.1@)
}

/// The headers that every request to the site carries.
pub fn request_headers() -> (headers: Vec<(&'static str, &'static str)>)
    ensures
        headers@.len() == header_texts().len(),
        forall|i: int|
            0 <= i < headers@.len() ==> header_text(#[trigger] headers@[i]) == header_texts()[i],
{
    let mut headers: Vec<(&'static str, &'static str)> = Vec::new();
    headers.push(
        (
            "accept",
            "text/html,application/xhtml+xml,application/xml;q=0.9,image/avif,image/webp,image/apng,*/*;q=0.8,application/signed-exchange;v=b3;q=0.7",
        ),
    );
    headers.push(("accept-encoding", "text"));
    headers.push(("accept-language", "en-IN,en-US;q=0.9,en;q=0.8"));
    headers.push(("host", "www.apkmirror.com"));
    headers.push(("proxy-connection", "keep-alive"));
    headers.push(("upgrade-insecure-requests", "1"));
    headers.push(
        (
            "user-agent",
            "Mozilla/5.0 (Linux; Android 13; Pixel 5 Build/TQ3A.230901.001; wv) AppleWebKit/537.36 (KHTML, like Gecko) Version/4.0 Chrome/118.0.0.0 Safari/537.36",
        ),
    );
    headers.push(("x-requested-with", "cf.vojtechh.apkmirror"));
    headers
}

/// The CSS selector of a query.
fn query_text(which: usize) -> (r: &'static str)
    requires
        which < QUERY_COUNT,
    ensures
        r@ == query_texts()[which as int],
{
    if which == SEARCH_BUTTON {
        "button[class='searchButton']"
    } else if which == LIST_WIDGET {
        "div.listWidget"
    } else if which == RESULT_BLOCK {
        "div:not([class])"
    } else if which == TITLE_LINK {
        "a[class='fontBlack']"
    } else if which == INFO_PANEL {
        "div.infoSlide.t-height"
    } else if which == INFO_PAIR {
        "p"
    } else if which == INFO_NAME {
        "span.infoSlide-name"
    } else if which == INFO_VALUE {
        "span.infoSlide-value"
    } else if which == TABLE_ROW {
        "div[class='table-row headerFont']"
    } else if which == TABLE_CELL {
        "div[class='table-cell rowheight addseparator expand pad dowrap']"
    } else if which == TYPE_BADGE {
        "span.apkm-badge"
    } else if which == VARIANT_LINK {
        "a[class='accent_color']"
    } else if which == ROW_COLUMN {
        "div"
    } else if which == DOWNLOAD_BUTTON {
        "a.accent_bg.btn.btn-flat.downloadButton"
    } else {
        "a[rel='nofollow'][data-google-vignette='false']"
    }
}

/// Where the texts before `n` all compile, the first invalid text of all is
/// the first invalid one from `n` on.
proof fn lemma_first_invalid_skip(texts: Seq<Seq<char>>, n: int)
    requires
        0 <= n <= texts.len(),
        forall|i: int| 0 <= i < n ==> (#[trigger] compiled(texts[i])) is Ok,
    ensures
        first_invalid(texts) == first_invalid(texts.skip(n)),
    decreases n,
{
    if n == 0 {
        assert(texts.skip(0) =~= texts);
    } else {
        let rest = texts.drop_first();
        assert forall|i: int| 0 <= i < n - 1 implies (#[trigger] compiled(rest[i])) is Ok by {
            assert(rest[i] == texts[i + 1]);
        }
        lemma_first_invalid_skip(rest, n - 1);
        assert(rest.skip(n - 1) =~= texts.skip(n));
    }
}

/// A link in absolute form begins with `http`: it did so before, or it begins
/// with the site's address now.
pub proof fn lemma_absolute_begins_with_http(url: Seq<char>)
    ensures
        "http"@.is_prefix_of(absolute(url)),
{
    reveal_strlit("http");
    reveal_strlit("https://www.apkmirror.com");
    if !"http"@.is_prefix_of(url) {
        assert((HOST@ + url).subrange(0, 4) =~= "http"@);
    }
}

/// The link in absolute form: one that begins with `http` stands as it is,
/// any other is put behind the site's address.
pub fn absolute_url(url: &str) -> (r: String)
    ensures
        r@ == absolute(url@),
        "http"@.is_prefix_of(r@),
{
    proof {
        lemma_absolute_begins_with_http(url@);
    }
    if starts_with(url, "http") {
        url.to_owned()
    } else {
        join(HOST, url)
    }
}

/// A session with the site: its address and its compiled queries.
pub struct ApkMirror {
    host: String,
    queries: Vec<Selector>,
}

impl ApkMirror {
    #[verifier::type_invariant]
    spec fn well_formed(&self) -> bool {
        &&& self.host@ == HOST@
        &&& self.queries@.len() == QUERY_COUNT
        &&& forall|i: int|
            0 <= i < QUERY_COUNT ==> compiled(#[trigger] query_texts()[i]) == Ok::<
                Selector,
                SelectorErrorKind,
            >(self.queries@[i])
    }

    /// Opens a session on the text of the site's landing page. The queries are
    /// compiled, and the page must hold exactly one search button.
    pub fn new(landing_page: &str) -> (r: Result<ApkMirror, DownApkError>)
        ensures
            r is Ok <==> session_error(landing_page@) is None,
            r matches Err(e) ==> session_error(landing_page@) == Some(e@),
    {
        let mut queries: Vec<Selector> = Vec::new();
        let mut i: usize = 0;
        while i < QUERY_COUNT
            invariant
                i <= QUERY_COUNT,
                queries@.len() == i,
                query_texts().len() == QUERY_COUNT,
                forall|j: int|
                    0 <= j < i ==> compiled(#[trigger] query_texts()[j]) == Ok::<
                        Selector,
                        SelectorErrorKind,
                    >(queries@[j]),
            decreases QUERY_COUNT - i,
        {
            match selector(query_text(i)) {
                Ok(compiled_query) => {
                    queries.push(compiled_query);
                },
                Err(e) => {
                    proof {
                        lemma_first_invalid_skip(query_texts(), i as int);
                        assert(query_texts().skip(i as int)[0] == query_texts()[i as int]);
                    }
                    return Err(e);
                },
            }
            i = i + 1;
        }
        proof {
            lemma_first_invalid_skip(query_texts(), QUERY_COUNT as int);
        }
        let doc = parse_page(landing_page);
        let buttons = select_in_page(&doc, &queries[SEARCH_BUTTON]);
        if buttons.len() == 1 {
            Ok(ApkMirror { host: HOST.to_owned(), queries })
        } else {
            Err(DownApkError::StructuralMismatch(Landmark::SearchButton))
        }
    }

    /// The address of the site.
    pub fn host(&self) -> (r: &str)
        ensures
            r@ == HOST@,
    {
        proof {
            use_type_invariant(self);
        }
        self.host.as_str()
    }

    /// The compiled selector of a query.
    pub(crate) fn selector_of(&self, which: usize) -> (r: &Selector)
        requires
            which < QUERY_COUNT,
        ensures
            *r == query(which),
    {
        proof {
            use_type_invariant(self);
        }
        &self.queries[which]
    }

    /// The first element below `element` that a query matches.
    pub(crate) fn first_in<'a>(&self, element: &ElementRef<'a>, which: usize) -> (r: Option<
        ElementRef<'a>,
    >)
        requires
            which < QUERY_COUNT,
        ensures
            r == first(element_matches(*element, query(which))),
    {
        let found = select_in(element, self.selector_of(which));
        if found.len() > 0 {
            Some(found[0])
        } else {
            None
        }
    }

    /// The link in absolute form.
    pub fn absolute_url(&self, url: &str) -> (r: String)
        ensures
            r@ == absolute(url@),
            "http"@.is_prefix_of(r@),
    {
        absolute_url(url)
    }

    /// The address of the listing page that answers a search.
    pub fn search_url(&self, search_query: &str) -> (r: String)
        ensures
            r@ == HOST@ + SEARCH_PATH@ + search_query@,
    {
        let path = join(SEARCH_PATH, search_query);
        let r = join(self.host(), path.as_str());
        assert(r@ =~= HOST@ + SEARCH_PATH@ + search_query@);
        r
    }
}

} // verus!
