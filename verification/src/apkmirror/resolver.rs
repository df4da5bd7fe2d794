//! From a variant to its file: the walk over the site's redirect pages.
//!
//! The site puts two pages between a variant and its file. The variant's own
//! page holds a download button, which leads to an interstitial page; that
//! page holds, among advertisements, the one anchor that leads to the file.
//! The library does not fetch pages. It says which address is to be fetched
//! next, takes the page's text, and says what follows: the next address, the
//! resolved variants, or a failure. A page without its landmark fails the
//! whole walk: no variant is given then.

use crate::apkmirror::variants::{
    lemma_rows_meet_criteria, variant_rows, Criteria, DownloadApkMirror, DownloadApkMirrorView,
};
use crate::apkmirror::{
    absolute, first, lemma_absolute_begins_with_http, query, ApkMirror, DOWNLOAD_BUTTON,
    FINAL_LINK, QUERY_COUNT,
};
use crate::dom::{attr_of, element_attr, page_matches, parse_page, parsed, select_in_page};
use crate::errors::{DownApkError, ErrorView, Landmark};
use scraper::Html;
use vstd::prelude::*;

verus! {

/// A walk that waits for a page.
pub struct Walk {
    resolved: Vec<DownloadApkMirror>,
    pending: Vec<DownloadApkMirror>,
    interstitial: Option<String>,
}

/// A walk that waits for a page, as plain values.
pub struct WalkView {
    /// The variants whose file is found, in the order of the release page.
    pub resolved: Seq<DownloadApkMirrorView>,
    /// The variants whose file is still to be found, in the order of the
    /// release page. The first of them is the one at work, and there is one.
    pub pending: Seq<DownloadApkMirrorView>,
    /// The address of the interstitial page of the variant at work, once its
    /// own page was read.
    pub interstitial: Option<Seq<char>>,
}

impl WalkView {
    /// The address of the page that the walk waits for: the interstitial page
    /// of the variant at work if it is known, else the variant's own page.
    pub open spec fn url(self) -> Seq<char> {
        match self.interstitial {
            Some(address) => address,
            None => self.pending[0].download_link,
        }
    }

    /// The landmark that the page which the walk waits for must hold: the
    /// download button on a variant's own page, the final link on an
    /// interstitial page.
    pub open spec fn landmark(self) -> Landmark {
        match self.interstitial {
            Some(_) => Landmark::FinalLink,
            None => Landmark::DownloadButton,
        }
    }
}

impl View for Walk {
    type V = WalkView;

    closed spec fn view(&self) -> WalkView {
        WalkView {
            resolved: self.resolved.deep_view(),
            pending: self.pending.deep_view(),
            interstitial: match self.interstitial {
                Some(address) => Some(address@),
                None => None,
            },
        }
    }
}

/// Where the extraction of a release's variants stands.
pub enum Resolution {
    /// The page at the walk's address is to be fetched and handed over.
    Awaiting(Walk),
    /// Every variant is resolved: each holds the address of its file.
    Finished(Vec<DownloadApkMirror>),
    /// A page lacked its landmark. No variant is given.
    Failed(DownApkError),
}

/// Where the extraction of a release's variants stands, as plain values.
pub enum ResolutionView {
    Awaiting(WalkView),
    Finished(Seq<DownloadApkMirrorView>),
    Failed(ErrorView),
}

impl View for Resolution {
    type V = ResolutionView;

    open spec fn view(&self) -> ResolutionView {
        match self {
            Resolution::Awaiting(walk) => ResolutionView::Awaiting(walk@),
            Resolution::Finished(variants) => ResolutionView::Finished(variants.deep_view()),
            Resolution::Failed(error) => ResolutionView::Failed(error@),
        }
    }
}

/// The start of the walk over some variants: without variants it is finished
/// at once, else it waits for the page of the first.
pub open spec fn begin(variants: Seq<DownloadApkMirrorView>) -> ResolutionView {
    if variants.len() == 0 {
        ResolutionView::Finished(variants)
    } else {
        ResolutionView::Awaiting(
            WalkView { resolved: Seq::empty(), pending: variants, interstitial: None },
        )
    }
}

/// The start of the extraction of a release page's variants: a page that is
/// refused fails at once, any other starts the walk over its variants.
pub open spec fn begin_with(rows: Result<Seq<DownloadApkMirrorView>, Landmark>) -> ResolutionView {
    match rows {
        Err(landmark) => ResolutionView::Failed(ErrorView::StructuralMismatch(landmark)),
        Ok(variants) => begin(variants),
    }
}

/// A variant with the address of its file in place of that of its page.
pub open spec fn with_link(variant: DownloadApkMirrorView, link: Seq<char>)
    -> DownloadApkMirrorView {
    DownloadApkMirrorView { download_link: link, ..variant }
}

/// What follows when the page that a walk waited for was read, and gave this
/// link or none.
///
/// The link of a variant's own page is the address of the interstitial page,
/// which is waited for next. The link of the interstitial page is the address
/// of the variant's file: the variant is resolved, and the walk goes on to
/// the next variant, or is finished after the last. A page that gave no link
/// fails the walk, and the failure names the landmark that the page lacked.
pub open spec fn advance(walk: WalkView, link: Option<Seq<char>>) -> ResolutionView {
    match link {
        None => ResolutionView::Failed(ErrorView::StructuralMismatch(walk.landmark())),
        Some(address) => match walk.interstitial {
            None => ResolutionView::Awaiting(WalkView { interstitial: Some(address), ..walk }),
            Some(_) => {
                let resolved = walk.resolved.push(with_link(walk.pending[0], address));
                let pending = walk.pending.drop_first();
                if pending.len() == 0 {
                    ResolutionView::Finished(resolved)
                } else {
                    ResolutionView::Awaiting(WalkView { resolved, pending, interstitial: None })
                }
            },
        },
    }
}

/// Where an extraction stands after the pages that it waited for gave these
/// links, one after the other. Once it is finished or has failed, nothing
/// changes any more.
pub open spec fn run(state: ResolutionView, links: Seq<Option<Seq<char>>>) -> ResolutionView
    decreases links.len(),
{
    if links.len() == 0 {
        state
    } else {
        match run(state, links.drop_last()) {
            ResolutionView::Awaiting(walk) => advance(walk, links.last()),
            settled => settled,
        }
    }
}

/// The link, in absolute form, of the first element of a document that a
/// query matches; none where nothing matches or the first match has no link.
pub open spec fn page_link(doc: Html, which: usize) -> Option<Seq<char>> {
    match first(page_matches(doc, query(which))) {
        Some(anchor) => match element_attr(anchor, "href"@) {
            Some(href) => Some(absolute(href)),
            None => None,
        },
        None => None,
    }
}

/// The address of the interstitial page that a variant page leads to: the
/// link of its first download button.
pub open spec fn interstitial_link(page: Seq<char>) -> Option<Seq<char>> {
    page_link(parsed(page), DOWNLOAD_BUTTON)
}

/// The address of the file that an interstitial page leads to: the link of
/// its first anchor with both marks.
pub open spec fn final_link(page: Seq<char>) -> Option<Seq<char>> {
    page_link(parsed(page), FINAL_LINK)
}

/// The link that a walk looks for on the page that it waited for.
pub open spec fn wanted_link(walk: WalkView, page: Seq<char>) -> Option<Seq<char>> {
    match walk.interstitial {
        None => interstitial_link(page),
        Some(_) => final_link(page),
    }
}

/// The links that the walk reads from pages are in absolute form.
pub proof fn lemma_page_links_are_absolute(walk: WalkView, page: Seq<char>)
    ensures
        wanted_link(walk, page) matches Some(link) ==> "http"@.is_prefix_of(link),
{
    let which: usize = if walk.interstitial is Some {
        FINAL_LINK
    } else {
        DOWNLOAD_BUTTON
    };
    if let Some(link) = page_link(parsed(page), which) {
        let anchor = first(page_matches(parsed(page), query(which))).unwrap();
        lemma_absolute_begins_with_http(element_attr(anchor, "href"@).unwrap());
    }
}

/// Whether the variant at place `i` of `resolved` is the variant of the same
/// place among `rows`, with the link of that variant's interstitial page, the
/// page after the variant's own, as its address.
pub open spec fn resolved_at(
    resolved: Seq<DownloadApkMirrorView>,
    rows: Seq<DownloadApkMirrorView>,
    links: Seq<Option<Seq<char>>>,
    i: int,
) -> bool {
    &&& links[2 * i] is Some
    &&& links[2 * i + 1] is Some
    &&& resolved[i] == with_link(rows[i], links[2 * i + 1].unwrap())
}

/// Whether some resolved variants are the first of `rows`, in the same order,
/// each with the address of its file as the pages gave it.
pub open spec fn resolved_from(
    resolved: Seq<DownloadApkMirrorView>,
    rows: Seq<DownloadApkMirrorView>,
    links: Seq<Option<Seq<char>>>,
) -> bool {
    &&& resolved.len() <= rows.len()
    &&& 2 * resolved.len() <= links.len()
    &&& forall|i: int| 0 <= i < resolved.len() ==> #[trigger] resolved_at(resolved, rows, links, i)
}

/// An extraction that is finished or has failed stays as it is, whatever
/// follows.
pub proof fn lemma_settled_stays(state: ResolutionView, links: Seq<Option<Seq<char>>>)
    requires
        !(state is Awaiting),
    ensures
        run(state, links) == state,
    decreases links.len(),
{
    if links.len() > 0 {
        lemma_settled_stays(state, links.drop_last());
    }
}

/// Reading some pages and then some more is reading all of them.
pub proof fn lemma_run_add(
    state: ResolutionView,
    links: Seq<Option<Seq<char>>>,
    more: Seq<Option<Seq<char>>>,
)
    ensures
        run(state, links + more) == run(run(state, links), more),
    decreases more.len(),
{
    if more.len() == 0 {
        assert(links + more =~= links);
    } else {
        lemma_run_add(state, links, more.drop_last());
        assert((links + more).drop_last() =~= links + more.drop_last());
        assert((links + more).last() == more.last());
    }
}

/// A page without its landmark fails the whole extraction: whatever follows,
/// the extraction has failed, and the failure names the landmark. No variant
/// is given, not even those that were resolved before.
pub proof fn lemma_missing_landmark_fails(walk: WalkView, later: Seq<Option<Seq<char>>>)
    ensures
        run(ResolutionView::Awaiting(walk), seq![None] + later) == ResolutionView::Failed(
            ErrorView::StructuralMismatch(walk.landmark()),
        ),
{
    let start = ResolutionView::Awaiting(walk);
    let failed = ResolutionView::Failed(ErrorView::StructuralMismatch(walk.landmark()));
    let one: Seq<Option<Seq<char>>> = seq![None];
    assert(one.drop_last() =~= Seq::<Option<Seq<char>>>::empty());
    assert(run(start, one.drop_last()) == start);
    assert(run(start, one) == failed);
    lemma_run_add(start, one, later);
    lemma_settled_stays(failed, later);
}

/// An interstitial page without the anchor that carries both marks, or whose
/// marked anchor holds no link, fails the whole extraction of a release's
/// variants: the walk that waited for it has failed, whatever pages follow.
pub proof fn lemma_missing_final_link_fails(
    walk: WalkView,
    page: Seq<char>,
    later: Seq<Option<Seq<char>>>,
)
    requires
        walk.interstitial is Some,
        final_link(page) is None,
    ensures
        run(ResolutionView::Awaiting(walk), seq![wanted_link(walk, page)] + later)
            == ResolutionView::Failed(ErrorView::StructuralMismatch(Landmark::FinalLink)),
{
    lemma_missing_landmark_fails(walk, later);
}

/// A variant page without a download button that holds a link fails the whole
/// extraction of a release's variants in the same way.
pub proof fn lemma_missing_download_button_fails(
    walk: WalkView,
    page: Seq<char>,
    later: Seq<Option<Seq<char>>>,
)
    requires
        walk.interstitial is None,
        interstitial_link(page) is None,
    ensures
        run(ResolutionView::Awaiting(walk), seq![wanted_link(walk, page)] + later)
            == ResolutionView::Failed(ErrorView::StructuralMismatch(Landmark::DownloadButton)),
{
    lemma_missing_landmark_fails(walk, later);
}

/// Variants that were resolved from some links were resolved from these links
/// with more after them.
proof fn lemma_resolved_from_longer(
    resolved: Seq<DownloadApkMirrorView>,
    rows: Seq<DownloadApkMirrorView>,
    links: Seq<Option<Seq<char>>>,
    longer: Seq<Option<Seq<char>>>,
)
    requires
        resolved_from(resolved, rows, links),
        links.is_prefix_of(longer),
    ensures
        resolved_from(resolved, rows, longer),
{
    assert forall|i: int| 0 <= i < resolved.len() implies #[trigger] resolved_at(
        resolved,
        rows,
        longer,
        i,
    ) by {
        assert(resolved_at(resolved, rows, links, i));
        assert(longer[2 * i] == links[2 * i]);
        assert(longer[2 * i + 1] == links[2 * i + 1]);
    }
}

/// Each variant is resolved once, with two pages: its own and its
/// interstitial page.
///
/// After `n` pages an extraction over `rows` that still waits has resolved
/// the first `n / 2` variants, has the others before it, and waits for an
/// interstitial page exactly when `n` is odd; so it has read fewer than two
/// pages per variant. One that is finished has read two pages for each
/// variant and gives one variant per row, in the same order, which differs
/// from the row in its address alone: that is the link of the variant's
/// interstitial page. One that has failed read a page without its landmark.
pub proof fn lemma_two_pages_per_variant(
    rows: Seq<DownloadApkMirrorView>,
    links: Seq<Option<Seq<char>>>,
)
    ensures
        match run(begin(rows), links) {
            ResolutionView::Awaiting(walk) => {
                &&& links.len() < 2 * rows.len()
                &&& walk.resolved.len() == links.len() / 2
                &&& walk.pending == rows.skip(links.len() as int / 2)
                &&& walk.interstitial is Some == (links.len() % 2 == 1)
                &&& walk.interstitial is Some ==> walk.interstitial == links.last()
                &&& resolved_from(walk.resolved, rows, links)
            },
            ResolutionView::Finished(variants) => {
                &&& links.len() >= 2 * rows.len()
                &&& variants.len() == rows.len()
                &&& resolved_from(variants, rows, links)
            },
            ResolutionView::Failed(error) => {
                &&& exists|k: int| 0 <= k < links.len() && k < 2 * rows.len() && links[k] is None
                &&& error == ErrorView::StructuralMismatch(Landmark::DownloadButton) || error
                    == ErrorView::StructuralMismatch(Landmark::FinalLink)
            },
        },
    decreases links.len(),
{
    let start = begin(rows);
    if links.len() == 0 {
        if rows.len() > 0 {
            assert(rows.skip(0) =~= rows);
        }
    } else {
        let front = links.drop_last();
        let n: int = front.len() as int;
        lemma_two_pages_per_variant(rows, front);
        match run(start, front) {
            ResolutionView::Awaiting(walk) => {
                lemma_resolved_from_longer(walk.resolved, rows, front, links);
                match (walk.interstitial, links.last()) {
                    (Some(_), Some(address)) => {
                        let resolved = walk.resolved.push(with_link(walk.pending[0], address));
                        assert(walk.pending[0] == rows[n / 2]);
                        assert(links[2 * (n / 2) + 1] == links.last());
                        assert(links[2 * (n / 2)] == front.last());
                        assert(walk.pending.drop_first() =~= rows.skip(n / 2 + 1));
                        assert forall|i: int| 0 <= i < resolved.len() implies #[trigger] resolved_at(
                            resolved,
                            rows,
                            links,
                            i,
                        ) by {
                            if i < walk.resolved.len() {
                                assert(resolved_at(walk.resolved, rows, links, i));
                            }
                        }
                    },
                    (_, None) => {
                        assert(links[n] is None);
                    },
                    _ => {},
                }
            },
            ResolutionView::Finished(variants) => {
                lemma_resolved_from_longer(variants, rows, front, links);
            },
            ResolutionView::Failed(_) => {
                let k: int = choose|k: int|
                    0 <= k < front.len() && k < 2 * rows.len() && front[k] is None;
                assert(links[k] is None);
            },
        }
    }
}

/// The variants that a finished extraction gives meet the criteria that the
/// release page was read under: type, architecture and density of each are
/// those that were asked for, where any was. There is one for each variant
/// of the page that meets the criteria, and two pages were read for each.
pub proof fn lemma_resolved_variants_meet_criteria(
    page: Seq<char>,
    criteria: Criteria,
    links: Seq<Option<Seq<char>>>,
)
    ensures
        run(begin_with(variant_rows(page, criteria)), links) matches ResolutionView::Finished(
            variants,
        ) ==> {
            &&& variant_rows(page, criteria) matches Ok(rows) && rows.len() == variants.len()
                && links.len() >= 2 * rows.len()
            &&& forall|i: int|
                0 <= i < variants.len() ==> criteria.met_by(#[trigger] variants[i])
        },
{
    match variant_rows(page, criteria) {
        Ok(rows) => {
            lemma_two_pages_per_variant(rows, links);
            lemma_rows_meet_criteria(page, criteria);
            if let ResolutionView::Finished(variants) = run(begin(rows), links) {
                assert forall|i: int| 0 <= i < variants.len() implies criteria.met_by(
                    #[trigger] variants[i],
                ) by {
                    assert(resolved_at(variants, rows, links, i));
                    assert(criteria.met_by(rows[i]));
                }
            }
        },
        Err(landmark) => {
            lemma_settled_stays(begin_with(Err(landmark)), links);
        },
    }
}

impl Walk {
    #[verifier::type_invariant]
    spec fn well_formed(&self) -> bool {
        self.pending@.len() > 0
    }

    /// The address of the page that the walk waits for.
    pub fn url(&self) -> (r: &str)
        ensures
            r@ == self@.url(),
            self@.pending.len() > 0,
    {
        proof {
            use_type_invariant(self);
        }
        match &self.interstitial {
            Some(address) => address.as_str(),
            None => self.pending[0].download_link.as_str(),
        }
    }

    /// Whether the walk waits for an interstitial page; else it waits for a
    /// variant's own page.
    pub fn awaits_interstitial(&self) -> (r: bool)
        ensures
            r == self@.interstitial is Some,
    {
        self.interstitial.is_some()
    }

    /// Goes on after the page that the walk waited for was read, and gave this
    /// link or none.
    pub fn advance(self, link: Option<String>) -> (r: Resolution)
        ensures
            r@ == advance(
                self@,
                match link {
                    Some(address) => Some(address@),
                    None => None,
                },
            ),
    {
        proof {
            use_type_invariant(&self);
        }
        let Walk { resolved, pending, interstitial } = self;
        let mut resolved = resolved;
        let mut pending = pending;
        let address = match link {
            Some(address) => address,
            None => {
                let landmark = if interstitial.is_some() {
                    Landmark::FinalLink
                } else {
                    Landmark::DownloadButton
                };
                return Resolution::Failed(DownApkError::StructuralMismatch(landmark));
            },
        };
        if interstitial.is_none() {
            return Resolution::Awaiting(Walk { resolved, pending, interstitial: Some(address) });
        }
        let ghost resolved_before = resolved.deep_view();
        let ghost pending_before = pending.deep_view();
        let mut variant = pending.remove(0);
        variant.download_link = address;
        resolved.push(variant);
        assert(resolved.deep_view() =~= resolved_before.push(
            with_link(pending_before[0], address@),
        ));
        assert(pending.deep_view() =~= pending_before.drop_first());
        if pending.len() == 0 {
            Resolution::Finished(resolved)
        } else {
            Resolution::Awaiting(Walk { resolved, pending, interstitial: None })
        }
    }
}

impl Resolution {
    /// Starts the walk over some variants, each of which holds the address of
    /// its own page.
    pub fn begin(variants: Vec<DownloadApkMirror>) -> (r: Resolution)
        ensures
            r@ == begin(variants.deep_view()),
    {
        if variants.len() == 0 {
            Resolution::Finished(variants)
        } else {
            let resolved: Vec<DownloadApkMirror> = Vec::new();
            assert(resolved.deep_view() =~= Seq::empty());
            Resolution::Awaiting(Walk { resolved, pending: variants, interstitial: None })
        }
    }
}

impl ApkMirror {
    /// The link, in absolute form, of the first element of a page that a query
    /// matches.
    fn page_link(&self, page: &str, which: usize) -> (r: Option<String>)
        requires
            which < QUERY_COUNT,
        ensures
            r.is_some() == page_link(parsed(page@), which).is_some(),
            r matches Some(link) ==> page_link(parsed(page@), which) == Some(link@),
    {
        let doc = parse_page(page);
        let found = select_in_page(&doc, self.selector_of(which));
        if found.len() == 0 {
            return None;
        }
        match attr_of(&found[0], "href") {
            Some(href) => Some(self.absolute_url(href)),
            None => None,
        }
    }

    /// The address of the interstitial page that a variant page leads to. A
    /// page without a download button that holds a link is refused.
    pub fn interstitial_link(&self, page: &str) -> (r: Result<String, DownApkError>)
        ensures
            match interstitial_link(page@) {
                Some(address) => r matches Ok(link) && link@ == address,
                None => r matches Err(e) && e@ == ErrorView::StructuralMismatch(
                    Landmark::DownloadButton,
                ),
            },
    {
        match self.page_link(page, DOWNLOAD_BUTTON) {
            Some(link) => Ok(link),
            None => Err(DownApkError::StructuralMismatch(Landmark::DownloadButton)),
        }
    }

    /// The address of the file that an interstitial page leads to. A page
    /// without the anchor that carries both marks, or whose marked anchor
    /// holds no link, is refused.
    pub fn final_link(&self, page: &str) -> (r: Result<String, DownApkError>)
        ensures
            match final_link(page@) {
                Some(address) => r matches Ok(link) && link@ == address,
                None => r matches Err(e) && e@ == ErrorView::StructuralMismatch(
                    Landmark::FinalLink,
                ),
            },
    {
        match self.page_link(page, FINAL_LINK) {
            Some(link) => Ok(link),
            None => Err(DownApkError::StructuralMismatch(Landmark::FinalLink)),
        }
    }

    /// Starts the extraction of the variants of a release page that meet the
    /// constraints. A constraint that is absent admits any value. A page that
    /// is refused fails at once; one without such a variant is finished at
    /// once; any other waits for the page of its first variant.
    pub fn download_by_specifics(
        &self,
        page: &str,
        type_: Option<&str>,
        arch_: Option<&str>,
        dpi: Option<&str>,
    ) -> (r: Resolution)
        ensures
            r@ == begin_with(variant_rows(page@, Criteria::of(type_, arch_, dpi))),
    {
        match self.variant_rows(page, type_, arch_, dpi) {
            Err(e) => Resolution::Failed(e),
            Ok(variants) => Resolution::begin(variants),
        }
    }

    /// Hands a walk the text of the page that it waited for, and gives what
    /// follows: the walk looks for the page's landmark and goes on with its
    /// link.
    pub fn download_link(&self, walk: Walk, page: &str) -> (r: Resolution)
        ensures
            r@ == advance(walk@, wanted_link(walk@, page@)),
    {
        let which: usize = if walk.awaits_interstitial() {
            FINAL_LINK
        } else {
            DOWNLOAD_BUTTON
        };
        let link = self.page_link(page, which);
        walk.advance(link)
    }
}

} // verus!
