//! Listing pages: the releases that a search found.
//!
//! A listing page holds one results container. Each child of the container
//! that is a `div` without a class stands for one release: it holds an anchor
//! with the release's title and link, and an info panel of labels and values.
//! A block that lacks the anchor, the anchor's link or the panel is passed
//! over.

use crate::apkmirror::{
    absolute, first, lemma_absolute_begins_with_http, query, ApkMirror, INFO_NAME, INFO_PAIR,
    INFO_PANEL, INFO_VALUE, LIST_WIDGET, RESULT_BLOCK, TITLE_LINK,
};
use crate::dom::{
    accepts, attr_of, children_of, element_attr, element_children, element_matches, element_text,
    page_matches, parse_page, parsed, select_in, select_in_page, selector_accepts, text_of,
};
use crate::text::{optional_text, same_text, strip_colon, trim, trimmed, without_colon};
use scraper::{ElementRef, Html};
use vstd::prelude::*;

verus! {

/// One release of a listing page.
#[derive(Debug)]
pub struct ExtractedLink {
    /// The version, as the info panel gives it; empty if it gives none.
    pub version: String,
    /// The number of downloads, as the info panel gives it.
    pub downloads: String,
    /// The file size, as the info panel gives it.
    pub file_size: String,
    /// The date of the upload, as the info panel gives it.
    pub uploaded: String,
    /// The address of the release's page, in absolute form.
    pub link: String,
    /// The title of the release.
    pub title: String,
}

/// A release of a listing page, with its texts as sequences of characters.
pub struct ExtractedLinkView {
    pub version: Seq<char>,
    pub downloads: Seq<char>,
    pub file_size: Seq<char>,
    pub uploaded: Seq<char>,
    pub link: Seq<char>,
    pub title: Seq<char>,
}

impl View for ExtractedLink {
    type V = ExtractedLinkView;

    open spec fn view(&self) -> ExtractedLinkView {
        ExtractedLinkView {
            version: self.version@,
            downloads: self.downloads@,
            file_size: self.file_size@,
            uploaded: self.uploaded@,
            link: self.link@,
            title: self.title@,
        }
    }
}

impl DeepView for ExtractedLink {
    type V = ExtractedLinkView;

    open spec fn deep_view(&self) -> ExtractedLinkView {
        self@
    }
}

impl ExtractedLinkView {
    /// The release of which nothing is known: every text is empty.
    pub open spec fn blank() -> ExtractedLinkView {
        ExtractedLinkView {
            version: Seq::empty(),
            downloads: Seq::empty(),
            file_size: Seq::empty(),
            uploaded: Seq::empty(),
            link: Seq::empty(),
            title: Seq::empty(),
        }
    }

    /// The release after one label of its info panel was read, with the
    /// label's value. The label stands as the panel shows it, with a colon at
    /// its end: `Version:`, `Downloads:`, `File Size:` and `Uploaded:` set
    /// their fields; any other label, and one without the colon, changes
    /// nothing.
    pub open spec fn with_label(self, label: Seq<char>, value: Seq<char>) -> ExtractedLinkView {
        match without_colon(label) {
            Some(name) => if name == "Version"@ {
                ExtractedLinkView { version: value, ..self }
            } else if name == "Downloads"@ {
                ExtractedLinkView { downloads: value, ..self }
            } else if name == "File Size"@ {
                ExtractedLinkView { file_size: value, ..self }
            } else if name == "Uploaded"@ {
                ExtractedLinkView { uploaded: value, ..self }
            } else {
                self
            },
            None => self,
        }
    }

    /// Whether the release passes a version filter: its version is the wanted
    /// one, character for character, or no version is asked for.
    pub open spec fn is_wanted(self, version: Option<Seq<char>>) -> bool {
        match version {
            Some(wanted) => self.version == wanted,
            None => true,
        }
    }
}

impl Clone for ExtractedLink {
    /// A release with the same texts.
    fn clone(&self) -> (r: ExtractedLink)
        ensures
            r@ == self@,
    {
        ExtractedLink {
            version: self.version.clone(),
            downloads: self.downloads.clone(),
            file_size: self.file_size.clone(),
            uploaded: self.uploaded.clone(),
            link: self.link.clone(),
            title: self.title.clone(),
        }
    }
}

impl Default for ExtractedLink {
    /// The release of which nothing is known: every text is empty.
    fn default() -> (r: ExtractedLink)
        ensures
            r@ == ExtractedLinkView::blank(),
    {
        ExtractedLink {
            version: String::new(),
            downloads: String::new(),
            file_size: String::new(),
            uploaded: String::new(),
            link: String::new(),
            title: String::new(),
        }
    }
}

impl ExtractedLink {
    /// Records one label of the release's info panel, with the label's value.
    /// The label stands as the panel shows it, with a colon at its end. An
    /// unknown label, and one without the colon, changes nothing.
    pub fn record(&mut self, label: &str, value: &str)
        ensures
            final(self)@ == old(self)@.with_label(label@, value@),
    {
        match strip_colon(label) {
            Some(name) => {
                if same_text(name.as_str(), "Version") {
                    self.version = value.to_owned();
                } else if same_text(name.as_str(), "Downloads") {
                    self.downloads = value.to_owned();
                } else if same_text(name.as_str(), "File Size") {
                    self.file_size = value.to_owned();
                } else if same_text(name.as_str(), "Uploaded") {
                    self.uploaded = value.to_owned();
                }
            },
            None => {},
        }
    }

    /// Whether the release passes a version filter: its version is the wanted
    /// one, character for character, or no version is asked for.
    pub fn is_wanted(&self, version: Option<&str>) -> (r: bool)
        ensures
            r == self@.is_wanted(optional_text(version)),
    {
        match version {
            Some(wanted) => same_text(self.version.as_str(), wanted),
            None => true,
        }
    }
}

/// Whether a child of the results container stands for a release.
pub open spec fn is_result_block() -> spec_fn(ElementRef<'static>) -> bool {
    |child: ElementRef<'static>| selector_accepts(query(RESULT_BLOCK), child)
}

/// The result blocks of a document, in document order: the children of its
/// first results container that are a `div` without a class.
pub open spec fn result_blocks(doc: Html) -> Seq<ElementRef<'static>> {
    match first(page_matches(doc, query(LIST_WIDGET))) {
        Some(widget) => element_children(widget).filter(is_result_block()),
        None => Seq::empty(),
    }
}

/// The title of a result block and the address of its release page, where the
/// block holds an anchor that gives both.
pub open spec fn title_and_link(block: ElementRef<'static>) -> Option<(Seq<char>, Seq<char>)> {
    match first(element_matches(block, query(TITLE_LINK))) {
        Some(anchor) => match element_attr(anchor, "href"@) {
            Some(href) => Some((element_text(anchor), absolute(href))),
            None => None,
        },
        None => None,
    }
}

/// A release after one more paragraph of its info panel was read. The
/// paragraph's label and value are the texts of its name and value elements
/// without the whitespace around them; a paragraph that lacks either changes
/// nothing.
pub open spec fn with_info(link: ExtractedLinkView, paragraph: ElementRef<'static>)
    -> ExtractedLinkView {
    match (
        first(element_matches(paragraph, query(INFO_NAME))),
        first(element_matches(paragraph, query(INFO_VALUE))),
    ) {
        (Some(name), Some(value)) => link.with_label(
            trimmed(element_text(name)),
            trimmed(element_text(value)),
        ),
        _ => link,
    }
}

/// Reading one paragraph into a release, as a function.
pub open spec fn info_reader() -> spec_fn(ExtractedLinkView, ElementRef<'static>)
    -> ExtractedLinkView {
    |link: ExtractedLinkView, paragraph: ElementRef<'static>| with_info(link, paragraph)
}

/// What the paragraphs of an info panel tell of a release, read in document
/// order: where a label comes twice, the later value stands.
pub open spec fn info_fields(panel: ElementRef<'static>) -> ExtractedLinkView {
    element_matches(panel, query(INFO_PAIR)).fold_left(ExtractedLinkView::blank(), info_reader())
}

/// The release that a result block stands for, if the block is well formed: it
/// holds a title anchor with a link, and an info panel.
pub open spec fn summary(block: ElementRef<'static>) -> Option<ExtractedLinkView> {
    match (title_and_link(block), first(element_matches(block, query(INFO_PANEL)))) {
        (Some((title, link)), Some(panel)) => Some(
            ExtractedLinkView { title, link, ..info_fields(panel) },
        ),
        _ => None,
    }
}

/// The release of a result block, if the block is well formed and the release
/// passes the version filter.
pub open spec fn listed(version: Option<Seq<char>>, block: ElementRef<'static>) -> Option<
    ExtractedLinkView,
> {
    match summary(block) {
        Some(link) => if link.is_wanted(version) {
            Some(link)
        } else {
            None
        },
        None => None,
    }
}

/// Listing one block under a version filter, as a function.
pub open spec fn lister(version: Option<Seq<char>>) -> spec_fn(ElementRef<'static>) -> Option<
    ExtractedLinkView,
> {
    |block: ElementRef<'static>| listed(version, block)
}

/// The releases of a listing page that pass the version filter, in document
/// order.
pub open spec fn listings(page: Seq<char>, version: Option<Seq<char>>) -> Seq<ExtractedLinkView> {
    result_blocks(parsed(page)).filter_map(lister(version))
}

/// Whether a result block is well formed: it stands for a release.
pub open spec fn is_well_formed() -> spec_fn(ElementRef<'static>) -> bool {
    |block: ElementRef<'static>| summary(block) is Some
}

/// Whether a release has a given version.
pub open spec fn has_version(version: Seq<char>) -> spec_fn(ExtractedLinkView) -> bool {
    |link: ExtractedLinkView| link.version == version
}

/// Without a version filter, as many releases are listed as there are well
/// formed blocks; with one, the releases listed are those of the unfiltered
/// listing that have the version, in the same order.
proof fn lemma_listed(blocks: Seq<ElementRef<'static>>, version: Seq<char>)
    ensures
        blocks.filter_map(lister(None)).len() == blocks.filter(is_well_formed()).len(),
        blocks.filter_map(lister(Some(version))) == blocks.filter_map(lister(None)).filter(
            has_version(version),
        ),
    decreases blocks.len(),
{
    reveal(Seq::filter);
    if blocks.len() > 0 {
        let front = blocks.drop_last();
        let last = blocks.last();
        lemma_listed(front, version);
        let all = front.filter_map(lister(None));
        match summary(last) {
            Some(link) => {
                assert(all + seq![link] =~= all.push(link));
                all.lemma_filter_push(link, has_version(version));
                if link.version == version {
                    assert(all.filter(has_version(version)) + seq![link] =~= all.filter(
                        has_version(version),
                    ).push(link));
                }
            },
            None => {},
        }
    }
}

/// A listing page with N well formed result blocks, and any number of others,
/// gives exactly N releases when no version is asked for.
pub proof fn lemma_one_release_per_well_formed_block(page: Seq<char>)
    ensures
        listings(page, None).len() == result_blocks(parsed(page)).filter(is_well_formed()).len(),
{
    lemma_listed(result_blocks(parsed(page)), Seq::empty());
}

/// Asking for a version gives the releases of the unfiltered listing that have
/// exactly that version, in the same order. So each release given has the
/// version; where some release of the page has it, the result is not empty;
/// and where none has it, the result is empty.
pub proof fn lemma_version_filter(page: Seq<char>, version: Seq<char>)
    ensures
        listings(page, Some(version)) == listings(page, None).filter(has_version(version)),
        forall|i: int|
            0 <= i < listings(page, Some(version)).len() ==> (#[trigger] listings(
                page,
                Some(version),
            )[i]).version == version,
        (exists|i: int|
            0 <= i < listings(page, None).len() && (#[trigger] listings(page, None)[i]).version
                == version) ==> listings(page, Some(version)).len() > 0,
        (forall|i: int|
            0 <= i < listings(page, None).len() ==> (#[trigger] listings(page, None)[i]).version
                != version) ==> listings(page, Some(version)).len() == 0,
{
    let all = listings(page, None);
    let some = listings(page, Some(version));
    lemma_listed(result_blocks(parsed(page)), version);
    assert forall|i: int| 0 <= i < some.len() implies (#[trigger] some[i]).version == version by {
        all.lemma_filter_pred(has_version(version), i);
    }
    if exists|i: int| 0 <= i < all.len() && (#[trigger] all[i]).version == version {
        let i: int = choose|i: int|
            0 <= i < all.len() && (#[trigger] all[i]).version == version;
        all.lemma_filter_contains(has_version(version), i);
        assert(some.contains(all[i]));
    }
    if forall|i: int| 0 <= i < all.len() ==> (#[trigger] all[i]).version != version {
        if some.len() > 0 {
            all.lemma_filter_pred(has_version(version), 0);
            all.lemma_filter_contains_rev(has_version(version), some[0]);
            assert(all.contains(some[0]));
            let k: int = choose|k: int| 0 <= k < all.len() && all[k] == some[0];
            assert(all[k].version != version);
        }
    }
}

/// Every release that a listing page gives has a link in absolute form.
pub proof fn lemma_listed_links_are_absolute(page: Seq<char>, version: Option<Seq<char>>)
    ensures
        forall|i: int|
            0 <= i < listings(page, version).len() ==> "http"@.is_prefix_of(
                (#[trigger] listings(page, version)[i]).link,
            ),
{
    let blocks = result_blocks(parsed(page));
    let links = listings(page, version);
    assert forall|i: int| 0 <= i < links.len() implies "http"@.is_prefix_of(
        (#[trigger] links[i]).link,
    ) by {
        assert(blocks.filter_map(lister(version)).contains(links[i]));
        blocks.lemma_filter_map_contains(lister(version), links[i]);
        let block = choose|b: ElementRef<'static>| #[trigger]
            blocks.contains(b) && lister(version)(b) == Some(links[i]);
        let anchor = first(element_matches(block, query(TITLE_LINK))).unwrap();
        lemma_absolute_begins_with_http(element_attr(anchor, "href"@).unwrap());
    }
}

impl ApkMirror {
    /// The result blocks of a document, in document order.
    fn result_blocks<'a>(&self, doc: &'a Html) -> (blocks: Vec<ElementRef<'a>>)
        ensures
            blocks@ == result_blocks(*doc),
    {
        let widgets = select_in_page(doc, self.selector_of(LIST_WIDGET));
        let mut blocks: Vec<ElementRef<'a>> = Vec::new();
        if widgets.len() > 0 {
            let children = children_of(&widgets[0]);
            let mut i: usize = 0;
            while i < children.len()
                invariant
                    i <= children.len(),
                    blocks@ == children@.take(i as int).filter(is_result_block()),
                decreases children.len() - i,
            {
                proof {
                    assert(children@.take(i + 1) =~= children@.take(i as int).push(
                        children@[i as int],
                    ));
                    children@.take(i as int).lemma_filter_push(
                        children@[i as int],
                        is_result_block(),
                    );
                }
                if accepts(self.selector_of(RESULT_BLOCK), &children[i]) {
                    blocks.push(children[i]);
                }
                i = i + 1;
            }
            assert(children@.take(children.len() as int) =~= children@);
        } else {
            proof {
                assert(blocks@ =~= Seq::empty());
            }
        }
        blocks
    }

    /// What the info panel of a result block tells of its release.
    fn info_fields(&self, panel: &ElementRef) -> (link: ExtractedLink)
        ensures
            link@ == info_fields(*panel),
    {
        let paragraphs = select_in(panel, self.selector_of(INFO_PAIR));
        let mut link = ExtractedLink::default();
        let mut i: usize = 0;
        while i < paragraphs.len()
            invariant
                i <= paragraphs.len(),
                link@ == paragraphs@.take(i as int).fold_left(
                    ExtractedLinkView::blank(),
                    info_reader(),
                ),
            decreases paragraphs.len() - i,
        {
            proof {
                assert(paragraphs@.take(i + 1).drop_last() =~= paragraphs@.take(i as int));
            }
            let name = self.first_in(&paragraphs[i], INFO_NAME);
            let value = self.first_in(&paragraphs[i], INFO_VALUE);
            match (name, value) {
                (Some(name), Some(value)) => {
                    let name_text = text_of(&name);
                    let value_text = text_of(&value);
                    link.record(trim(name_text.as_str()), trim(value_text.as_str()));
                },
                _ => {},
            }
            i = i + 1;
        }
        assert(paragraphs@.take(paragraphs.len() as int) =~= paragraphs@);
        link
    }

    /// The release that a result block stands for, if the block is well formed.
    fn summary(&self, block: &ElementRef) -> (r: Option<ExtractedLink>)
        ensures
            r.is_some() == summary(*block).is_some(),
            r matches Some(link) ==> summary(*block) == Some(link@),
    {
        let anchor = match self.first_in(block, TITLE_LINK) {
            Some(anchor) => anchor,
            None => {
                return None;
            },
        };
        let href = match attr_of(&anchor, "href") {
            Some(href) => href,
            None => {
                return None;
            },
        };
        let panel = match self.first_in(block, INFO_PANEL) {
            Some(panel) => panel,
            None => {
                return None;
            },
        };
        let mut link = self.info_fields(&panel);
        link.title = text_of(&anchor);
        link.link = self.absolute_url(href);
        Some(link)
    }

    /// The releases of a listing page, in the order of the page. With a version,
    /// only the releases of exactly that version are given: where none has it,
    /// the result is empty.
    pub fn extract_root_links(&self, page: &str, version: Option<&str>) -> (links: Vec<
        ExtractedLink,
    >)
        ensures
            links.deep_view() == listings(page@, optional_text(version)),
    {
        let doc = parse_page(page);
        let blocks = self.result_blocks(&doc);
        let ghost filter = optional_text(version);
        let mut links: Vec<ExtractedLink> = Vec::new();
        let mut i: usize = 0;
        while i < blocks.len()
            invariant
                i <= blocks.len(),
                filter == optional_text(version),
                links.deep_view() == blocks@.take(i as int).filter_map(lister(filter)),
            decreases blocks.len() - i,
        {
            proof {
                blocks@.lemma_filter_map_take_succ(lister(filter), i as int);
            }
            let ghost before = links.deep_view();
            match self.summary(&blocks[i]) {
                Some(link) => {
                    if link.is_wanted(version) {
                        links.push(link);
                        assert(links.deep_view() =~= before.push(link@));
                    }
                },
                None => {},
            }
            i = i + 1;
        }
        assert(blocks@.take(blocks.len() as int) =~= blocks@);
        links
    }

    /// The releases of the listing page that answered a search, in the order of
    /// the page.
    pub fn search(&self, page: &str) -> (links: Vec<ExtractedLink>)
        ensures
            links.deep_view() == listings(page@, None),
    {
        self.extract_root_links(page, None)
    }

    /// The releases of exactly this version on the listing page that answered a
    /// search, in the order of the page.
    pub fn search_by_version(&self, page: &str, version: &str) -> (links: Vec<ExtractedLink>)
        ensures
            links.deep_view() == listings(page@, Some(version@)),
    {
        self.extract_root_links(page, Some(version))
    }
}

} // verus!
