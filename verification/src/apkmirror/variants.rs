//! Release pages: the table of a release's variants.
//!
//! Each row of the table stands for one variant. Among the cells of a row, the
//! one that holds the download anchor gives the version label, the link to the
//! variant's page and, in a badge, the package type. Architecture, minimum OS
//! version and screen density are the texts of the row's second, third and
//! fourth column.

use crate::apkmirror::{
    absolute, absolute_url, first, lemma_absolute_begins_with_http, query, ApkMirror, ROW_COLUMN,
    TABLE_CELL, TABLE_ROW, TYPE_BADGE, VARIANT_LINK,
};
use crate::dom::{
    accepts, attr_of, children_of, element_attr, element_children, element_matches, element_text,
    page_matches, parse_page, parsed, select_in, select_in_page, selector_accepts, text_of,
};
use crate::errors::{DownApkError, ErrorView, Landmark};
use crate::text::{optional_text, same_text, trim, trimmed};
use scraper::{ElementRef, Html};
use vstd::prelude::*;

verus! {

/// The package types that the site offers.
#[derive(Debug, Clone, Copy, PartialEq, Eq, Structural)]
pub enum ApkType {
    /// A single package file.
    Apk,
    /// A bundle of split packages.
    Bundle,
}

impl ApkType {
    /// The tag that the site's badge shows for the type.
    pub open spec fn tag_text(self) -> Seq<char> {
        match self {
            ApkType::Apk => "APK"@,
            ApkType::Bundle => "BUNDLE"@,
        }
    }

    /// The extension of the files of the type.
    pub open spec fn extension_text(self) -> Seq<char> {
        match self {
            ApkType::Apk => "apk"@,
            ApkType::Bundle => "apkm"@,
        }
    }

    /// The type that a tag names; none for a tag other than the two known.
    pub open spec fn of(tag: Seq<char>) -> Option<ApkType> {
        if tag == "APK"@ {
            Some(ApkType::Apk)
        } else if tag == "BUNDLE"@ {
            Some(ApkType::Bundle)
        } else {
            None
        }
    }

    /// The tag that the site's badge shows for the type.
    pub fn tag(self) -> (r: &'static str)
        ensures
            r@ == self.tag_text(),
            ApkType::of(r@) == Some(self),
    {
        proof {
            reveal_strlit("APK");
            reveal_strlit("BUNDLE");
            assert("APK"@.len() != "BUNDLE"@.len());
        }
        match self {
            ApkType::Apk => "APK",
            ApkType::Bundle => "BUNDLE",
        }
    }

    /// The extension of the files of the type.
    pub fn extension(self) -> (r: &'static str)
        ensures
            r@ == self.extension_text(),
    {
        match self {
            ApkType::Apk => "apk",
            ApkType::Bundle => "apkm",
        }
    }

    /// The type that a tag names; none for a tag other than the two known.
    pub fn from_tag(tag: &str) -> (r: Option<ApkType>)
        ensures
            r == ApkType::of(tag@),
    {
        if same_text(tag, "APK") {
            Some(ApkType::Apk)
        } else if same_text(tag, "BUNDLE") {
            Some(ApkType::Bundle)
        } else {
            None
        }
    }
}

/// One variant of a release: a package of one type for one architecture and
/// one screen density.
#[derive(Debug)]
pub struct DownloadApkMirror {
    /// The version label of the variant.
    pub version: String,
    /// The address of the variant: that of its page while the variant is not
    /// resolved, that of the file itself afterwards.
    pub download_link: String,
    /// The package type: `APK` or `BUNDLE`.
    pub type_: String,
    /// The architecture, such as `arm64-v8a` or `universal`.
    pub arch: String,
    /// The minimum version of the operating system.
    pub min_version: String,
    /// The screen density, such as `nodpi`.
    pub screen_dpi: String,
}

/// A variant, with its texts as sequences of characters.
pub struct DownloadApkMirrorView {
    pub version: Seq<char>,
    pub download_link: Seq<char>,
    pub type_: Seq<char>,
    pub arch: Seq<char>,
    pub min_version: Seq<char>,
    pub screen_dpi: Seq<char>,
}

impl View for DownloadApkMirror {
    type V = DownloadApkMirrorView;

    open spec fn view(&self) -> DownloadApkMirrorView {
        DownloadApkMirrorView {
            version: self.version@,
            download_link: self.download_link@,
            type_: self.type_@,
            arch: self.arch@,
            min_version: self.min_version@,
            screen_dpi: self.screen_dpi@,
        }
    }
}

impl Clone for DownloadApkMirror {
    /// A variant with the same texts.
    fn clone(&self) -> (r: DownloadApkMirror)
        ensures
            r@ == self@,
    {
        DownloadApkMirror {
            version: self.version.clone(),
            download_link: self.download_link.clone(),
            type_: self.type_.clone(),
            arch: self.arch.clone(),
            min_version: self.min_version.clone(),
            screen_dpi: self.screen_dpi.clone(),
        }
    }
}

impl DeepView for DownloadApkMirror {
    type V = DownloadApkMirrorView;

    open spec fn deep_view(&self) -> DownloadApkMirrorView {
        self@
    }
}

impl DownloadApkMirrorView {
    /// Whether the variant is complete: none of its six texts is empty.
    pub open spec fn is_complete(self) -> bool {
        &&& self.version.len() > 0
        &&& self.download_link.len() > 0
        &&& self.type_.len() > 0
        &&& self.arch.len() > 0
        &&& self.min_version.len() > 0
        &&& self.screen_dpi.len() > 0
    }
}

impl DownloadApkMirror {
    /// Whether the variant is complete: none of its six texts is empty. The
    /// variants that a release page gives have version, type and link; a page
    /// whose columns are empty gives variants that are not complete.
    pub fn is_complete(&self) -> (r: bool)
        ensures
            r == self@.is_complete(),
    {
        !self.version.as_str().is_empty() && !self.download_link.as_str().is_empty()
            && !self.type_.as_str().is_empty() && !self.arch.as_str().is_empty()
            && !self.min_version.as_str().is_empty() && !self.screen_dpi.as_str().is_empty()
    }
}

/// What a caller asks of a variant. A constraint that is absent admits any
/// value; one that is present admits exactly its own text.
pub struct Criteria {
    pub type_: Option<Seq<char>>,
    pub arch: Option<Seq<char>>,
    pub dpi: Option<Seq<char>>,
}

/// Whether a constraint admits a text.
pub open spec fn admits(constraint: Option<Seq<char>>, found: Seq<char>) -> bool {
    match constraint {
        Some(wanted) => wanted == found,
        None => true,
    }
}

impl Criteria {
    /// The criteria that three optional strings stand for.
    pub open spec fn of(type_: Option<&str>, arch: Option<&str>, dpi: Option<&str>) -> Criteria {
        Criteria {
            type_: optional_text(type_),
            arch: optional_text(arch),
            dpi: optional_text(dpi),
        }
    }

    /// Whether a variant meets every constraint.
    pub open spec fn met_by(self, variant: DownloadApkMirrorView) -> bool {
        &&& admits(self.type_, variant.type_)
        &&& admits(self.arch, variant.arch)
        &&& admits(self.dpi, variant.screen_dpi)
    }
}

/// What reading one cell of a variant row gives.
pub enum Reading {
    /// No variant: the cell holds no download anchor, or badge, version or
    /// link is empty, or a constraint does not admit the variant.
    Skipped,
    /// A variant that meets the criteria, its link not yet resolved.
    Found(DownloadApkMirrorView),
    /// The row lacks a column that had to be read.
    Broken,
}

impl Reading {
    /// Whether an executable result tells this reading: no variant for a cell
    /// that is skipped, the variant for one that is found, and the missing
    /// landmark for a broken row.
    pub open spec fn told_by(self, r: Result<Option<DownloadApkMirror>, DownApkError>) -> bool {
        match self {
            Reading::Skipped => r matches Ok(None),
            Reading::Found(variant) => r matches Ok(Some(v)) && v@ == variant,
            Reading::Broken => r matches Err(e) && e@ == ErrorView::StructuralMismatch(
                Landmark::VariantColumns,
            ),
        }
    }
}

/// What a cell with a download anchor gives under some criteria, from the
/// texts that the page shows: the badge of the cell, the label and the link
/// of the anchor, and the texts of the row's columns.
///
/// A cell whose badge, label or link is empty gives no variant. The
/// constraints are tried in the order type, architecture, density; the first
/// that does not admit its text ends the reading without a variant. The
/// architecture is the text of the second column, the minimum OS version
/// that of the third and the density that of the fourth; a column is looked
/// at only when the constraints before it are met, and a row that lacks one
/// that is looked at is broken. The variant's link is the anchor's link in
/// absolute form.
pub open spec fn decide(
    criteria: Criteria,
    badge: Seq<char>,
    label: Seq<char>,
    link: Seq<char>,
    columns: Seq<Seq<char>>,
) -> Reading {
    if badge.len() == 0 || label.len() == 0 || link.len() == 0 {
        Reading::Skipped
    } else if !admits(criteria.type_, badge) {
        Reading::Skipped
    } else if columns.len() <= 1 {
        Reading::Broken
    } else if !admits(criteria.arch, columns[1]) {
        Reading::Skipped
    } else if columns.len() <= 3 {
        Reading::Broken
    } else if !admits(criteria.dpi, columns[3]) {
        Reading::Skipped
    } else {
        Reading::Found(
            DownloadApkMirrorView {
                version: label,
                download_link: absolute(link),
                type_: badge,
                arch: columns[1],
                min_version: columns[2],
                screen_dpi: columns[3],
            },
        )
    }
}

/// Whether a child of a variant row is one of its columns.
pub open spec fn is_column() -> spec_fn(ElementRef<'static>) -> bool {
    |child: ElementRef<'static>| selector_accepts(query(ROW_COLUMN), child)
}

/// The columns of a variant row, in document order: its children that are a
/// `div`.
pub open spec fn row_columns(row: ElementRef<'static>) -> Seq<ElementRef<'static>> {
    element_children(row).filter(is_column())
}

/// The text of an element without the whitespace around it.
pub open spec fn trimmed_text(element: ElementRef<'static>) -> Seq<char> {
    trimmed(element_text(element))
}

/// The text of an element without the whitespace around it, as a function.
pub open spec fn text_trimmer() -> spec_fn(ElementRef<'static>) -> Seq<char> {
    |element: ElementRef<'static>| trimmed_text(element)
}

/// The texts of the columns of a variant row, each without the whitespace
/// around it.
pub open spec fn column_texts(row: ElementRef<'static>) -> Seq<Seq<char>> {
    row_columns(row).map_values(text_trimmer())
}

/// The text of the type badge of a cell; empty where the cell holds none.
pub open spec fn badge_text(cell: ElementRef<'static>) -> Seq<char> {
    match first(element_matches(cell, query(TYPE_BADGE))) {
        Some(badge) => element_text(badge),
        None => Seq::empty(),
    }
}

/// The link that an anchor gives; empty where it gives none.
pub open spec fn anchor_link(anchor: ElementRef<'static>) -> Seq<char> {
    match element_attr(anchor, "href"@) {
        Some(href) => href,
        None => Seq::empty(),
    }
}

/// What reading a cell of a row under some criteria gives. A cell without a
/// download anchor gives no variant.
pub open spec fn read_cell(criteria: Criteria, row: ElementRef<'static>, cell: ElementRef<'static>)
    -> Reading {
    match first(element_matches(cell, query(VARIANT_LINK))) {
        None => Reading::Skipped,
        Some(anchor) => decide(
            criteria,
            badge_text(cell),
            trimmed_text(anchor),
            anchor_link(anchor),
            column_texts(row),
        ),
    }
}

/// Reading a cell of a row under some criteria, as a function of the cell.
pub open spec fn cell_reader(criteria: Criteria, row: ElementRef<'static>) -> spec_fn(
    ElementRef<'static>,
) -> Reading {
    |cell: ElementRef<'static>| read_cell(criteria, row, cell)
}

/// The readings of the cells of a row, in document order.
pub open spec fn row_readings(criteria: Criteria, row: ElementRef<'static>) -> Seq<Reading> {
    element_matches(row, query(TABLE_CELL)).map_values(cell_reader(criteria, row))
}

/// Reading the cells of a row under some criteria, as a function of the row.
pub open spec fn row_reader(criteria: Criteria) -> spec_fn(ElementRef<'static>) -> Seq<Reading> {
    |row: ElementRef<'static>| row_readings(criteria, row)
}

/// The readings of all cells of all variant rows of a document, in document
/// order.
pub open spec fn page_readings(criteria: Criteria, doc: Html) -> Seq<Reading> {
    page_matches(doc, query(TABLE_ROW)).map_values(row_reader(criteria)).flatten()
}

/// Whether some reading found its row broken.
pub open spec fn any_broken(readings: Seq<Reading>) -> bool {
    exists|i: int| 0 <= i < readings.len() && readings[i] is Broken
}

/// The variant of a reading that found one.
pub open spec fn found_variant() -> spec_fn(Reading) -> Option<DownloadApkMirrorView> {
    |reading: Reading|
        match reading {
            Reading::Found(variant) => Some(variant),
            _ => None,
        }
}

/// The variants that some readings found, in order.
pub open spec fn found_variants(readings: Seq<Reading>) -> Seq<DownloadApkMirrorView> {
    readings.filter_map(found_variant())
}

/// What some readings come to: the landmark that a broken row lacks, else the
/// variants found.
pub open spec fn outcome(readings: Seq<Reading>) -> Result<Seq<DownloadApkMirrorView>, Landmark> {
    if any_broken(readings) {
        Err(Landmark::VariantColumns)
    } else {
        Ok(found_variants(readings))
    }
}

/// The variants of a release page that meet the criteria, in document order,
/// each with the link to its own page; or the landmark that is missing where a
/// row that had to be read lacks a column.
pub open spec fn variant_rows(page: Seq<char>, criteria: Criteria) -> Result<
    Seq<DownloadApkMirrorView>,
    Landmark,
> {
    outcome(page_readings(criteria, parsed(page)))
}

/// One more reading: it is broken if the new reading is or one before was,
/// and the variants found grow by the one it found.
proof fn lemma_readings_push(readings: Seq<Reading>, next: Reading)
    ensures
        any_broken(readings.push(next)) == (any_broken(readings) || next is Broken),
        found_variants(readings.push(next)) == match next {
            Reading::Found(variant) => found_variants(readings).push(variant),
            _ => found_variants(readings),
        },
{
    let longer = readings.push(next);
    assert(longer.drop_last() =~= readings);
    assert(longer.last() == next);
    if any_broken(readings) {
        let i: int = choose|i: int| 0 <= i < readings.len() && readings[i] is Broken;
        assert(longer[i] is Broken);
    }
    if next is Broken {
        assert(longer[readings.len() as int] is Broken);
    }
    if any_broken(longer) {
        let i: int = choose|i: int| 0 <= i < longer.len() && longer[i] is Broken;
        if i < readings.len() {
            assert(readings[i] is Broken);
        }
    }
    match next {
        Reading::Found(variant) => {
            assert(found_variants(readings) + seq![variant] =~= found_variants(readings).push(
                variant,
            ));
        },
        _ => {},
    }
}

/// Readings one after the other: they are broken if either part is, and the
/// variants found are those of the first part, then those of the second.
proof fn lemma_readings_add(left: Seq<Reading>, right: Seq<Reading>)
    ensures
        any_broken(left + right) == (any_broken(left) || any_broken(right)),
        found_variants(left + right) == found_variants(left) + found_variants(right),
    decreases right.len(),
{
    if right.len() == 0 {
        assert(left + right =~= left);
        assert(found_variants(left) + found_variants(right) =~= found_variants(left));
    } else {
        let shorter = right.drop_last();
        lemma_readings_add(left, shorter);
        lemma_readings_push(left + shorter, right.last());
        lemma_readings_push(shorter, right.last());
        assert((left + shorter).push(right.last()) =~= left + right);
        assert(shorter.push(right.last()) =~= right);
        match right.last() {
            Reading::Found(variant) => {
                assert((found_variants(left) + found_variants(shorter)).push(variant)
                    =~= found_variants(left) + found_variants(shorter).push(variant));
            },
            _ => {},
        }
    }
}

/// Whether a constraint admits a text.
pub fn admits_text(constraint: Option<&str>, found: &str) -> (r: bool)
    ensures
        r == admits(optional_text(constraint), found@),
{
    match constraint {
        Some(wanted) => same_text(wanted, found),
        None => true,
    }
}

impl DownloadApkMirror {
    /// Decides what a cell with a download anchor gives under some
    /// constraints, from the texts that the page shows: the badge of the cell
    /// as it stands, the label of the anchor without the whitespace around
    /// it, the link of the anchor as it stands, or empty where it has none,
    /// and the texts of the row's columns without the whitespace around
    /// them. A constraint that is absent admits any text.
    pub fn from_cell(
        badge: &str,
        label: &str,
        link: &str,
        columns: &Vec<String>,
        type_: Option<&str>,
        arch_: Option<&str>,
        dpi: Option<&str>,
    ) -> (r: Result<Option<DownloadApkMirror>, DownApkError>)
        ensures
            decide(Criteria::of(type_, arch_, dpi), badge@, label@, link@, columns.deep_view())
                .told_by(r),
    {
        assert(columns.deep_view().len() == columns.len());
        if badge.is_empty() || label.is_empty() || link.is_empty() {
            return Ok(None);
        }
        if !admits_text(type_, badge) {
            return Ok(None);
        }
        if columns.len() <= 1 {
            return Err(DownApkError::StructuralMismatch(Landmark::VariantColumns));
        }
        assert(columns.deep_view()[1] == columns[1]@);
        if !admits_text(arch_, columns[1].as_str()) {
            return Ok(None);
        }
        if columns.len() <= 3 {
            return Err(DownApkError::StructuralMismatch(Landmark::VariantColumns));
        }
        assert(columns.deep_view()[2] == columns[2]@);
        assert(columns.deep_view()[3] == columns[3]@);
        if !admits_text(dpi, columns[3].as_str()) {
            return Ok(None);
        }
        Ok(
            Some(
                DownloadApkMirror {
                    version: label.to_owned(),
                    download_link: absolute_url(link),
                    type_: badge.to_owned(),
                    arch: columns[1].clone(),
                    min_version: columns[2].clone(),
                    screen_dpi: columns[3].clone(),
                },
            ),
        )
    }
}

impl ApkMirror {
    /// The texts of the columns of a variant row, in document order, each
    /// without the whitespace around it.
    fn column_texts(&self, row: &ElementRef) -> (texts: Vec<String>)
        ensures
            texts.deep_view() == column_texts(*row),
    {
        let children = children_of(row);
        let mut texts: Vec<String> = Vec::new();
        let ghost mut columns: Seq<ElementRef<'static>> = Seq::empty();
        let mut i: usize = 0;
        proof {
            assert(children@.take(0).filter(is_column()) =~= Seq::empty()) by {
                reveal(Seq::filter);
            }
            assert(texts.deep_view() =~= columns.map_values(text_trimmer()));
        }
        while i < children.len()
            invariant
                i <= children.len(),
                children@ == element_children(*row),
                columns == children@.take(i as int).filter(is_column()),
                texts.deep_view() == columns.map_values(text_trimmer()),
            decreases children.len() - i,
        {
            proof {
                assert(children@.take(i + 1) =~= children@.take(i as int).push(
                    children@[i as int],
                ));
                children@.take(i as int).lemma_filter_push(children@[i as int], is_column());
            }
            if accepts(self.selector_of(ROW_COLUMN), &children[i]) {
                let ghost before = texts.deep_view();
                let text = text_of(&children[i]);
                let text = trim(text.as_str()).to_owned();
                texts.push(text);
                proof {
                    assert(texts.deep_view() =~= before.push(text@));
                    assert(columns.push(children@[i as int]).map_values(text_trimmer())
                        =~= before.push(text@));
                    columns = columns.push(children@[i as int]);
                }
            }
            i = i + 1;
        }
        assert(children@.take(children.len() as int) =~= children@);
        texts
    }

    /// Reads one cell of a variant row, whose column texts are given.
    fn read_cell(
        &self,
        row: &ElementRef,
        columns: &Vec<String>,
        cell: &ElementRef,
        type_: Option<&str>,
        arch_: Option<&str>,
        dpi: Option<&str>,
    ) -> (r: Result<Option<DownloadApkMirror>, DownApkError>)
        requires
            columns.deep_view() == column_texts(*row),
        ensures
            read_cell(Criteria::of(type_, arch_, dpi), *row, *cell).told_by(r),
    {
        let anchor = match self.first_in(cell, VARIANT_LINK) {
            Some(anchor) => anchor,
            None => {
                return Ok(None);
            },
        };
        let badge = match self.first_in(cell, TYPE_BADGE) {
            Some(badge) => text_of(&badge),
            None => String::new(),
        };
        let label = text_of(&anchor);
        let link = match attr_of(&anchor, "href") {
            Some(href) => href,
            None => "",
        };
        proof {
            reveal_strlit("");
            assert(""@ =~= Seq::<char>::empty());
        }
        DownloadApkMirror::from_cell(
            badge.as_str(),
            trim(label.as_str()),
            link,
            columns,
            type_,
            arch_,
            dpi,
        )
    }

    /// Reads the cells of one variant row.
    fn read_row(
        &self,
        row: &ElementRef,
        type_: Option<&str>,
        arch_: Option<&str>,
        dpi: Option<&str>,
    ) -> (r: Result<Vec<DownloadApkMirror>, DownApkError>)
        ensures
            r is Err == any_broken(row_readings(Criteria::of(type_, arch_, dpi), *row)),
            r matches Ok(variants) ==> variants.deep_view() == found_variants(
                row_readings(Criteria::of(type_, arch_, dpi), *row),
            ),
            r matches Err(e) ==> e@ == ErrorView::StructuralMismatch(Landmark::VariantColumns),
    {
        let ghost criteria = Criteria::of(type_, arch_, dpi);
        let ghost reader = cell_reader(criteria, *row);
        let cells = select_in(row, self.selector_of(TABLE_CELL));
        let columns = self.column_texts(row);
        let mut variants: Vec<DownloadApkMirror> = Vec::new();
        let mut i: usize = 0;
        proof {
            assert(cells@.take(0).map_values(reader) =~= Seq::<Reading>::empty());
            assert(found_variants(Seq::<Reading>::empty()) =~= Seq::empty());
        }
        while i < cells.len()
            invariant
                i <= cells.len(),
                criteria == Criteria::of(type_, arch_, dpi),
                reader == cell_reader(criteria, *row),
                cells@ == element_matches(*row, query(TABLE_CELL)),
                columns.deep_view() == column_texts(*row),
                !any_broken(cells@.take(i as int).map_values(reader)),
                variants.deep_view() == found_variants(cells@.take(i as int).map_values(reader)),
            decreases cells.len() - i,
        {
            let ghost before = cells@.take(i as int).map_values(reader);
            let ghost next = read_cell(criteria, *row, cells@[i as int]);
            let ghost found_before = variants.deep_view();
            proof {
                assert(cells@.take(i + 1).map_values(reader) =~= before.push(next));
                lemma_readings_push(before, next);
            }
            match self.read_cell(row, &columns, &cells[i], type_, arch_, dpi) {
                Ok(Some(variant)) => {
                    variants.push(variant);
                    assert(variants.deep_view() =~= found_before.push(variant@));
                },
                Ok(None) => {},
                Err(e) => {
                    proof {
                        let all = cells@.map_values(reader);
                        assert(all[i as int] is Broken);
                    }
                    return Err(e);
                },
            }
            i = i + 1;
        }
        assert(cells@.take(cells.len() as int) =~= cells@);
        Ok(variants)
    }

    /// The variants of a release page that meet the constraints, in the order
    /// of the page, each with the link to its own page. A constraint that is
    /// absent admits any value. Where a row that had to be read lacks its
    /// architecture or density column, the page is refused as a whole.
    pub fn variant_rows(
        &self,
        page: &str,
        type_: Option<&str>,
        arch_: Option<&str>,
        dpi: Option<&str>,
    ) -> (r: Result<Vec<DownloadApkMirror>, DownApkError>)
        ensures
            match variant_rows(page@, Criteria::of(type_, arch_, dpi)) {
                Ok(variants) => r matches Ok(found) && found.deep_view() == variants,
                Err(landmark) => r matches Err(e) && e@ == ErrorView::StructuralMismatch(landmark),
            },
            r matches Ok(found) ==> forall|i: int|
                0 <= i < found.len() ==> Criteria::of(type_, arch_, dpi).met_by(
                    #[trigger] found.deep_view()[i],
                ),
    {
        let ghost criteria = Criteria::of(type_, arch_, dpi);
        let ghost reader = row_reader(criteria);
        let doc = parse_page(page);
        let rows = select_in_page(&doc, self.selector_of(TABLE_ROW));
        let mut variants: Vec<DownloadApkMirror> = Vec::new();
        let mut i: usize = 0;
        proof {
            assert(rows@.take(0).map_values(reader) =~= Seq::<Seq<Reading>>::empty());
            assert(found_variants(Seq::<Reading>::empty()) =~= Seq::empty());
        }
        while i < rows.len()
            invariant
                i <= rows.len(),
                criteria == Criteria::of(type_, arch_, dpi),
                reader == row_reader(criteria),
                doc == parsed(page@),
                rows@ == page_matches(doc, query(TABLE_ROW)),
                !any_broken(rows@.take(i as int).map_values(reader).flatten()),
                variants.deep_view() == found_variants(
                    rows@.take(i as int).map_values(reader).flatten(),
                ),
            decreases rows.len() - i,
        {
            let ghost before = rows@.take(i as int).map_values(reader);
            let ghost next = row_readings(criteria, rows@[i as int]);
            let ghost found_before = variants.deep_view();
            proof {
                assert(rows@.take(i + 1).map_values(reader) =~= before.push(next));
                before.lemma_flatten_push(next);
                lemma_readings_add(before.flatten(), next);
            }
            match self.read_row(&rows[i], type_, arch_, dpi) {
                Ok(mut found) => {
                    let ghost found_next = found.deep_view();
                    variants.append(&mut found);
                    assert(variants.deep_view() =~= found_before + found_next);
                },
                Err(e) => {
                    proof {
                        let rest = rows@.skip(i + 1).map_values(reader);
                        assert(rows@.map_values(reader) =~= before.push(next) + rest);
                        vstd::seq_lib::lemma_flatten_concat(before.push(next), rest);
                        lemma_readings_add(before.push(next).flatten(), rest.flatten());
                    }
                    return Err(e);
                },
            }
            i = i + 1;
        }
        assert(rows@.take(rows.len() as int) =~= rows@);
        proof {
            lemma_rows_meet_criteria(page@, criteria);
            assert(variant_rows(page@, criteria) == Ok::<Seq<DownloadApkMirrorView>, Landmark>(
                variants.deep_view(),
            ));
            assert forall|i: int| 0 <= i < variants.len() implies criteria.met_by(
                #[trigger] variants.deep_view()[i],
            ) by {
                assert(variant_rows(page@, criteria).unwrap()[i] == variants.deep_view()[i]);
            }
        }
        Ok(variants)
    }
}

/// Each variant that a release page gives was found in a cell of a row of the
/// page: the row and the cell are the result.
pub proof fn lemma_variant_was_read(page: Seq<char>, criteria: Criteria, i: int) -> (place: (
    ElementRef<'static>,
    ElementRef<'static>,
))
    requires
        variant_rows(page, criteria) is Ok,
        0 <= i < variant_rows(page, criteria).unwrap().len(),
    ensures
        read_cell(criteria, place.0, place.1) == Reading::Found(
            variant_rows(page, criteria).unwrap()[i],
        ),
{
    let variant = variant_rows(page, criteria).unwrap()[i];
    let rows = page_matches(parsed(page), query(TABLE_ROW));
    let per_row = rows.map_values(row_reader(criteria));
    let readings = per_row.flatten();
    assert(readings.filter_map(found_variant()).contains(variant));
    readings.lemma_filter_map_contains(found_variant(), variant);
    let reading = choose|t: Reading| #[trigger]
        readings.contains(t) && found_variant()(t) == Some(variant);
    assert(reading == Reading::Found(variant));
    lemma_flatten_member(per_row, reading);
    let k: int = choose|k: int| 0 <= k < per_row.len() && (#[trigger] per_row[k]).contains(reading);
    let cells = element_matches(rows[k], query(TABLE_CELL));
    let j: int = choose|j: int| 0 <= j < per_row[k].len() && per_row[k][j] == reading;
    assert(reading == read_cell(criteria, rows[k], cells[j]));
    (rows[k], cells[j])
}

/// Every variant that a release page gives under some criteria meets them:
/// its type, architecture and density are those that were asked for, where
/// any was.
pub proof fn lemma_rows_meet_criteria(page: Seq<char>, criteria: Criteria)
    ensures
        variant_rows(page, criteria) matches Ok(variants) ==> forall|i: int|
            0 <= i < variants.len() ==> criteria.met_by(#[trigger] variants[i]),
{
    if let Ok(variants) = variant_rows(page, criteria) {
        assert forall|i: int| 0 <= i < variants.len() implies criteria.met_by(
            #[trigger] variants[i],
        ) by {
            let place = lemma_variant_was_read(page, criteria, i);
        }
    }
}

/// Every variant that a release page gives has a version label, a package
/// type and a link, none of them empty, and its link is in absolute form.
pub proof fn lemma_rows_are_labelled(page: Seq<char>, criteria: Criteria)
    ensures
        variant_rows(page, criteria) matches Ok(variants) ==> forall|i: int|
            0 <= i < variants.len() ==> {
                &&& (#[trigger] variants[i]).version.len() > 0
                &&& variants[i].type_.len() > 0
                &&& variants[i].download_link.len() > 0
                &&& "http"@.is_prefix_of(variants[i].download_link)
            },
{
    if let Ok(variants) = variant_rows(page, criteria) {
        assert forall|i: int| 0 <= i < variants.len() implies {
            &&& (#[trigger] variants[i]).version.len() > 0
            &&& variants[i].type_.len() > 0
            &&& variants[i].download_link.len() > 0
            &&& "http"@.is_prefix_of(variants[i].download_link)
        } by {
            let place = lemma_variant_was_read(page, criteria, i);
            let anchor = first(element_matches(place.1, query(VARIANT_LINK))).unwrap();
            lemma_absolute_begins_with_http(anchor_link(anchor));
            reveal_strlit("http");
        }
    }
}

/// A member of sequences laid end to end is a member of one of them.
proof fn lemma_flatten_member<A>(parts: Seq<Seq<A>>, member: A)
    requires
        parts.flatten().contains(member),
    ensures
        exists|k: int| 0 <= k < parts.len() && (#[trigger] parts[k]).contains(member),
    decreases parts.len(),
{
    if parts.len() == 0 {
    } else {
        let front = parts.drop_last();
        assert(front.push(parts.last()) =~= parts);
        front.lemma_flatten_push(parts.last());
        let joined = front.flatten() + parts.last();
        let i: int = choose|i: int| 0 <= i < joined.len() && joined[i] == member;
        if i < front.flatten().len() {
            assert(front.flatten()[i] == member);
            lemma_flatten_member(front, member);
            let k: int = choose|k: int| 0 <= k < front.len() && (#[trigger] front[k]).contains(member);
            assert(parts[k].contains(member));
        } else {
            assert(parts.last()[i - front.flatten().len()] == member);
            assert(parts[parts.len() - 1].contains(member));
        }
    }
}

} // verus!
