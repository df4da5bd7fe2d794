use downapk::apkmirror::{ApkMirror, DownloadApkMirror};
use downapk::errors::{DownApkError, Landmark};

const LANDING: &str = "<html><body><button class=\"searchButton\">Go</button></body></html>";
const CELL: &str = "table-cell rowheight addseparator expand pad dowrap";

fn variants_mirror() -> ApkMirror {
    ApkMirror::new(LANDING).unwrap()
}

fn first_cell(version: &str, badge: &str, href: &str) -> String {
    format!(
        "<div class=\"{}\"><a class=\"accent_color\" href=\"{}\">{}</a>\
         <span class=\"apkm-badge\">{}</span><br><span class=\"colorLightBlack\">build 1</span></div>",
        CELL, href, version, badge
    )
}

fn text_cell(text: &str) -> String {
    format!("<div class=\"{}\">{}</div>", CELL, text)
}

fn row_of(cells: &[String]) -> String {
    let mut s = String::from("<div class=\"table-row headerFont\">");
    for c in cells {
        s.push_str(c);
    }
    s.push_str("</div>");
    s
}

fn variant_row(version: &str, badge: &str, href: &str, arch: &str, min: &str, dpi: &str) -> String {
    row_of(&[
        first_cell(version, badge, href),
        text_cell(arch),
        text_cell(min),
        text_cell(dpi),
        String::from(
            "<div class=\"table-cell rowheight expand pad dowrap center\">\
             <a class=\"downloadLinkButton\" href=\"/x/\">get</a></div>",
        ),
    ])
}

fn release_page(rows: &[String]) -> String {
    let mut s = String::from(
        "<html><body><div class=\"table topmargin variants-table\">\
         <div class=\"table-row\"><div class=\"table-cell\">Variant</div>\
         <div class=\"table-cell\">Architecture</div></div>",
    );
    for r in rows {
        s.push_str(r);
    }
    s.push_str("</div></body></html>");
    s
}

fn lite_page() -> String {
    release_page(&[
        variant_row("390.0.0.9.116", "APK", "/apk/lite/390-arm64/", "arm64-v8a", "Android 5.0+", "nodpi"),
        variant_row("390.0.0.9.116", "APK", "/apk/lite/390-arm/", "armeabi-v7a", "Android 5.0+", "nodpi"),
        variant_row("390.0.0.9.116", "BUNDLE", "/apk/lite/390-bundle/", "arm64-v8a", "Android 7.0+", "120-640dpi"),
        variant_row("390.0.0.9.116", "APK", "https://www.apkmirror.com/apk/lite/390-x86/", "x86", "Android 5.0+", "nodpi"),
    ])
}

fn rows(page: &str, t: Option<&str>, a: Option<&str>, d: Option<&str>) -> Vec<DownloadApkMirror> {
    variants_mirror().variant_rows(page, t, a, d).unwrap()
}

#[test]
fn every_row_is_a_variant_when_nothing_is_asked_for() {
    let found = rows(&lite_page(), None, None, None);
    assert_eq!(found.len(), 4);
    assert_eq!(found[0].arch, "arm64-v8a");
    assert_eq!(found[1].arch, "armeabi-v7a");
    assert_eq!(found[2].type_, "BUNDLE");
    assert_eq!(found[3].arch, "x86");
}

#[test]
fn the_fields_of_a_variant_come_from_anchor_badge_and_columns() {
    let found = rows(&lite_page(), None, None, None);
    let bundle = &found[2];
    assert_eq!(bundle.version, "390.0.0.9.116");
    assert_eq!(bundle.type_, "BUNDLE");
    assert_eq!(bundle.arch, "arm64-v8a");
    assert_eq!(bundle.min_version, "Android 7.0+");
    assert_eq!(bundle.screen_dpi, "120-640dpi");
    assert_eq!(bundle.download_link, "https://www.apkmirror.com/apk/lite/390-bundle/");
    assert_eq!(found[3].download_link, "https://www.apkmirror.com/apk/lite/390-x86/");
}

#[test]
fn constraints_select_variants_by_exact_text() {
    let page = lite_page();
    assert_eq!(rows(&page, Some("APK"), None, None).len(), 3);
    assert_eq!(rows(&page, Some("BUNDLE"), None, None).len(), 1);
    assert_eq!(rows(&page, None, Some("arm64-v8a"), None).len(), 2);
    assert_eq!(rows(&page, None, None, Some("nodpi")).len(), 3);
    assert_eq!(rows(&page, Some("APK"), Some("arm64-v8a"), Some("nodpi")).len(), 1);
    assert_eq!(rows(&page, Some("BUNDLE"), Some("arm64-v8a"), Some("nodpi")).len(), 0);
    assert_eq!(rows(&page, Some("apk"), None, None).len(), 0);
    assert_eq!(rows(&page, None, Some("arm64"), None).len(), 0);
    assert_eq!(rows(&page, None, None, Some("nodpi ")).len(), 0);
}

#[test]
fn every_variant_given_meets_the_constraints() {
    let found = rows(&lite_page(), Some("APK"), None, Some("nodpi"));
    assert_eq!(found.len(), 3);
    for v in &found {
        assert_eq!(v.type_, "APK");
        assert_eq!(v.screen_dpi, "nodpi");
    }
    let found = rows(&lite_page(), None, Some("armeabi-v7a"), None);
    assert_eq!(found.len(), 1);
    assert_eq!(found[0].arch, "armeabi-v7a");
    assert_eq!(found[0].download_link, "https://www.apkmirror.com/apk/lite/390-arm/");
}

#[test]
fn column_texts_and_version_are_trimmed_but_the_badge_is_not() {
    let page = release_page(&[
        variant_row("\n 1.2.3 \n", "APK", "/v/1/", "\n  arm64-v8a\t", " Android 8.0+ ", "\u{a0}nodpi "),
        variant_row("1.2.3", " APK", "/v/2/", "x86", "Android 8.0+", "nodpi"),
    ]);
    let found = rows(&page, Some("APK"), None, None);
    assert_eq!(found.len(), 1);
    assert_eq!(found[0].version, "1.2.3");
    assert_eq!(found[0].arch, "arm64-v8a");
    assert_eq!(found[0].min_version, "Android 8.0+");
    assert_eq!(found[0].screen_dpi, "nodpi");
    let all = rows(&page, None, None, None);
    assert_eq!(all.len(), 2);
    assert_eq!(all[1].type_, " APK");
}

#[test]
fn a_cell_without_download_anchor_is_no_variant() {
    let page = release_page(&[row_of(&[
        format!("<div class=\"{}\"><span class=\"apkm-badge\">APK</span>no anchor</div>", CELL),
        text_cell("arm64-v8a"),
        text_cell("Android 5.0+"),
        text_cell("nodpi"),
    ])]);
    assert!(rows(&page, None, None, None).is_empty());
}

#[test]
fn a_cell_with_empty_badge_version_or_link_is_no_variant() {
    let no_badge = row_of(&[
        format!("<div class=\"{}\"><a class=\"accent_color\" href=\"/v/\">1.0</a></div>", CELL),
        text_cell("a"),
        text_cell("b"),
        text_cell("c"),
    ]);
    let page = release_page(&[
        no_badge,
        variant_row("1.0", "", "/v/1/", "a", "b", "c"),
        variant_row("  ", "APK", "/v/2/", "a", "b", "c"),
        variant_row("1.0", "APK", "", "a", "b", "c"),
        row_of(&[
            format!(
                "<div class=\"{}\"><a class=\"accent_color\">1.0</a>\
                 <span class=\"apkm-badge\">APK</span></div>",
                CELL
            ),
            text_cell("a"),
            text_cell("b"),
            text_cell("c"),
        ]),
        variant_row("1.0", "APK", "/v/kept/", "a", "b", "c"),
    ]);
    let found = rows(&page, None, None, None);
    assert_eq!(found.len(), 1);
    assert_eq!(found[0].download_link, "https://www.apkmirror.com/v/kept/");
}

#[test]
fn empty_column_texts_are_kept_as_they_are() {
    let page = release_page(&[variant_row("1.0", "APK", "/v/", "", " ", "")]);
    let found = rows(&page, None, None, None);
    assert_eq!(found.len(), 1);
    assert_eq!(found[0].arch, "");
    assert_eq!(found[0].min_version, "");
    assert_eq!(found[0].screen_dpi, "");
    assert_eq!(rows(&page, None, Some(""), Some("")).len(), 1);
}

#[test]
fn a_row_that_lacks_its_columns_is_a_structural_mismatch() {
    let only_first = release_page(&[row_of(&[first_cell("1.0", "APK", "/v/")])]);
    match variants_mirror().variant_rows(&only_first, None, None, None) {
        Err(DownApkError::StructuralMismatch(l)) => assert_eq!(l, Landmark::VariantColumns),
        _ => panic!("a row with one column must be refused"),
    }
    let three = release_page(&[row_of(&[
        first_cell("1.0", "APK", "/v/"),
        text_cell("arm64-v8a"),
        text_cell("Android 5.0+"),
    ])]);
    assert!(matches!(
        variants_mirror().variant_rows(&three, None, Some("arm64-v8a"), None),
        Err(DownApkError::StructuralMismatch(Landmark::VariantColumns))
    ));
}

#[test]
fn a_broken_row_fails_the_page_even_after_good_rows() {
    let page = release_page(&[
        variant_row("1.0", "APK", "/v/1/", "arm64-v8a", "Android 5.0+", "nodpi"),
        row_of(&[first_cell("1.0", "APK", "/v/2/"), text_cell("x86")]),
        variant_row("1.0", "APK", "/v/3/", "x86", "Android 5.0+", "nodpi"),
    ]);
    assert!(matches!(
        variants_mirror().variant_rows(&page, None, None, None),
        Err(DownApkError::StructuralMismatch(Landmark::VariantColumns))
    ));
}

#[test]
fn a_column_is_read_only_when_the_constraints_before_it_are_met() {
    let short = release_page(&[
        row_of(&[first_cell("1.0", "BUNDLE", "/v/1/")]),
        row_of(&[first_cell("1.0", "APK", "/v/2/"), text_cell("x86"), text_cell("Android 5.0+")]),
        variant_row("1.0", "APK", "/v/3/", "arm64-v8a", "Android 5.0+", "nodpi"),
    ]);
    let found = rows(&short, Some("APK"), Some("arm64-v8a"), None);
    assert_eq!(found.len(), 1);
    assert_eq!(found[0].download_link, "https://www.apkmirror.com/v/3/");
    assert!(variants_mirror().variant_rows(&short, Some("APK"), None, None).is_err());
    assert!(variants_mirror().variant_rows(&short, None, Some("arm64-v8a"), None).is_err());
}

#[test]
fn columns_are_the_div_children_of_the_row() {
    let page = release_page(&[row_of(&[
        format!(
            "<div class=\"{}\"><a class=\"accent_color\" href=\"/v/\">1.0</a>\
             <span class=\"apkm-badge\">APK</span><div class=\"note\">nested</div></div>",
            CELL
        ),
        String::from("<span>not a column</span>"),
        String::from("<div>arm64-v8a</div>"),
        String::from("<p>no column either</p>"),
        String::from("<div class=\"other\">Android 9+</div>"),
        String::from("<div>nodpi</div>"),
    ])]);
    let found = rows(&page, None, None, None);
    assert_eq!(found.len(), 1);
    assert_eq!(found[0].arch, "arm64-v8a");
    assert_eq!(found[0].min_version, "Android 9+");
    assert_eq!(found[0].screen_dpi, "nodpi");
}

#[test]
fn rows_of_another_class_are_not_read() {
    let page = release_page(&[
        String::from(
            "<div class=\"table-row\"><div class=\"table-cell rowheight addseparator expand pad dowrap\">\
             <a class=\"accent_color\" href=\"/v/\">1.0</a><span class=\"apkm-badge\">APK</span></div></div>",
        ),
        String::from(
            "<div class=\"headerFont table-row\"><div class=\"table-cell rowheight addseparator expand pad dowrap\">\
             <a class=\"accent_color\" href=\"/v/\">1.0</a><span class=\"apkm-badge\">APK</span></div></div>",
        ),
    ]);
    assert!(rows(&page, None, None, None).is_empty());
}

#[test]
fn a_page_without_variant_table_has_no_variants() {
    assert!(rows("<html><body></body></html>", None, None, None).is_empty());
    assert!(rows("", Some("APK"), Some("x86"), Some("nodpi")).is_empty());
}

#[test]
fn a_row_may_give_more_than_one_variant() {
    let page = release_page(&[row_of(&[
        first_cell("1.0", "APK", "/v/a/"),
        first_cell("1.1", "BUNDLE", "/v/b/"),
        text_cell("universal"),
        text_cell("nodpi"),
    ])]);
    let found = rows(&page, None, None, None);
    assert_eq!(found.len(), 2);
    assert_eq!(found[0].version, "1.0");
    assert_eq!(found[0].type_, "APK");
    assert_eq!(found[1].version, "1.1");
    assert_eq!(found[1].type_, "BUNDLE");
    for v in &found {
        assert_eq!(v.arch, "1.1BUNDLEbuild 1");
        assert_eq!(v.min_version, "universal");
        assert_eq!(v.screen_dpi, "nodpi");
    }
}
