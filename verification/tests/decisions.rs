use downapk::apkmirror::variants::admits_text;
use downapk::apkmirror::{absolute_url, DownloadApkMirror, ExtractedLink, Resolution};
use downapk::errors::{DownApkError, Landmark};

fn columns(texts: &[&str]) -> Vec<String> {
    texts.iter().map(|t| t.to_string()).collect()
}

fn unresolved(version: &str, link: &str) -> DownloadApkMirror {
    DownloadApkMirror {
        version: version.to_string(),
        download_link: link.to_string(),
        type_: String::from("APK"),
        arch: String::from("arm64-v8a"),
        min_version: String::from("Android 5.0+"),
        screen_dpi: String::from("nodpi"),
    }
}

#[test]
fn record_routes_the_four_known_labels() {
    let mut link = ExtractedLink::default();
    link.record("Version:", "2.0.0");
    link.record("Downloads:", "1,234");
    link.record("File Size:", "10 MB");
    link.record("Uploaded:", "January 1, 2024");
    assert_eq!(link.version, "2.0.0");
    assert_eq!(link.downloads, "1,234");
    assert_eq!(link.file_size, "10 MB");
    assert_eq!(link.uploaded, "January 1, 2024");
    assert_eq!(link.title, "");
    assert_eq!(link.link, "");
}

#[test]
fn record_ignores_unknown_labels_and_labels_without_colon() {
    let mut link = ExtractedLink::default();
    link.record("Version:", "1.0");
    link.record("Version", "2.0");
    link.record("version:", "3.0");
    link.record("Version::", "4.0");
    link.record("Version: ", "5.0");
    link.record(" Version:", "6.0");
    link.record("Min Version:", "7.0");
    link.record("Title:", "8.0");
    link.record("", "9.0");
    link.record(":", "10.0");
    assert_eq!(link.version, "1.0");
    assert_eq!(link.downloads, "");
    assert_eq!(link.file_size, "");
    assert_eq!(link.uploaded, "");
    assert_eq!(link.title, "");
}

#[test]
fn record_keeps_the_later_value_of_a_label() {
    let mut link = ExtractedLink::default();
    link.record("Uploaded:", "first");
    link.record("Uploaded:", "second");
    link.record("Uploaded:", "");
    assert_eq!(link.uploaded, "");
}

#[test]
fn is_wanted_compares_the_version_exactly() {
    let mut link = ExtractedLink::default();
    link.record("Version:", "2.0.0");
    assert!(link.is_wanted(None));
    assert!(link.is_wanted(Some("2.0.0")));
    assert!(!link.is_wanted(Some("2.0")));
    assert!(!link.is_wanted(Some("2.0.0 ")));
    assert!(!link.is_wanted(Some("")));
    assert!(ExtractedLink::default().is_wanted(Some("")));
}

#[test]
fn admits_text_is_exact_or_absent() {
    assert!(admits_text(None, "anything"));
    assert!(admits_text(None, ""));
    assert!(admits_text(Some("APK"), "APK"));
    assert!(!admits_text(Some("APK"), "apk"));
    assert!(!admits_text(Some("APK"), "APK "));
    assert!(admits_text(Some(""), ""));
}

#[test]
fn from_cell_gives_the_variant_of_a_full_row() {
    let cols = columns(&["first cell", "arm64-v8a", "Android 5.0+", "nodpi", "fifth"]);
    let v = DownloadApkMirror::from_cell("APK", "2.0.0", "/apk/v/", &cols, None, None, None)
        .unwrap()
        .unwrap();
    assert_eq!(v.version, "2.0.0");
    assert_eq!(v.download_link, "https://www.apkmirror.com/apk/v/");
    assert_eq!(v.type_, "APK");
    assert_eq!(v.arch, "arm64-v8a");
    assert_eq!(v.min_version, "Android 5.0+");
    assert_eq!(v.screen_dpi, "nodpi");
}

#[test]
fn from_cell_skips_a_cell_with_an_empty_text() {
    let cols = columns(&["c", "arm64-v8a", "Android 5.0+", "nodpi"]);
    assert!(DownloadApkMirror::from_cell("", "2.0.0", "/v/", &cols, None, None, None).unwrap().is_none());
    assert!(DownloadApkMirror::from_cell("APK", "", "/v/", &cols, None, None, None).unwrap().is_none());
    assert!(DownloadApkMirror::from_cell("APK", "2.0.0", "", &cols, None, None, None).unwrap().is_none());
    assert!(DownloadApkMirror::from_cell("", "", "", &Vec::new(), None, None, None).unwrap().is_none());
}

#[test]
fn from_cell_tries_the_constraints_in_order() {
    let cols = columns(&["c", "arm64-v8a", "Android 5.0+", "nodpi"]);
    let t = Some("APK");
    let a = Some("arm64-v8a");
    let d = Some("nodpi");
    assert!(DownloadApkMirror::from_cell("APK", "1", "/v/", &cols, t, a, d).unwrap().is_some());
    assert!(DownloadApkMirror::from_cell("BUNDLE", "1", "/v/", &cols, t, a, d).unwrap().is_none());
    assert!(DownloadApkMirror::from_cell("APK", "1", "/v/", &cols, t, Some("x86"), d).unwrap().is_none());
    assert!(DownloadApkMirror::from_cell("APK", "1", "/v/", &cols, t, a, Some("480dpi")).unwrap().is_none());
}

#[test]
fn from_cell_finds_a_row_broken_only_where_a_column_is_looked_at() {
    let one = columns(&["c"]);
    let three = columns(&["c", "x86", "Android 5.0+"]);
    assert!(matches!(
        DownloadApkMirror::from_cell("APK", "1", "/v/", &one, None, None, None),
        Err(DownApkError::StructuralMismatch(Landmark::VariantColumns))
    ));
    assert!(matches!(
        DownloadApkMirror::from_cell("APK", "1", "/v/", &Vec::new(), Some("APK"), None, None),
        Err(DownApkError::StructuralMismatch(Landmark::VariantColumns))
    ));
    assert!(matches!(
        DownloadApkMirror::from_cell("APK", "1", "/v/", &three, None, Some("x86"), Some("nodpi")),
        Err(DownApkError::StructuralMismatch(Landmark::VariantColumns))
    ));
    assert!(DownloadApkMirror::from_cell("APK", "1", "/v/", &one, Some("BUNDLE"), None, None)
        .unwrap()
        .is_none());
    assert!(DownloadApkMirror::from_cell("APK", "1", "/v/", &three, None, Some("arm64-v8a"), None)
        .unwrap()
        .is_none());
    assert!(DownloadApkMirror::from_cell("", "1", "/v/", &Vec::new(), None, None, None)
        .unwrap()
        .is_none());
}

#[test]
fn from_cell_keeps_an_absolute_link() {
    let cols = columns(&["c", "x86", "Android 5.0+", "nodpi"]);
    let v = DownloadApkMirror::from_cell("BUNDLE", "1", "https://e.org/v/", &cols, None, None, None)
        .unwrap()
        .unwrap();
    assert_eq!(v.download_link, "https://e.org/v/");
    assert_eq!(v.type_, "BUNDLE");
}

#[test]
fn absolute_url_is_a_function_of_the_link_alone() {
    assert_eq!(absolute_url("/a/b"), "https://www.apkmirror.com/a/b");
    assert_eq!(absolute_url("a/b"), "https://www.apkmirror.coma/b");
    assert_eq!(absolute_url("http://a/b"), "http://a/b");
    assert!(absolute_url("").starts_with("http"));
}

#[test]
fn a_walk_over_no_variants_is_finished() {
    match Resolution::begin(Vec::new()) {
        Resolution::Finished(variants) => assert!(variants.is_empty()),
        _ => panic!("there is nothing to resolve"),
    }
}

#[test]
fn a_walk_resolves_each_variant_with_two_links() {
    let start = Resolution::begin(vec![
        unresolved("1", "https://site/v1/"),
        unresolved("2", "https://site/v2/"),
    ]);
    let walk = match start {
        Resolution::Awaiting(walk) => walk,
        _ => panic!("the walk must wait"),
    };
    assert_eq!(walk.url(), "https://site/v1/");
    assert!(!walk.awaits_interstitial());
    let walk = match walk.advance(Some(String::from("https://site/v1/download/"))) {
        Resolution::Awaiting(walk) => walk,
        _ => panic!("the walk must wait"),
    };
    assert_eq!(walk.url(), "https://site/v1/download/");
    assert!(walk.awaits_interstitial());
    let walk = match walk.advance(Some(String::from("https://files/1.apk"))) {
        Resolution::Awaiting(walk) => walk,
        _ => panic!("the walk must wait"),
    };
    assert_eq!(walk.url(), "https://site/v2/");
    assert!(!walk.awaits_interstitial());
    let walk = match walk.advance(Some(String::from("https://site/v2/download/"))) {
        Resolution::Awaiting(walk) => walk,
        _ => panic!("the walk must wait"),
    };
    match walk.advance(Some(String::from("https://files/2.apk"))) {
        Resolution::Finished(variants) => {
            assert_eq!(variants.len(), 2);
            assert_eq!(variants[0].version, "1");
            assert_eq!(variants[0].download_link, "https://files/1.apk");
            assert_eq!(variants[1].version, "2");
            assert_eq!(variants[1].download_link, "https://files/2.apk");
            assert_eq!(variants[1].arch, "arm64-v8a");
            assert_eq!(variants[1].min_version, "Android 5.0+");
        }
        _ => panic!("the walk must be finished"),
    }
}

#[test]
fn a_variant_page_without_link_fails_the_walk() {
    let walk = match Resolution::begin(vec![unresolved("1", "https://site/v1/")]) {
        Resolution::Awaiting(walk) => walk,
        _ => panic!("the walk must wait"),
    };
    match walk.advance(None) {
        Resolution::Failed(DownApkError::StructuralMismatch(l)) => assert_eq!(l, Landmark::DownloadButton),
        _ => panic!("the walk must fail"),
    }
}

#[test]
fn an_interstitial_page_without_link_fails_the_walk_and_gives_no_variant() {
    let start = Resolution::begin(vec![
        unresolved("1", "https://site/v1/"),
        unresolved("2", "https://site/v2/"),
    ]);
    let mut state = start;
    let links = vec![
        Some(String::from("https://site/v1/download/")),
        Some(String::from("https://files/1.apk")),
        Some(String::from("https://site/v2/download/")),
        None,
    ];
    for link in links {
        state = match state {
            Resolution::Awaiting(walk) => walk.advance(link),
            _ => panic!("the walk must wait until the page without link"),
        };
    }
    match state {
        Resolution::Failed(DownApkError::StructuralMismatch(l)) => assert_eq!(l, Landmark::FinalLink),
        _ => panic!("the walk must fail"),
    }
}

#[test]
fn a_variant_is_complete_when_none_of_its_texts_is_empty() {
    let full = unresolved("1.0", "https://site/v/");
    assert!(full.is_complete());
    let mut v = unresolved("1.0", "https://site/v/");
    v.arch = String::new();
    assert!(!v.is_complete());
    let mut v = unresolved("1.0", "https://site/v/");
    v.min_version = String::new();
    assert!(!v.is_complete());
    let mut v = unresolved("1.0", "https://site/v/");
    v.screen_dpi = String::new();
    assert!(!v.is_complete());
    assert!(!unresolved("", "https://site/v/").is_complete());
    assert!(!unresolved("1.0", "").is_complete());
    let mut v = unresolved("1.0", "https://site/v/");
    v.type_ = String::new();
    assert!(!v.is_complete());
}

#[test]
fn a_clone_holds_the_same_texts() {
    let v = unresolved("1.0", "https://site/v/");
    let w = v.clone();
    assert_eq!(w.version, v.version);
    assert_eq!(w.download_link, v.download_link);
    assert_eq!(w.type_, v.type_);
    assert_eq!(w.arch, v.arch);
    assert_eq!(w.min_version, v.min_version);
    assert_eq!(w.screen_dpi, v.screen_dpi);
    let mut l = ExtractedLink::default();
    l.record("Version:", "1.0");
    l.record("Uploaded:", "today");
    let m = l.clone();
    assert_eq!(m.version, "1.0");
    assert_eq!(m.uploaded, "today");
    assert_eq!(m.title, "");
}
