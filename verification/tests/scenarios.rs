use downapk::apkmirror::{
    multiple_file_download, single_file_download, ApkMirror, DownloadApkMirror, Resolution,
};
use downapk::errors::{DownApkError, Landmark};

const CELL: &str = "table-cell rowheight addseparator expand pad dowrap";

fn site(url: &str) -> String {
    let listing = "https://www.apkmirror.com/?post_type=app_release&searchtype=apk&s=com.example.app";
    if url == "https://www.apkmirror.com/" {
        return String::from(
            "<html><body><form><button class=\"searchButton\">Search</button></form></body></html>",
        );
    }
    if url == listing {
        return String::from(
            "<html><body><div class=\"listWidget\"><div class=\"widgetHeader\">Results</div>\
             <div><div class=\"appRow\"><a class=\"fontBlack\" href=\"/apk/example/app-2-1-0/\">Example 2.1.0</a></div>\
             <div class=\"infoSlide t-height\"><p><span class=\"infoSlide-name\">Version:</span>\
             <span class=\"infoSlide-value\">2.1.0</span></p></div></div>\
             <div><div class=\"appRow\"><a class=\"fontBlack\" href=\"/apk/example/app-2-0-0/\">Example 2.0.0</a></div>\
             <div class=\"infoSlide t-height\"><p><span class=\"infoSlide-name\">Version:</span>\
             <span class=\"infoSlide-value\">2.0.0</span></p>\
             <p><span class=\"infoSlide-name\">File Size:</span>\
             <span class=\"infoSlide-value\">10 MB</span></p></div></div>\
             <div><div class=\"appRow\">an advertisement</div></div>\
             </div></body></html>",
        );
    }
    if url == "https://www.apkmirror.com/apk/example/app-2-0-0/" {
        let row = |href: &str, badge: &str, arch: &str, dpi: &str| {
            format!(
                "<div class=\"table-row headerFont\"><div class=\"{c}\">\
                 <a class=\"accent_color\" href=\"{h}\">2.0.0</a><span class=\"apkm-badge\">{b}</span></div>\
                 <div class=\"{c}\">{a}</div><div class=\"{c}\">Android 6.0+</div><div class=\"{c}\">{d}</div></div>",
                c = CELL,
                h = href,
                b = badge,
                a = arch,
                d = dpi
            )
        };
        return format!(
            "<html><body><div class=\"table\">{}{}{}{}</div></body></html>",
            row("/apk/example/app-2-0-0/arm64-nodpi/", "APK", "arm64-v8a", "nodpi"),
            row("/apk/example/app-2-0-0/arm64-480/", "APK", "arm64-v8a", "480dpi"),
            row("/apk/example/app-2-0-0/x86-nodpi/", "APK", "x86", "nodpi"),
            row("/apk/example/app-2-0-0/bundle/", "BUNDLE", "arm64-v8a", "nodpi"),
        );
    }
    if url == "https://www.apkmirror.com/apk/example/app-2-1-0/" {
        return format!(
            "<html><body><div class=\"table-row headerFont\"><div class=\"{c}\">\
             <a class=\"accent_color\" href=\"/apk/example/app-2-1-0/arm64/\">2.1.0</a>\
             <span class=\"apkm-badge\">APK</span></div>\
             <div class=\"{c}\">arm64-v8a</div><div class=\"{c}\">Android 6.0+</div>\
             <div class=\"{c}\">nodpi</div></div></body></html>",
            c = CELL
        );
    }
    if url == "https://www.apkmirror.com/apk/example/app-2-1-0/arm64/" {
        return String::from(
            "<html><body><a class=\"accent_bg btn btn-flat downloadButton\" \
             href=\"/apk/example/app-2-1-0/arm64/download/\">Download</a></body></html>",
        );
    }
    if url == "https://www.apkmirror.com/apk/example/app-2-1-0/arm64/download/" {
        return String::from(
            "<html><body><a rel=\"nofollow\" href=\"/ad\">ad</a>\
             <a data-google-vignette=\"false\" href=\"/ad\">ad</a></body></html>",
        );
    }
    if url.starts_with("https://www.apkmirror.com/apk/example/app-2-0-0/") && url.ends_with("/download/") {
        return String::from(
            "<html><body><a rel=\"nofollow\" href=\"/ad\">ad</a>\
             <a rel=\"nofollow\" data-google-vignette=\"false\" \
             href=\"/wp-content/download.php?id=200\">here</a></body></html>",
        );
    }
    if url.starts_with("https://www.apkmirror.com/apk/example/app-2-0-0/") {
        return format!(
            "<html><body><a class=\"accent_bg btn btn-flat downloadButton\" href=\"{}download/\">Download</a></body></html>",
            &url["https://www.apkmirror.com".len()..]
        );
    }
    panic!("a page that is not on the site: {}", url)
}

fn extract_variants(
    mirror: &ApkMirror,
    url: &str,
    t: Option<&str>,
    a: Option<&str>,
    d: Option<&str>,
    fetched: &mut usize,
) -> Result<Vec<DownloadApkMirror>, DownApkError> {
    *fetched += 1;
    let mut state = mirror.download_by_specifics(&site(url), t, a, d);
    loop {
        match state {
            Resolution::Awaiting(walk) => {
                *fetched += 1;
                let page = site(walk.url());
                state = mirror.download_link(walk, &page);
            }
            Resolution::Finished(variants) => return Ok(variants),
            Resolution::Failed(error) => return Err(error),
        }
    }
}

#[test]
fn from_a_query_to_resolved_variants() {
    let mirror = ApkMirror::new(&site("https://www.apkmirror.com/")).unwrap();
    let listing = site(&mirror.search_url("com.example.app"));
    let summaries = mirror.search_by_version(&listing, "2.0.0");
    assert_eq!(summaries.len(), 1);
    assert_eq!(summaries[0].version, "2.0.0");
    assert_eq!(summaries[0].title, "Example 2.0.0");
    assert_eq!(summaries[0].file_size, "10 MB");
    let mut fetched = 0;
    let variants = extract_variants(
        &mirror,
        &summaries[0].link,
        Some("APK"),
        Some("arm64-v8a"),
        Some("nodpi"),
        &mut fetched,
    )
    .unwrap();
    assert_eq!(variants.len(), 1);
    assert_eq!(fetched, 3);
    for v in &variants {
        assert_eq!(v.type_, "APK");
        assert_eq!(v.arch, "arm64-v8a");
        assert_eq!(v.screen_dpi, "nodpi");
        assert!(v.download_link.starts_with("https://"));
    }
    assert_eq!(
        variants[0].download_link,
        "https://www.apkmirror.com/wp-content/download.php?id=200"
    );
    let plans = multiple_file_download(&variants, "com.example.app", "downloads").unwrap();
    assert_eq!(plans.len(), 1);
    assert_eq!(plans[0].path, "downloads/com.example.app_2.0.0_arm64-v8a_nodpi.apk");
    assert_eq!(plans[0].url, variants[0].download_link);
}

#[test]
fn the_resolver_is_asked_once_for_each_variant_that_meets_the_criteria() {
    let mirror = ApkMirror::new(&site("https://www.apkmirror.com/")).unwrap();
    let url = "https://www.apkmirror.com/apk/example/app-2-0-0/";
    let mut fetched = 0;
    let all = extract_variants(&mirror, url, None, None, None, &mut fetched).unwrap();
    assert_eq!(all.len(), 4);
    assert_eq!(fetched, 1 + 2 * 4);
    let mut fetched = 0;
    let some = extract_variants(&mirror, url, Some("APK"), Some("arm64-v8a"), None, &mut fetched).unwrap();
    assert_eq!(some.len(), 2);
    assert_eq!(fetched, 1 + 2 * 2);
    assert_eq!(some[0].screen_dpi, "nodpi");
    assert_eq!(some[1].screen_dpi, "480dpi");
    let mut fetched = 0;
    let none = extract_variants(&mirror, url, Some("APK"), Some("mips"), None, &mut fetched).unwrap();
    assert!(none.is_empty());
    assert_eq!(fetched, 1);
}

#[test]
fn a_release_whose_interstitial_pages_lack_the_marker_gives_no_file() {
    let mirror = ApkMirror::new(&site("https://www.apkmirror.com/")).unwrap();
    let listing = site(&mirror.search_url("com.example.app"));
    let summaries = mirror.search_by_version(&listing, "2.1.0");
    assert_eq!(summaries.len(), 1);
    let mut fetched = 0;
    let result = extract_variants(&mirror, &summaries[0].link, None, None, None, &mut fetched);
    let mut written: Vec<String> = Vec::new();
    match result {
        Ok(variants) => {
            for v in &variants {
                written.push(single_file_download(v, "com.example.app", "downloads").unwrap().path);
            }
        }
        Err(DownApkError::StructuralMismatch(landmark)) => assert_eq!(landmark, Landmark::FinalLink),
        Err(_) => panic!("the failure must name the missing landmark"),
    }
    assert!(written.is_empty());
    assert_eq!(fetched, 3);
}
