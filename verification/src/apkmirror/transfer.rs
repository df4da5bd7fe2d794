//! From a resolved variant to a file on disk: where the file goes, and how far
//! its transfer has come.
//!
//! The library moves no bytes. It says what is to be fetched and where it is
//! to be written, and it keeps the count of a running transfer.

use crate::apkmirror::variants::{ApkType, DownloadApkMirror, DownloadApkMirrorView};
use crate::errors::{DownApkError, ErrorView};
use crate::text::join;
use vstd::prelude::*;

verus! {

/// The file extension of a package type: `apk` for `APK`, `apkm` for
/// `BUNDLE`, none for any other.
pub open spec fn extension(type_: Seq<char>) -> Option<Seq<char>> {
    match ApkType::of(type_) {
        Some(known) => Some(known.extension_text()),
        None => None,
    }
}

/// The name of a variant's file: package, version, architecture and density,
/// joined by underscores, then a dot and the extension of the package type.
/// A variant of another type than the two known has no file name.
pub open spec fn file_name(package: Seq<char>, variant: DownloadApkMirrorView) -> Option<
    Seq<char>,
> {
    match extension(variant.type_) {
        Some(ext) => Some(
            package + "_"@ + variant.version + "_"@ + variant.arch + "_"@ + variant.screen_dpi
                + "."@ + ext,
        ),
        None => None,
    }
}

/// One transfer to make.
#[derive(Debug)]
pub struct Transfer {
    /// The address to fetch.
    pub url: String,
    /// The name of the file to write.
    pub file_name: String,
    /// The path of the file to write: directory, a slash, the file's name.
    pub path: String,
}

/// One transfer to make, with its texts as sequences of characters.
pub struct TransferView {
    pub url: Seq<char>,
    pub file_name: Seq<char>,
    pub path: Seq<char>,
}

impl View for Transfer {
    type V = TransferView;

    open spec fn view(&self) -> TransferView {
        TransferView { url: self.url@, file_name: self.file_name@, path: self.path@ }
    }
}

impl Clone for Transfer {
    /// A transfer with the same texts.
    fn clone(&self) -> (r: Transfer)
        ensures
            r@ == self@,
    {
        Transfer {
            url: self.url.clone(),
            file_name: self.file_name.clone(),
            path: self.path.clone(),
        }
    }
}

impl DeepView for Transfer {
    type V = TransferView;

    open spec fn deep_view(&self) -> TransferView {
        self@
    }
}

/// The transfer that brings a variant's file into a directory; the error for
/// a variant of unknown type.
pub open spec fn transfer(variant: DownloadApkMirrorView, package: Seq<char>, dir: Seq<char>)
    -> Result<TransferView, ErrorView> {
    match file_name(package, variant) {
        Some(name) => Ok(
            TransferView { url: variant.download_link, file_name: name, path: dir + "/"@ + name },
        ),
        None => Err(ErrorView::UnknownType(variant.type_)),
    }
}

/// The transfers that bring the files of some variants into a directory, in
/// the order of the variants; the error of the first variant of unknown type,
/// if there is one.
pub open spec fn transfers(
    variants: Seq<DownloadApkMirrorView>,
    package: Seq<char>,
    dir: Seq<char>,
) -> Result<Seq<TransferView>, ErrorView>
    decreases variants.len(),
{
    if variants.len() == 0 {
        Ok(Seq::empty())
    } else {
        match transfers(variants.drop_last(), package, dir) {
            Err(error) => Err(error),
            Ok(front) => match transfer(variants.last(), package, dir) {
                Ok(last) => Ok(front.push(last)),
                Err(error) => Err(error),
            },
        }
    }
}

/// Whether an executable result is the one that a specification gives.
pub open spec fn is_transfer(r: Result<Transfer, DownApkError>, wanted: Result<
    TransferView,
    ErrorView,
>) -> bool {
    match wanted {
        Ok(view) => r matches Ok(t) && t@ == view,
        Err(error) => r matches Err(e) && e@ == error,
    }
}

/// The file extension of a package type.
pub fn extension_of(type_: &str) -> (r: Option<&'static str>)
    ensures
        match extension(type_@) {
            Some(ext) => r matches Some(e) && e@ == ext,
            None => r is None,
        },
{
    match ApkType::from_tag(type_) {
        Some(known) => Some(known.extension()),
        None => None,
    }
}

/// Plans the transfer of one variant's file into a directory. The package
/// type is looked at first: a variant of unknown type is refused, and no
/// file name is made for it.
pub fn single_file_download(item: &DownloadApkMirror, package_name: &str, output_dir: &str) -> (r:
    Result<Transfer, DownApkError>)
    ensures
        is_transfer(r, transfer(item@, package_name@, output_dir@)),
{
    let ext = match extension_of(item.type_.as_str()) {
        Some(ext) => ext,
        None => {
            return Err(DownApkError::UnknownType(item.type_.clone()));
        },
    };
    let mut name = join(package_name, "_");
    name.append(item.version.as_str());
    name.append("_");
    name.append(item.arch.as_str());
    name.append("_");
    name.append(item.screen_dpi.as_str());
    name.append(".");
    name.append(ext);
    let mut path = join(output_dir, "/");
    path.append(name.as_str());
    Ok(Transfer { url: item.download_link.clone(), file_name: name, path })
}

/// Plans the transfers of the files of some variants into a directory, in the
/// order of the variants. If a variant is of unknown type, the first such
/// variant is refused and no transfer is planned.
pub fn multiple_file_download(
    downlinks: &Vec<DownloadApkMirror>,
    package_name: &str,
    output_dir: &str,
) -> (r: Result<Vec<Transfer>, DownApkError>)
    ensures
        match transfers(downlinks.deep_view(), package_name@, output_dir@) {
            Ok(views) => r matches Ok(planned) && planned.deep_view() == views,
            Err(error) => r matches Err(e) && e@ == error,
        },
{
    let ghost variants = downlinks.deep_view();
    let mut planned: Vec<Transfer> = Vec::new();
    let mut i: usize = 0;
    proof {
        assert(planned.deep_view() =~= Seq::empty());
    }
    while i < downlinks.len()
        invariant
            i <= downlinks.len(),
            variants == downlinks.deep_view(),
            transfers(variants.take(i as int), package_name@, output_dir@) == Ok::<
                Seq<TransferView>,
                ErrorView,
            >(planned.deep_view()),
        decreases downlinks.len() - i,
    {
        let ghost before = planned.deep_view();
        proof {
            assert(variants.take(i + 1).drop_last() =~= variants.take(i as int));
            assert(variants.take(i + 1).last() == downlinks[i as int]@);
        }
        match single_file_download(&downlinks[i], package_name, output_dir) {
            Ok(next) => {
                planned.push(next);
                assert(planned.deep_view() =~= before.push(next@));
            },
            Err(e) => {
                proof {
                    lemma_transfers_fail_on(variants, package_name@, output_dir@, i + 1);
                }
                return Err(e);
            },
        }
        i = i + 1;
    }
    assert(variants.take(downlinks.len() as int) =~= variants);
    Ok(planned)
}

/// Where the transfers of the first `n` variants fail, those of all fail with
/// the same error.
proof fn lemma_transfers_fail_on(
    variants: Seq<DownloadApkMirrorView>,
    package: Seq<char>,
    dir: Seq<char>,
    n: int,
)
    requires
        0 <= n <= variants.len(),
        transfers(variants.take(n), package, dir) is Err,
    ensures
        transfers(variants, package, dir) == transfers(variants.take(n), package, dir),
    decreases variants.len() - n,
{
    if n == variants.len() {
        assert(variants.take(n) =~= variants);
    } else {
        assert(variants.take(n + 1).drop_last() =~= variants.take(n));
        lemma_transfers_fail_on(variants, package, dir, n + 1);
    }
}

/// The same package, version, architecture, density and type always give the
/// same file name, whatever else the two variants hold; the name ends in
/// `.apk` for type `APK` and in `.apkm` for type `BUNDLE`, and there is none
/// for any other type.
pub proof fn lemma_file_name_is_determined(
    package: Seq<char>,
    a: DownloadApkMirrorView,
    b: DownloadApkMirrorView,
)
    requires
        a.version == b.version,
        a.arch == b.arch,
        a.screen_dpi == b.screen_dpi,
        a.type_ == b.type_,
    ensures
        file_name(package, a) == file_name(package, b),
        file_name(package, a) is Some <==> a.type_ == "APK"@ || a.type_ == "BUNDLE"@,
        a.type_ == "APK"@ ==> file_name(package, a) is Some && ".apk"@.is_suffix_of(
            file_name(package, a).unwrap(),
        ),
        a.type_ == "BUNDLE"@ ==> file_name(package, a) is Some && ".apkm"@.is_suffix_of(
            file_name(package, a).unwrap(),
        ),
{
    reveal_strlit("APK");
    reveal_strlit("BUNDLE");
    reveal_strlit("apk");
    reveal_strlit("apkm");
    reveal_strlit(".apk");
    reveal_strlit(".apkm");
    reveal_strlit(".");
    let stem = package + "_"@ + a.version + "_"@ + a.arch + "_"@ + a.screen_dpi;
    if a.type_ == "APK"@ {
        let name = stem + "."@ + "apk"@;
        assert(name.subrange(name.len() - 4, name.len() as int) =~= ".apk"@);
    }
    if a.type_ == "BUNDLE"@ {
        assert("APK"@.len() != "BUNDLE"@.len());
        let name = stem + "."@ + "apkm"@;
        assert(name.subrange(name.len() - 5, name.len() as int) =~= ".apkm"@);
    }
}

/// The count of a running transfer.
pub struct Progress {
    total: u64,
    downloaded: u64,
}

/// The count of a running transfer, as plain values.
pub struct ProgressView {
    /// The length that the server announced; zero where it announced none.
    pub total: nat,
    /// The bytes counted so far, never more than the length announced.
    pub downloaded: nat,
}

impl ProgressView {
    /// The length to show a progress bar with: the length announced, or 100
    /// where none was.
    pub open spec fn bar_length(self) -> nat {
        if self.total == 0 {
            100
        } else {
            self.total
        }
    }

    /// The count after one more chunk: the bytes so far and those of the
    /// chunk, but no more than the length announced.
    pub open spec fn after(self, chunk_len: nat) -> ProgressView {
        ProgressView {
            total: self.total,
            downloaded: if self.downloaded + chunk_len <= self.total {
                self.downloaded + chunk_len
            } else {
                self.total
            },
        }
    }
}

impl View for Progress {
    type V = ProgressView;

    closed spec fn view(&self) -> ProgressView {
        ProgressView { total: self.total as nat, downloaded: self.downloaded as nat }
    }
}

impl Progress {
    #[verifier::type_invariant]
    spec fn well_formed(&self) -> bool {
        self.downloaded <= self.total
    }

    /// The count of a transfer that begins. A server that announces no length
    /// is taken to announce zero.
    pub fn new(content_length: Option<u64>) -> (r: Progress)
        ensures
            r@.downloaded == 0,
            r@.total == match content_length {
                Some(length) => length as nat,
                None => 0,
            },
    {
        let total: u64 = match content_length {
            Some(length) => length,
            None => 0,
        };
        Progress { total, downloaded: 0 }
    }

    /// The length to show a progress bar with.
    pub fn bar_length(&self) -> (r: u64)
        ensures
            r == self@.bar_length(),
    {
        if self.total == 0 {
            100
        } else {
            self.total
        }
    }

    /// The bytes counted so far.
    pub fn position(&self) -> (r: u64)
        ensures
            r == self@.downloaded,
            self@.downloaded <= self@.total,
    {
        proof {
            use_type_invariant(self);
        }
        self.downloaded
    }

    /// Counts one more chunk and gives the new position.
    pub fn advance(self, chunk_len: usize) -> (r: Progress)
        ensures
            r@ == self@.after(chunk_len as nat),
    {
        proof {
            use_type_invariant(&self);
        }
        let left: u64 = self.total - self.downloaded;
        let downloaded: u64 = if chunk_len as u64 >= left {
            self.total
        } else {
            self.downloaded + chunk_len as u64
        };
        Progress { total: self.total, downloaded }
    }
}

} // verus!
