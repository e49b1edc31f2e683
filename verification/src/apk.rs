//! The package name of an APK file.

use std::io::{Cursor, Read};

use vstd::prelude::*;

use crate::axml::{manifest_package, manifest_package_name, manifest_readable, name_view};
use crate::error::{ErrorView, InstallerError};
use crate::session::{Reply, ReplyView};

verus! {

/// What `ZipArchive::new`, `by_name` and `read_to_end` make of the bytes of an archive and the name
/// of an entry: the contents of the entry, or the error of the first of them that fails.
pub uninterp spec fn zip_entry(archive: Seq<u8>, name: Seq<char>) -> Result<Seq<u8>, ErrorView>;

/// The contents of a file, or why there are none, as their value.
pub open spec fn contents_view(r: Result<Vec<u8>, InstallerError>) -> Result<Seq<u8>, ErrorView> {
    match r {
        Ok(data) => Ok(data@),
        Err(e) => Err(e@),
    }
}

/// `zip::ZipArchive::new` on the bytes of an archive, then `ZipArchive::by_name` and `read_to_end`
/// on the entry: the result is a function of the bytes and the name alone. An error of the first
/// two is the archive reader's, one of the last is an input error.
#[verifier::external_body]
pub(crate) fn read_zip_entry(archive: &[u8], name: &str) -> (r: Result<Vec<u8>, InstallerError>)
    ensures
        contents_view(r) == zip_entry(archive@, name@),
        r matches Err(e) ==> e@ is Zip || e@ is Io,
{
    let mut data = Vec::new();
    let mut opened =
        zip::ZipArchive::new(Cursor::new(archive)).map_err(|e| InstallerError::Zip(e.to_string()))?;
    let mut entry = opened.by_name(name).map_err(|e| InstallerError::Zip(e.to_string()))?;
    entry.read_to_end(&mut data).map_err(|e| InstallerError::Io(e.to_string()))?;
    Ok(data)
}

/// The package name that the manifest in an APK declares, or why there is none. `None` if reading
/// the manifest runs over its end.
pub open spec fn apk_package(apk: Seq<u8>) -> Option<Result<Seq<char>, ErrorView>> {
    match zip_entry(apk, "AndroidManifest.xml"@) {
        Ok(manifest) => manifest_package(manifest),
        Err(e) => Some(Err(e)),
    }
}

/// Reads the package name from the binary `AndroidManifest.xml` inside an APK.
pub fn apk_package_name(apk: &[u8]) -> (r: Result<String, InstallerError>)
    requires
        apk_package(apk@) is Some,
    ensures
        Some(name_view(r)) == apk_package(apk@),
{
    match read_zip_entry(apk, "AndroidManifest.xml") {
        Ok(manifest) => manifest_package_name(manifest.as_slice()),
        Err(e) => Err(e),
    }
}

/// Reads the package name from the manifest inside an APK; `None` if reading the manifest runs over
/// its end.
pub fn readable_apk_package_name(apk: &[u8]) -> (r: Option<Result<String, InstallerError>>)
    ensures
        r is None <==> apk_package(apk@) is None,
        r matches Some(name) ==> Some(name_view(name)) == apk_package(apk@),
{
    if let Ok(manifest) = read_zip_entry(apk, "AndroidManifest.xml") {
        if !manifest_readable(manifest.as_slice()) {
            return None;
        }
    }
    Some(apk_package_name(apk))
}

/// A package name, or why there is none, as the reply to the question for it.
pub open spec fn name_reply(name: Result<Seq<char>, ErrorView>) -> ReplyView {
    match name {
        Ok(name) => ReplyView::Text(name),
        Err(e) => ReplyView::Failed(e),
    }
}

/// The reply to the question for the package name of an APK, from the bytes of the APK; `None` if
/// reading its manifest runs over the end.
pub fn package_reply(apk: &[u8]) -> (r: Option<Reply>)
    ensures
        r is None <==> apk_package(apk@) is None,
        r matches Some(reply) ==> reply@ == name_reply(apk_package(apk@)->0),
{
    match readable_apk_package_name(apk) {
        Some(Ok(name)) => Some(Reply::Text(name)),
        Some(Err(e)) => Some(Reply::Failed(e)),
        None => None,
    }
}

}
