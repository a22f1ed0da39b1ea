//! Where the bundles come from and which of their entries are unpacked into
//! the cache.

use vstd::prelude::*;
use crate::installer::InstallerType;
use crate::paths::{file_name, file_name_of};
use crate::text::{chars_of, ends_with, has_suffix, lower, lowered, push_str, string_of};

verus! {

/// The address that describes the latest release of `kind`.
pub open spec fn release_address(kind: InstallerType) -> Seq<char> {
    match kind {
        InstallerType::Cream => "https://api.github.com/repos/anticitizn/creamlinux/releases/latest"@,
        InstallerType::Smoke => "https://api.github.com/repos/acidicoala/SmokeAPI/releases/latest"@,
    }
}

/// The address of the bundle of `kind` at `version`.
pub open spec fn bundle_address(kind: InstallerType, version: Seq<char>) -> Seq<char> {
    match kind {
        InstallerType::Cream => "https://github.com/anticitizn/creamlinux/releases/download/"@
            + version + "/creamlinux.zip"@,
        InstallerType::Smoke => "https://github.com/acidicoala/SmokeAPI/releases/download/"@
            + version + "/SmokeAPI-"@ + version + ".zip"@,
    }
}

/// The address that describes the latest release of `kind`.
pub fn release_url(kind: InstallerType) -> (url: String)
    ensures
        url@ == release_address(kind),
{
    match kind {
        InstallerType::Cream => "https://api.github.com/repos/anticitizn/creamlinux/releases/latest".to_owned(),
        InstallerType::Smoke => "https://api.github.com/repos/acidicoala/SmokeAPI/releases/latest".to_owned(),
    }
}

/// The address of the bundle of `kind` at `version`.
pub fn download_url(kind: InstallerType, version: &str) -> (url: String)
    ensures
        url@ == bundle_address(kind, version@),
{
    let mut out: Vec<char> = Vec::new();
    match kind {
        InstallerType::Cream => {
            push_str(&mut out, "https://github.com/anticitizn/creamlinux/releases/download/");
            push_str(&mut out, version);
            push_str(&mut out, "/creamlinux.zip");
        },
        InstallerType::Smoke => {
            push_str(&mut out, "https://github.com/acidicoala/SmokeAPI/releases/download/");
            push_str(&mut out, version);
            push_str(&mut out, "/SmokeAPI-");
            push_str(&mut out, version);
            push_str(&mut out, ".zip");
        },
    }
    string_of(&out)
}

/// One entry of a bundle as it is unpacked: the name of the file it becomes,
/// directly in the version's directory, and whether the file may be executed.
#[derive(Debug, Clone)]
pub struct Unpacked {
    pub file_name: String,
    pub executable: bool,
}

/// An unpacked entry as plain values.
pub struct UnpackedView {
    pub file_name: Seq<char>,
    pub executable: bool,
}

impl View for Unpacked {
    type V = UnpackedView;

    open spec fn view(&self) -> UnpackedView {
        UnpackedView { file_name: self.file_name@, executable: self.executable }
    }
}

/// What becomes of the entry `name` of a bundle of `kind`. Of the content
/// unlocker every file is unpacked, shell scripts as executable files; an entry
/// that ends in `/` is a directory and is passed over. Of the api shim only the
/// files whose name ends in `.dll`, in whatever case, are unpacked. A file lands
/// under the last component of its name.
pub open spec fn unpacked(kind: InstallerType, name: Seq<char>) -> Option<UnpackedView> {
    match kind {
        InstallerType::Cream => if has_suffix(name, "/"@) {
            None
        } else {
            Some(UnpackedView { file_name: file_name(name), executable: has_suffix(name, ".sh"@) })
        },
        InstallerType::Smoke => if has_suffix(lower(name), ".dll"@) {
            Some(UnpackedView { file_name: file_name(name), executable: false })
        } else {
            None
        },
    }
}

/// What becomes of the entry `name` of a bundle of `kind`.
pub fn download_to_cache(kind: InstallerType, name: &str) -> (r: Option<Unpacked>)
    ensures
        match r {
            Some(u) => unpacked(kind, name@) == Some(u@),
            None => unpacked(kind, name@) is None,
        },
{
    let n = chars_of(name);
    match kind {
        InstallerType::Cream => {
            if ends_with(&n, &chars_of("/")) {
                None
            } else {
                Some(
                    Unpacked {
                        file_name: file_name_of(name),
                        executable: ends_with(&n, &chars_of(".sh")),
                    },
                )
            }
        },
        InstallerType::Smoke => {
            if ends_with(&lowered(&n), &chars_of(".dll")) {
                Some(Unpacked { file_name: file_name_of(name), executable: false })
            } else {
                None
            }
        },
    }
}

} // verus!
