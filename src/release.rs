use vstd::prelude::*;
use vstd::string::*;
use crate::installer::opt_string_view;
use crate::text::{
    ends_with, ends_with_spec, eq_ignore_ascii_case, eq_ignore_ascii_case_spec, lower_of,
    lowercase,
};

verus! {

/// Download link used for the mod-loader repository when its latest release
/// offers no matching asset.
pub const MELONLOADER_FALLBACK_URL: &'static str =
    "https://github.com/LavaGang/MelonLoader/releases/latest/download/MelonLoader.x64.zip";

/// Repository whose lookups fall back to `MELONLOADER_FALLBACK_URL`.
pub const MELONLOADER_REPO: &'static str = "MelonLoader";

/// Extension of the archives that an unfiltered lookup accepts.
pub const ARCHIVE_EXTENSION: &'static str = ".zip";

/// One downloadable file of a published release.
#[derive(Debug)]
pub struct Asset {
    pub name: String,
    pub browser_download_url: String,
}

/// A published release as the release-hosting service describes it.
#[derive(Debug)]
pub struct Release {
    pub tag_name: String,
    pub assets: Vec<Asset>,
}

/// What a lookup resolves to: the latest tag and the archive to fetch for it.
#[derive(Debug)]
pub struct ReleaseInfo {
    pub tag_name: String,
    pub download_url: String,
}

/// Whether an asset name is accepted: equal to the filter up to ASCII case,
/// or, with no filter, ending in the archive extension once lower-cased.
pub open spec fn asset_accepted(name: Seq<char>, filter: Option<Seq<char>>) -> bool {
    match filter {
        Some(f) => eq_ignore_ascii_case_spec(name, f),
        None => ends_with_spec(lower_of(name), ARCHIVE_EXTENSION@),
    }
}

/// Link of the first accepted asset from position `i` on, if any is accepted.
pub open spec fn first_accepted_url(assets: Seq<Asset>, filter: Option<Seq<char>>, i: int) -> Option<Seq<char>>
    decreases assets.len() - i,
{
    if i < 0 || i >= assets.len() {
        None
    } else if asset_accepted(assets[i].name@, filter) {
        Some(assets[i].browser_download_url@)
    } else {
        first_accepted_url(assets, filter, i + 1)
    }
}

/// The link a lookup yields: the first accepted asset's, else the fallback for
/// the mod-loader repository, else none.
pub open spec fn resolved_url(assets: Seq<Asset>, filter: Option<Seq<char>>, repo: Seq<char>) -> Option<Seq<char>> {
    match first_accepted_url(assets, filter, 0) {
        Some(u) => Some(u),
        None => if eq_ignore_ascii_case_spec(repo, MELONLOADER_REPO@) {
            Some(MELONLOADER_FALLBACK_URL@)
        } else {
            None
        },
    }
}

/// An optional text as an optional character sequence.
pub open spec fn opt_view(o: Option<&str>) -> Option<Seq<char>> {
    match o {
        Some(s) => Some(s@),
        None => None,
    }
}

/// Tells whether an asset name passes the lookup's filter.
pub fn asset_matches(name: &str, filter: Option<&str>) -> (r: bool)
    ensures
        r == asset_accepted(name@, opt_view(filter)),
{
    match filter {
        Some(f) => eq_ignore_ascii_case(name, f),
        None => {
            let lower = lowercase(name);
            ends_with(lower.as_str(), ARCHIVE_EXTENSION)
        },
    }
}

/// Picks the download link out of a release: that of the first asset the
/// filter accepts; where none is accepted, the fixed fallback for the
/// mod-loader repository (named up to ASCII case); else `None`.
pub fn resolve_release(release: Release, repo: &str, filter: Option<&str>) -> (r: Option<ReleaseInfo>)
    ensures
        match resolved_url(release.assets@, opt_view(filter), repo@) {
            None => r is None,
            Some(u) => r matches Some(info) && info.tag_name@ == release.tag_name@
                && info.download_url@ == u,
        },
{
    let Release { tag_name, assets } = release;
    let n = assets.len();
    let mut i: usize = 0;
    let mut found: Option<String> = None;
    while i < n
        invariant_except_break
            found is None,
        invariant
            n == assets@.len(),
            i <= n,
            first_accepted_url(assets@, opt_view(filter), 0)
                == first_accepted_url(assets@, opt_view(filter), i as int),
        ensures
            opt_string_view(found) == first_accepted_url(assets@, opt_view(filter), 0),
        decreases n - i,
    {
        if asset_matches(assets[i].name.as_str(), filter) {
            found = Some(assets[i].browser_download_url.clone());
            break;
        }
        i = i + 1;
    }
    if let Some(url) = found {
        Some(ReleaseInfo { tag_name, download_url: url })
    } else if eq_ignore_ascii_case(repo, MELONLOADER_REPO) {
        Some(ReleaseInfo { tag_name, download_url: MELONLOADER_FALLBACK_URL.to_string() })
    } else {
        None
    }
}

} // verus!
