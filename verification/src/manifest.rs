//! Release manifests and their validation.
//!
//! A manifest describes the latest release: a tag (its version string) and
//! an ordered list of downloadable assets. The host layer parses the feed's
//! response into these plain values; validation here is all-or-nothing.

use vstd::prelude::*;
use crate::errors::UpdateError;

verus! {

/// One downloadable artifact within a release.
pub struct Asset {
    pub name: String,
    pub browser_download_url: String,
    /// The detached signature over the artifact, if the feed provides one.
    /// A missing signature fails verification closed.
    pub signature: Option<String>,
}

impl Asset {
    /// An independently owned copy of this asset description.
    pub fn duplicate(&self) -> (r: Asset)
        ensures
            r.name@ == self.name@,
            r.browser_download_url@ == self.browser_download_url@,
            match (r.signature, self.signature) {
                (Some(a), Some(b)) => a@ == b@,
                (None, None) => true,
                _ => false,
            },
    {
        Asset {
            name: self.name.clone(),
            browser_download_url: self.browser_download_url.clone(),
            signature: match &self.signature {
                Some(s) => Some(s.clone()),
                None => None,
            },
        }
    }
}

/// The latest release as fetched from the feed: a tag and its assets.
pub struct Release {
    pub tag_name: String,
    pub assets: Vec<Asset>,
}

/// A well-formed manifest names a tag and carries at least one asset.
pub open spec fn release_well_formed(r: Release) -> bool {
    r.tag_name@.len() > 0 && r.assets@.len() > 0
}

impl Release {
    /// Checks that the fetched manifest is well formed: parsing is
    /// all-or-nothing, so a missing tag or an empty asset list rejects
    /// the whole manifest.
    pub fn validate(&self) -> (r: Result<(), UpdateError>)
        ensures
            r.is_ok() <==> release_well_formed(*self),
            match r {
                Ok(()) => true,
                Err(e) => e == UpdateError::ManifestParseError,
            },
    {
        if self.tag_name.unicode_len() == 0 {
            return Err(UpdateError::ManifestParseError);
        }
        if self.assets.len() == 0 {
            return Err(UpdateError::ManifestParseError);
        }
        Ok(())
    }
}

/// A manual-fallback update: when automatic in-place installation is not
/// available on a platform, the host opens this download page in a browser
/// instead of running the verified pipeline.
pub struct Update {
    pub download: String,
}

} // verus!
