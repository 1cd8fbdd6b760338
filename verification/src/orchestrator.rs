//! The two-phase update protocol: `check`, then `apply`.
//!
//! `check` composes manifest validation, asset selection and version
//! comparison and decides whether an update is available. `apply` is
//! driven by the host (which does the actual network and filesystem
//! work): it begins by claiming the single in-flight slot — a second
//! concurrent `apply` is refused with `UpdateInProgress` — and ends in
//! exactly one terminal outcome per cycle: installed, rolled back,
//! failed, or cancelled. Component errors propagate verbatim; nothing is
//! swallowed into a default "no update" outcome.

use vstd::prelude::*;
use crate::errors::UpdateError;
use crate::install::InstallState;
use crate::install::Installer;
use crate::install::install_next;
use crate::install::stage_next;
use crate::manifest::Asset;
use crate::manifest::Release;
use crate::manifest::release_well_formed;
use crate::select::name_matches;
use crate::select::select;
use crate::signature::sig_ok;
use crate::signature::sig_view;
use crate::version::Cmp;
use crate::version::compare;
use crate::version::lemma_compare_reflexive;
use crate::version::valid_version;
use crate::version::version_cmp;
use crate::version::version_fits;

verus! {

/// An update is available when the current version orders strictly below
/// the fetched tag.
pub open spec fn update_available(current: Seq<char>, tag: Seq<char>) -> bool {
    version_cmp(current, tag) == Cmp::Less
}

/// Both version strings parse and their components fit the
/// implementation's bound.
pub open spec fn versions_ok(current: Seq<char>, tag: Seq<char>) -> bool {
    valid_version(current) && version_fits(current) && valid_version(tag) && version_fits(tag)
}

/// Some asset in the manifest matches the platform token.
pub open spec fn some_asset_matches(r: Release, platform: Seq<char>) -> bool {
    exists|i: int| 0 <= i < r.assets@.len() && name_matches(#[trigger] r.assets@[i].name@, platform)
}

/// `i` is the first matching asset, in manifest order.
pub open spec fn is_first_match(r: Release, platform: Seq<char>, i: int) -> bool {
    &&& 0 <= i < r.assets@.len()
    &&& name_matches(r.assets@[i].name@, platform)
    &&& forall|j: int| 0 <= j < i ==> !name_matches(#[trigger] r.assets@[j].name@, platform)
}

/// What `check` found: the versions involved and the asset to download.
/// Held by the orchestrator's caller between `check` and `apply`.
pub struct UpdateCandidate {
    pub current_version: String,
    pub target_version: String,
    pub asset: Asset,
}

/// The orchestrator: immutable configuration (trusted key, platform
/// token) plus the single in-flight-apply slot and the installer.
pub struct UpdateOrchestrator {
    pub trusted_key: u64,
    pub platform: String,
    pub in_flight: bool,
    pub installer: Installer,
}

impl UpdateOrchestrator {
    /// A fresh orchestrator for the given trust root and platform token;
    /// configuration is passed in explicitly, never ambient.
    pub fn new(trusted_key: u64, platform: String) -> (r: UpdateOrchestrator)
        ensures
            r.trusted_key == trusted_key,
            r.platform@ == platform@,
            !r.in_flight,
            r.installer.state == InstallState::Idle,
            r.installer.record is None,
    {
        UpdateOrchestrator { trusted_key, platform, in_flight: false, installer: Installer::new() }
    }

    /// Decides whether the fetched release carries an update: validates
    /// the manifest, selects the first asset matching the platform, and
    /// compares the tag against the current version. Fails with the
    /// first component error, in that order; returns `None` exactly when
    /// the current version is greater or equal to the tag.
    pub fn check(&self, current_version: &str, release: &Release) -> (r: Result<
        Option<UpdateCandidate>,
        UpdateError,
    >)
        ensures
            !release_well_formed(*release) ==> r == Err::<
                Option<UpdateCandidate>,
                UpdateError,
            >(UpdateError::ManifestParseError),
            release_well_formed(*release) && !some_asset_matches(*release, self.platform@) ==> r
                == Err::<Option<UpdateCandidate>, UpdateError>(UpdateError::NoMatchingAsset),
            release_well_formed(*release) && some_asset_matches(*release, self.platform@)
                && !versions_ok(current_version@, release.tag_name@) ==> r == Err::<
                Option<UpdateCandidate>,
                UpdateError,
            >(UpdateError::InvalidVersion),
            release_well_formed(*release) && some_asset_matches(*release, self.platform@)
                && versions_ok(current_version@, release.tag_name@) ==> (match r {
                Ok(None) => !update_available(current_version@, release.tag_name@),
                Ok(Some(c)) => {
                    &&& update_available(current_version@, release.tag_name@)
                    &&& c.current_version@ == current_version@
                    &&& c.target_version@ == release.tag_name@
                    &&& exists|i: int|
                        {
                            &&& #[trigger] is_first_match(*release, self.platform@, i)
                            &&& c.asset.name@ == release.assets@[i].name@
                            &&& c.asset.browser_download_url@
                                == release.assets@[i].browser_download_url@
                            &&& match (c.asset.signature, release.assets@[i].signature) {
                                (Some(a), Some(b)) => a@ == b@,
                                (None, None) => true,
                                _ => false,
                            }
                        }
                },
                Err(_) => false,
            }),
    {
        if let Err(e) = release.validate() {
            return Err(e);
        }
        let idx = match select(release, self.platform.as_str()) {
            Ok(i) => i,
            Err(e) => {
                return Err(e);
            },
        };
        let cmp = match compare(current_version, release.tag_name.as_str()) {
            Ok(c) => c,
            Err(e) => {
                return Err(e);
            },
        };
        match cmp {
            Cmp::Less => {
                let asset = release.assets[idx].duplicate();
                proof {
                    assert(is_first_match(*release, self.platform@, idx as int));
                }
                Ok(
                    Some(
                        UpdateCandidate {
                            current_version: current_version.to_owned(),
                            target_version: release.tag_name.clone(),
                            asset,
                        },
                    ),
                )
            },
            _ => Ok(None),
        }
    }

    /// Claims the single in-flight-apply slot. A second `apply` while one
    /// is in flight is refused immediately with `UpdateInProgress`;
    /// nothing else changes.
    pub fn begin_apply(&mut self) -> (r: Result<(), UpdateError>)
        ensures
            final(self).trusted_key == old(self).trusted_key,
            final(self).platform@ == old(self).platform@,
            final(self).installer == old(self).installer,
            old(self).in_flight ==> r == Err::<(), UpdateError>(UpdateError::UpdateInProgress)
                && final(self).in_flight,
            !old(self).in_flight ==> r.is_ok() && final(self).in_flight,
    {
        if self.in_flight {
            return Err(UpdateError::UpdateInProgress);
        }
        self.in_flight = true;
        Ok(())
    }

    /// Ends an in-flight apply whose download or verification work the
    /// host cancelled: the partial file has been deleted (the download
    /// handle's abort), the installer stays where it was — cancellation
    /// never partially stages an artifact — and the single terminal
    /// event is `Cancelled`.
    pub fn cancel_apply(&mut self) -> (e: UpdateError)
        requires
            old(self).in_flight,
        ensures
            !final(self).in_flight,
            final(self).trusted_key == old(self).trusted_key,
            final(self).platform@ == old(self).platform@,
            final(self).installer == old(self).installer,
            e == UpdateError::Cancelled,
    {
        self.in_flight = false;
        UpdateError::Cancelled
    }

    /// Ends an in-flight apply that failed before staging — a transport
    /// or disk failure during download. The component's error is the
    /// single terminal event, forwarded verbatim; the installer never
    /// left `Idle`.
    pub fn fail_apply(&mut self, e: UpdateError) -> (r: Result<(), UpdateError>)
        requires
            old(self).in_flight,
        ensures
            !final(self).in_flight,
            final(self).trusted_key == old(self).trusted_key,
            final(self).platform@ == old(self).platform@,
            final(self).installer == old(self).installer,
            r == Err::<(), UpdateError>(e),
    {
        self.in_flight = false;
        Err(e)
    }

    /// Verifies and stages a fully downloaded artifact — fail closed.
    /// Only on success does the host go on to write the staged file
    /// beside the live one and perform the single atomic rename: an
    /// artifact that does not verify ends the cycle with
    /// `SignatureInvalid`, the installer still `Idle` (never `Staged`),
    /// and the host was never asked to touch the live location.
    pub fn stage_downloaded(&mut self, artifact: &Vec<u8>, signature: Option<&str>) -> (r: Result<
        (),
        UpdateError,
    >)
        requires
            old(self).in_flight,
            old(self).installer.state == InstallState::Idle,
        ensures
            final(self).trusted_key == old(self).trusted_key,
            final(self).platform@ == old(self).platform@,
            final(self).in_flight == r.is_ok(),
            final(self).installer.record == old(self).installer.record,
            r.is_ok() <==> sig_ok(sig_view(signature), old(self).trusted_key, artifact@),
            final(self).installer.state == stage_next(
                old(self).installer.state,
                sig_ok(sig_view(signature), old(self).trusted_key, artifact@),
            ),
            match r {
                Ok(()) => final(self).installer.state == InstallState::Staged,
                Err(e) => e == UpdateError::SignatureInvalid && final(self).installer.state
                    == InstallState::Idle,
            },
    {
        match self.installer.stage(artifact, signature, self.trusted_key) {
            Ok(()) => Ok(()),
            Err(e) => {
                self.in_flight = false;
                Err(e)
            },
        }
    }

    /// Completes the install after the host reports the outcome of the
    /// single filesystem-atomic rename of the staged artifact over the
    /// live location. Success records the installed version and the host
    /// clock's timestamp — only after the rename; failure rolls back,
    /// leaving the record and the previously live artifact untouched.
    /// Ends the in-flight apply either way: each cycle emits exactly one
    /// terminal outcome.
    pub fn finish_install(
        &mut self,
        rename_ok: bool,
        target_version: &str,
        installed_at: u64,
    ) -> (r: Result<(), UpdateError>)
        requires
            old(self).in_flight,
            old(self).installer.state == InstallState::Staged,
        ensures
            !final(self).in_flight,
            final(self).trusted_key == old(self).trusted_key,
            final(self).platform@ == old(self).platform@,
            final(self).installer.state == install_next(old(self).installer.state, rename_ok),
            r.is_ok() <==> rename_ok,
            rename_ok ==> final(self).installer.state == InstallState::Installed && (
            match final(self).installer.record {
                Some(rec) => rec.version@ == target_version@ && rec.installed_at == installed_at,
                None => false,
            }),
            !rename_ok ==> r == Err::<(), UpdateError>(UpdateError::DiskWriteError)
                && final(self).installer.state == InstallState::RolledBack
                && final(self).installer.record == old(self).installer.record,
    {
        let installed = self.installer.install(rename_ok, target_version, installed_at);
        self.in_flight = false;
        installed
    }
}

/// The round trip of a correctly signed artifact: staging moves
/// `Idle → Staged`, a successful atomic rename moves
/// `Staged → Installed`, and once the recorded version equals the feed's
/// tag, a subsequent check against the same feed reports no update
/// available.
pub proof fn lemma_round_trip(sig: Option<Seq<char>>, key: u64, data: Seq<u8>, tag: Seq<char>)
    requires
        sig_ok(sig, key, data),
        valid_version(tag),
    ensures
        stage_next(InstallState::Idle, sig_ok(sig, key, data)) == InstallState::Staged,
        install_next(InstallState::Staged, true) == InstallState::Installed,
        !update_available(tag, tag),
{
    lemma_compare_reflexive(tag);
}

} // verus!
