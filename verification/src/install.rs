//! The staged, atomic install as a state machine.
//!
//! `Idle → Staged` only after the artifact has passed signature
//! verification; `Staged → Installed` only after the host's single
//! filesystem-atomic rename succeeded, and only then is the install
//! record persisted. Any failure between staging and persisting the
//! record ends in `RolledBack`: the staged file is discarded and the
//! previously live artifact is left untouched.

use vstd::prelude::*;
use crate::errors::UpdateError;
use crate::signature::sig_ok;
use crate::signature::sig_view;
use crate::signature::verify;

verus! {

/// The installer's four states. `Installed` and `RolledBack` are
/// terminal for one apply cycle.
#[derive(Clone, Copy, Debug, PartialEq, Eq, Structural)]
pub enum InstallState {
    Idle,
    Staged,
    Installed,
    RolledBack,
}

/// The persisted marker of the last successful install — the installed
/// version and the host clock's timestamp — read once at the next startup
/// by the bootstrapper.
pub struct InstallRecord {
    pub version: String,
    pub installed_at: u64,
}

/// Where staging moves the state: to `Staged` exactly when the artifact
/// verified, else nowhere.
pub open spec fn stage_next(s: InstallState, verified: bool) -> InstallState {
    if s == InstallState::Idle && verified {
        InstallState::Staged
    } else {
        s
    }
}

/// Where installing moves the state: to `Installed` exactly when the
/// atomic rename succeeded, else to `RolledBack`.
pub open spec fn install_next(s: InstallState, rename_ok: bool) -> InstallState {
    if s == InstallState::Staged {
        if rename_ok {
            InstallState::Installed
        } else {
            InstallState::RolledBack
        }
    } else {
        s
    }
}

/// The installer: its state and the persisted install record, if any.
pub struct Installer {
    pub state: InstallState,
    pub record: Option<InstallRecord>,
}

impl Installer {
    /// A fresh installer: idle, nothing recorded.
    pub fn new() -> (r: Installer)
        ensures
            r.state == InstallState::Idle,
            r.record is None,
    {
        Installer { state: InstallState::Idle, record: None }
    }

    /// Verifies the artifact against the trusted key and, only on
    /// success, moves `Idle → Staged` (the host then writes the artifact
    /// to a temporary path beside the live one). A missing, malformed or
    /// mismatched signature fails closed with `SignatureInvalid` and the
    /// state stays `Idle`: an unverified artifact never reaches `Staged`.
    pub fn stage(&mut self, artifact: &Vec<u8>, signature: Option<&str>, key: u64) -> (r: Result<
        (),
        UpdateError,
    >)
        requires
            old(self).state == InstallState::Idle,
        ensures
            final(self).state == stage_next(old(self).state, sig_ok(sig_view(signature), key, artifact@)),
            final(self).record == old(self).record,
            r.is_ok() <==> sig_ok(sig_view(signature), key, artifact@),
            match r {
                Ok(()) => final(self).state == InstallState::Staged,
                Err(e) => e == UpdateError::SignatureInvalid && final(self).state
                    == InstallState::Idle,
            },
    {
        match verify(artifact, signature, key) {
            Ok(()) => {
                self.state = InstallState::Staged;
                Ok(())
            },
            Err(e) => Err(e),
        }
    }

    /// Finishes the install after the host performed the single atomic
    /// rename of the staged artifact over the live location. On success
    /// (`rename_ok`) the state is `Installed` and the install record is
    /// persisted with the new version — only after the rename. On
    /// failure the state is `RolledBack`, the record is untouched, and
    /// the host discards the staged file; the live artifact was never
    /// overwritten.
    pub fn install(&mut self, rename_ok: bool, version: &str, installed_at: u64) -> (r: Result<
        (),
        UpdateError,
    >)
        requires
            old(self).state == InstallState::Staged,
        ensures
            final(self).state == install_next(old(self).state, rename_ok),
            match r {
                Ok(()) => rename_ok && final(self).state == InstallState::Installed && (
                match final(self).record {
                    Some(rec) => rec.version@ == version@ && rec.installed_at == installed_at,
                    None => false,
                }),
                Err(e) => !rename_ok && e == UpdateError::DiskWriteError && final(self).state
                    == InstallState::RolledBack && final(self).record == old(self).record,
            },
            r.is_ok() <==> rename_ok,
    {
        if rename_ok {
            self.record = Some(InstallRecord { version: version.to_owned(), installed_at });
            self.state = InstallState::Installed;
            Ok(())
        } else {
            self.state = InstallState::RolledBack;
            Err(UpdateError::DiskWriteError)
        }
    }
}

/// An artifact that fails signature verification never reaches `Staged`:
/// from `Idle`, staging with an unverified artifact stays `Idle`, so the
/// live artifact location is never touched.
pub proof fn lemma_unverified_never_staged(sig: Option<Seq<char>>, key: u64, data: Seq<u8>)
    requires
        !sig_ok(sig, key, data),
    ensures
        stage_next(InstallState::Idle, sig_ok(sig, key, data)) == InstallState::Idle,
{
}

} // verus!
