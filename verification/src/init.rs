//! Setting up a new vault.

use crate::error::Error;
use crate::keys::fingerprint_of;
use crate::keys::KeyInfo;
use crate::paths::join_paths;
use crate::paths::normalized;
use crate::paths::path_join;
use crate::paths::path_parent;
use crate::paths::path_same;
use crate::paths::same_path;
use crate::vault::TrustModel;
use crate::vault::Vault;
use crate::vault::VaultKind;
use vstd::prelude::*;

verus! {

/// Whether a directory that has to be there and empty was found or is new.
#[derive(Debug, Clone, PartialEq, Eq, PartialOrd, Ord, Hash)]
pub enum DirectoryInfo {
    Existed,
    Created,
}

/// Decides about a directory that has to be there and empty, from what was
/// found at its path: a directory with entries is refused, an empty one is
/// taken as it is, and anything else means that the directory is to be
/// created.
pub fn assure_empty_directory_exists(dir: &str, is_dir: bool, num_entries: usize) -> (r: Result<
    DirectoryInfo,
    Error,
>)
    ensures
        is_dir && num_entries > 0 ==> r is Err && r->Err_0 is NonEmptyDirectory
            && r->Err_0->NonEmptyDirectory_dir@ == dir@,
        is_dir && num_entries == 0 ==> r == Ok::<DirectoryInfo, Error>(DirectoryInfo::Existed),
        !is_dir ==> r == Ok::<DirectoryInfo, Error>(DirectoryInfo::Created),
{
    if is_dir {
        if num_entries > 0 {
            return Err(Error::NonEmptyDirectory { dir: dir.to_string() });
        }
        Ok(DirectoryInfo::Existed)
    } else {
        Ok(DirectoryInfo::Created)
    }
}

/// Refuses to set up a vault over a recipients file that is there already.
pub fn check_fresh_recipients_file(recipients_file: &str, is_file: bool) -> (r: Result<(), Error>)
    ensures
        !is_file ==> r is Ok,
        is_file ==> r is Err && r->Err_0 is RecipientsFileExists
            && r->Err_0->RecipientsFileExists_path@ == recipients_file@,
{
    if is_file {
        Err(Error::RecipientsFileExists { path: recipients_file.to_string() })
    } else {
        Ok(())
    }
}

/// Refuses to set up a vault that is to get partitions where its secrets
/// directory is the directory of the descriptor, in which every partition
/// would be nested.
pub fn check_first_partition(secrets: &str, first_partition: bool) -> (r: Result<(), Error>)
    ensures
        first_partition && path_same(secrets@, "."@) ==> r is Err && r->Err_0
            is FirstPartitionNeedsSecretsDir,
        !(first_partition && path_same(secrets@, "."@)) ==> r is Ok,
{
    if first_partition && same_path(secrets, ".") {
        Err(Error::FirstPartitionNeedsSecretsDir)
    } else {
        Ok(())
    }
}

/// Names the file that the public key of `key` is exported to: the key's
/// fingerprint, inside the key directory. The fingerprint comes first.
pub fn export_target(gpg_keys_dir: &str, key: &KeyInfo) -> (r: Result<(String, String), Error>)
    ensures
        match key.fingerprint {
            Some(f) => r is Ok && r->Ok_0.0@ == f@ && r->Ok_0.1@ == path_join(gpg_keys_dir@, f@),
            None => r is Err && r->Err_0 is NoFingerprint,
        },
{
    match fingerprint_of(key) {
        Ok(fingerprint) => {
            let path = join_paths(gpg_keys_dir, fingerprint.as_str());
            Ok((fingerprint, path))
        },
        Err(e) => Err(e),
    }
}

impl Vault {
    /// Describes a new vault that leads the descriptor at `vault_path`.
    ///
    /// The vault has no partitions and the index 0, and is resolved at the
    /// normalized directory of `vault_path`, which must have one.
    pub fn init(
        secrets: &str,
        gpg_keys_dir: &str,
        recipients_file: &str,
        vault_path: &str,
        name: Option<String>,
        trust_model: Option<TrustModel>,
        auto_import: Option<bool>,
    ) -> (r: Result<Vault, Error>)
        ensures
            match path_parent(vault_path@) {
                Some(dir) => {
                    &&& r is Ok
                    &&& r->Ok_0.name == name
                    &&& r->Ok_0.kind is Leader
                    &&& r->Ok_0.index == 0
                    &&& r->Ok_0.partitions@.len() == 0
                    &&& r->Ok_0.resolved_at@ == normalized(dir)
                    &&& r->Ok_0.vault_path is Some && r->Ok_0.vault_path->Some_0@ == vault_path@
                    &&& r->Ok_0.auto_import == auto_import
                    &&& r->Ok_0.trust_model == trust_model
                    &&& r->Ok_0.secrets@ == secrets@
                    &&& r->Ok_0.gpg_keys is Some && r->Ok_0.gpg_keys->Some_0@ == gpg_keys_dir@
                    &&& r->Ok_0.recipients@ == recipients_file@
                },
                None => r is Err && r->Err_0 is InvalidVaultPath
                    && r->Err_0->InvalidVaultPath_path@ == vault_path@,
            },
    {
        let vault = Vault {
            name,
            kind: VaultKind::Leader,
            index: 0,
            partitions: Vec::new(),
            resolved_at: crate::vault::secrets_default(),
            vault_path: None,
            auto_import,
            trust_model,
            secrets: secrets.to_string(),
            gpg_keys: Some(gpg_keys_dir.to_string()),
            recipients: recipients_file.to_string(),
        };
        vault.set_resolved_at(vault_path)
    }

    /// The files that the public keys are exported to when the recipients
    /// are set up: for each key its fingerprint and the file of that name in
    /// the descriptor's key directory. There must be a key directory and at
    /// least one key.
    pub fn init_recipients(&self, keys: &Vec<KeyInfo>) -> (r: Result<Vec<(String, String)>, Error>)
        ensures
            self.shared_keys_dir() is None ==> r is Err && r->Err_0 is NoGpgKeysDir
                && r->Err_0->NoGpgKeysDir_vault_path@ == self.vault_path_text(),
            self.shared_keys_dir() is Some && keys@.len() == 0 ==> r is Err && r->Err_0
                is NoSecretKey,
            self.shared_keys_dir() is Some && keys@.len() > 0 && !crate::keys::fingerprints_known(
                keys@,
                keys@.len() as int,
            ) ==> r is Err && r->Err_0 is NoFingerprint,
            self.shared_keys_dir() is Some && keys@.len() > 0 && crate::keys::fingerprints_known(
                keys@,
                keys@.len() as int,
            ) ==> r is Ok && r->Ok_0@.len() == keys@.len() && forall|i: int|
                0 <= i < keys@.len() ==> (#[trigger] r->Ok_0@[i]).0@ == keys@[i].fingerprint->Some_0@
                    && r->Ok_0@[i].1@ == path_join(
                    self.shared_keys_dir()->Some_0,
                    keys@[i].fingerprint->Some_0@,
                ),
    {
        let dir = match self.find_gpg_keys_dir() {
            Ok(d) => d,
            Err(e) => {
                return Err(e);
            },
        };
        if keys.len() == 0 {
            return Err(Error::NoSecretKey);
        }
        let mut out: Vec<(String, String)> = Vec::new();
        let mut i: usize = 0;
        while i < keys.len()
            invariant
                i <= keys.len(),
                keys@.len() > 0,
                self.shared_keys_dir() == Some(dir@),
                out@.len() == i,
                crate::keys::fingerprints_known(keys@, i as int),
                forall|k: int|
                    0 <= k < i ==> (#[trigger] out@[k]).0@ == keys@[k].fingerprint->Some_0@ && out@[k].1@
                        == path_join(dir@, keys@[k].fingerprint->Some_0@),
            decreases keys.len() - i,
        {
            match export_target(dir.as_str(), &keys[i]) {
                Ok(target) => {
                    out.push(target);
                },
                Err(e) => {
                    assert(keys@[i as int].fingerprint is None);
                    return Err(e);
                },
            }
            i = i + 1;
        }
        Ok(out)
    }
}

} // verus!
