//! The commands of the vault and the modes that steer them.

use crate::spec::VaultSpec;
use crate::vault::TrustModel;
use vstd::prelude::*;

verus! {

/// Whether a destination is taken as written or resolved inside the vault.
#[derive(Debug, Clone, Copy, PartialEq, Eq, PartialOrd, Ord, Hash)]
pub enum Destination {
    /// Below the partition's secrets directory, with `.gpg` appended.
    ReolveAndAppendGpg,
    /// As written.
    Unchanged,
}

/// Whether a file that exists may be written over.
#[derive(Debug, Clone, Copy, PartialEq, Eq, PartialOrd, Ord, Hash)]
pub enum WriteMode {
    AllowOverwrite,
    RefuseOverwrite,
}

/// Whether keys of new recipients are signed before use.
#[derive(Debug, Clone, Copy, PartialEq, Eq, PartialOrd, Ord, Hash)]
pub enum SigningMode {
    /// The keys are trusted as they are.
    NoSigning,
    /// The keys are imported from the key directory and signed locally.
    Public,
}

/// Whether editing a resource that does not exist creates it.
#[derive(Debug, Clone, Copy, PartialEq, Eq, PartialOrd, Ord, Hash)]
pub enum CreateMode {
    Create,
    NoCreate,
}

impl WriteMode {
    /// Whether an existing file stops the write.
    pub fn refuse_overwrite(self) -> (r: bool)
        ensures
            r == (self is RefuseOverwrite),
    {
        match self {
            WriteMode::AllowOverwrite => false,
            WriteMode::RefuseOverwrite => true,
        }
    }
}

/// What the vault is asked to do.
#[derive(Debug, Clone, PartialEq, Eq)]
pub enum VaultCommand {
    /// Edit a resource in place with an editor.
    ResourceEdit { editor: String, try_encrypt: bool, spec: String, mode: CreateMode },
    /// Decrypt a resource and show it.
    ResourceShow { spec: String },
    /// Encrypt resources into the vault.
    ResourceAdd { specs: Vec<VaultSpec> },
    /// Remove resources from the vault.
    ResourceRemove { specs: Vec<String> },
    /// Set up a new vault.
    Init {
        name: Option<String>,
        trust_model: Option<TrustModel>,
        auto_import: Option<bool>,
        gpg_key_ids: Vec<String>,
        gpg_keys_dir: String,
        secrets: String,
        recipients_file: String,
    },
    /// List the recipients.
    RecipientsList,
    /// Export the user's own public keys into the key directory.
    RecipientsInit { gpg_key_ids: Vec<String> },
    /// Take recipients off the list and encrypt everything anew.
    RecipientsRemove { gpg_key_ids: Vec<String>, partitions: Vec<String> },
    /// Put recipients on the list and encrypt everything anew.
    RecipientsAdd {
        partitions: Vec<String>,
        gpg_key_ids: Vec<String>,
        signing_key_id: Option<String>,
        sign: SigningMode,
    },
    /// Take a partition out of the descriptor.
    PartitionsRemove { selector: String },
    /// Add a partition to the descriptor.
    PartitionsAdd {
        recipients_file: Option<String>,
        gpg_key_ids: Vec<String>,
        name: Option<String>,
        path: String,
    },
    /// List the resources.
    List,
}

/// A command together with the descriptor and the vault in it that the
/// command is meant for.
#[derive(Debug, Clone, PartialEq, Eq)]
pub struct VaultContext {
    pub vault_path: String,
    pub vault_selector: String,
    pub command: VaultCommand,
}

/// The file that values are extracted from.
#[derive(Debug, Clone, PartialEq, Eq, PartialOrd, Ord, Hash)]
pub struct ExtractionContext {
    pub file_path: String,
}

} // verus!
