//! What can go wrong inside the vault's rules, with the text shown for it.

use crate::text::concat2;
use crate::text::concat3;
use crate::text::decimal;
use crate::text::decimal_text;
use crate::text::join_texts;
use crate::text::joined;
use crate::text::texts;
use vstd::prelude::*;

verus! {

/// A violated rule, with the path, selector or index that violated it.
#[derive(Debug, Clone, PartialEq, Eq)]
pub enum Error {
    /// The path has no final component to name a file with.
    NoFilename { path: String },
    /// The descriptor's path has no directory above it.
    InvalidVaultPath { path: String },
    /// One partition's secrets directory lies inside another's.
    NestedPartition { inner: String, outer: String },
    /// Two partitions share one recipients file.
    RecipientsPathReused { path: String },
    /// No vault of the descriptor names a directory for public keys.
    NoGpgKeysDir { vault_path: String },
    /// The selector names the leader, which cannot be removed.
    RefuseRemoveLeader { index: usize },
    /// No partition has the index that the selector gives.
    PartitionIndexNotFound { index: usize },
    /// The selector fits more than one partition.
    AmbiguousSelector { selector: String },
    /// The selector fits no partition.
    NoPartitionMatched { selector: String },
    /// The leader's secrets directory has no directory above it.
    NoSecretsParent { secrets: String },
    /// The leader's recipients path has no final component.
    NoRecipientsFilename { recipients: String },
    /// The path lies under no partition's secrets directory.
    UnownedPath { path: String },
    /// Every index is taken, so a new partition cannot get the next one.
    NoIndexLeft,
    /// A vault that is to get partitions keeps its secrets beside the
    /// descriptor.
    FirstPartitionNeedsSecretsDir,
    /// Neither a key file nor the keychain has a key for the fingerprint.
    FingerprintNotFound { fingerprint: String },
    /// The directory to fill holds something already.
    NonEmptyDirectory { dir: String },
    /// The recipients file of a new vault exists already.
    RecipientsFileExists { path: String },
    /// Keys are missing from the keychain; the message names them.
    MissingKeys { message: String },
    /// No key file in the key directory ends with the fingerprint.
    KeyFileNotFound { pattern: String, dir: String },
    /// More than one key file in the key directory ends with the fingerprint.
    KeyFileAmbiguous { count: usize, pattern: String, dir: String },
    /// The recipients file lists nobody.
    NoRecipients { path: String },
    /// The recipients list is empty where the signer has to be on it.
    EmptyRecipients,
    /// No secret key is fit to sign with.
    NoSigningKey,
    /// More than one secret key is fit to sign with.
    AmbiguousSigningKeys { keys: Vec<String> },
    /// The keychain stopped listing keys before the end.
    KeyListTruncated,
    /// The keychain holds no secret key.
    NoSecretKey,
    /// Several secret keys are there and none was asked for by id.
    AmbiguousSecretKeys { count: usize, keys: String },
    /// The ids resolved to another number of keys than there are ids.
    KeyCountMismatch { found: usize, keys: String, asked: usize },
    /// Fewer keys came out of an import than were asked for.
    FewerKeysImported,
    /// A key file brought keys that nobody asked for.
    SneakedKeys { fingerprints: Vec<String> },
    /// Keys that are to be removed are no recipients.
    NotRecipients { keys: Vec<String> },
    /// Removing the user would leave no recipient.
    RecipientsWouldBeEmpty { user: String, path: String },
    /// The key carries no fingerprint.
    NoFingerprint,
    /// The fingerprint is shorter than 8 or longer than 40 bytes.
    FingerprintLength { id: String },
    /// The fingerprint holds a character that is no hexadecimal digit.
    FingerprintChars { id: String },
    /// Neither the ciphertext nor the file as named is there to remove.
    NoFilePresent { path: String },
    /// Two specs of one call would be written to the same file.
    DuplicateDestination { path: String },
    /// The file to write exists and may not be written over.
    RefuseOverwrite { path: String },
    /// The descriptor exists and may not be written over.
    ConfigurationFileExists { path: String },
    /// No template spec was given.
    NoSpecs,
    /// More than one template is read from standard input.
    ManyStdinSpecs,
    /// Data and a template are both read from standard input.
    DataAndTemplateFromStdin,
    /// A template would be written over by its own output.
    OverwritesInput { src: String },
    /// The name stands for no template engine.
    UnknownEngine { name: String },
    /// The name stands for no output mode.
    InvalidOutputMode { name: String },
    /// Standard input is merged more than once.
    ManyStdinMerges { count: usize },
    /// The descriptor's text is no YAML.
    InvalidYaml,
    /// The descriptor could not be read.
    ReadFile { path: String },
    /// The descriptor could not be written.
    WriteFile { path: String },
    /// The descriptor's text is no vault.
    Deserialization { path: String },
    /// The vault could not be turned into text.
    Serialization { path: String },
    /// A partition was asked to write the descriptor.
    PartitionUnsupported,
    /// The vault does not know the file it was read from.
    UnknownVaultPath,
}

impl Error {
    /// The text of the error in contracts.
    pub open spec fn message_text(self) -> Seq<char> {
        match self {
            Error::NoFilename { path } => "'"@ + path@ + "' does not have a filename"@,
            Error::InvalidVaultPath { path } => "The vault file path '"@ + path@ + "' is invalid."@,
            Error::NestedPartition { inner, outer } => "Partition at '"@ + inner@
                + "' is contained in another partitions resources directory at '"@ + outer@ + "'"@,
            Error::RecipientsPathReused { path } => "Recipients path '"@ + path@
                + "' is already used, but must be unique across all partitions"@,
            Error::NoGpgKeysDir { vault_path } => "The vault at '"@ + vault_path@
                + "' does not have a gpg_keys directory configured."@,
            Error::RefuseRemoveLeader { index } => "Refusing to remove the leading partition at index "@
                + decimal_text(index as nat),
            Error::PartitionIndexNotFound { index } => "Could not find partition with index "@
                + decimal_text(index as nat),
            Error::AmbiguousSelector { selector } => "Multiple partitions matched the ambiguous selector '"@
                + selector@ + "'"@,
            Error::NoPartitionMatched { selector } => "No partition matched the given selector '"@
                + selector@ + "'"@,
            Error::NoSecretsParent { secrets } => "Expected vault to have secrets directory ('"@
                + secrets@ + "') from which a parent directory can be obtained."@,
            Error::NoRecipientsFilename { recipients } => "Expected vault to have a recipients file ('"@
                + recipients@ + "') from which a filename can be obtained"@,
            Error::UnownedPath { path } => "Path '"@ + path@
                + "' could not be associated with any partition. Prefix it with the partition resource directory."@,
            Error::NoIndexLeft => "Cannot add a partition as no index is left for it"@,
            Error::FirstPartitionNeedsSecretsDir =>
                "If --first-partition is present, --secrets-dir must not be set to '.' or left unset"@,
            Error::FingerprintNotFound { fingerprint } => "Could not find fingerprint '"@
                + fingerprint@ + "', tried local file as well as gpg keychain."@,
            Error::NonEmptyDirectory { dir } => "Refusing to write into non-empty directory at '"@
                + dir@ + "'"@,
            Error::RecipientsFileExists { path } => "Cannot write recipients into existing file at '"@
                + path@ + "'"@,
            Error::MissingKeys { message } => message@,
            Error::KeyFileNotFound { pattern, dir } =>
                "Did not find key file matching glob pattern '"@ + pattern@ + "' in directory '"@
                    + dir@ + "'."@,
            Error::KeyFileAmbiguous { count, pattern, dir } => "Found "@ + decimal_text(count as nat)
                + " matching key files for glob pattern '"@ + pattern@ + "' in directory '"@ + dir@
                + "', but expected just one."@,
            Error::NoRecipients { path } => "No recipients found in recipients file at '"@ + path@
                + "'."@,
            Error::EmptyRecipients =>
                "The recipients list is empty, but you are expected to be on that list."@,
            Error::NoSigningKey => "Didn't find a single secret key suitable to sign keys."@,
            Error::AmbiguousSigningKeys { keys } =>
                "Multiple keys are suitable for signing, which is ambiguous.\n"@ + joined(
                    texts(keys@),
                    "\n"@,
                ),
            Error::KeyListTruncated => "The key list was truncated unexpectedly, while iterating it"@,
            Error::NoSecretKey =>
                "No existing GPG key found for which you have a secret key. Please create one with 'gpg --gen-key' and try again."@,
            Error::AmbiguousSecretKeys { count, keys } => "Found "@ + decimal_text(count as nat)
                + " viable keys for key-ids ("@ + keys@
                + "), which is ambiguous. Please specify one with the --gpg-key-id argument."@,
            Error::KeyCountMismatch { found, keys, asked } => "Found "@ + decimal_text(found as nat)
                + " viable keys for key-ids ("@ + keys@ + "), for "@ + decimal_text(asked as nat)
                + " given user ids."@,
            Error::FewerKeysImported => "It should not be possible to successfully import less keys than specified."@,
            Error::SneakedKeys { fingerprints } =>
                "One of the imported key-files contained more than one recipient.\nThis might mean somebody trying to sneak in their key. The offending fingerprints are listed below\n"@
                    + joined(texts(fingerprints@), "\n"@),
            Error::NotRecipients { keys } =>
                "The following key(s) for removal could not be found in the recipients list.\n"@
                    + joined(texts(keys@), "\n"@),
            Error::RecipientsWouldBeEmpty { user, path } => "Cannot remove user "@ + user@ + " from '"@
                + path@ + "' as it would be empty afterwards."@,
            Error::NoFingerprint => "Fingerprint extraction failed"@,
            Error::FingerprintLength { id } => "Fingerprint '"@ + id@
                + "' must be between 8 and 40 characters long."@,
            Error::FingerprintChars { id } => "Fingerprint '"@ + id@
                + "' must only contain characters a-f, A-F and 0-9."@,
            Error::NoFilePresent { path } => "No file present at '"@ + path@ + "'"@,
            Error::DuplicateDestination { path } => "Refusing to write more than once to file at '"@
                + path@ + "'"@,
            Error::RefuseOverwrite { path } => "Refusing to overwrite existing file at '"@ + path@
                + "'"@,
            Error::ConfigurationFileExists { path } =>
                "Cannot overwrite vault configuration file as it already exists at '"@ + path@
                    + "'\n"@,
            Error::NoSpecs => "No spec provided, neither from standard input, nor from file"@,
            Error::ManyStdinSpecs => "Cannot read more than one template spec from standard input"@,
            Error::DataAndTemplateFromStdin =>
                "Data is read from standard input, as well as one template. Please choose one"@,
            Error::OverwritesInput { src } => "Refusing to overwrite input file at '"@ + src@
                + "' with output"@,
            Error::UnknownEngine { name } => "Engine named '"@ + name@ + "' is unknown"@,
            Error::InvalidOutputMode { name } => "Not a valid output mode: '"@ + name@ + "'"@,
            Error::ManyStdinMerges { count } => "Cannot read from stdin more than once, found "@
                + decimal_text(count as nat) + " invocations"@,
            Error::InvalidYaml => "YAML deserialization failed"@,
            Error::ReadFile { path } => "Failed to read vault configuration file at '"@ + path@
                + "'\n"@,
            Error::WriteFile { path } => "Failed to write vault configuration file at '"@ + path@
                + "'\n"@,
            Error::Deserialization { path } => "Failed to deserialize vault configuration file at '"@
                + path@ + "'\n"@,
            Error::Serialization { path } => "Failed to serialize vault configuration file at '"@
                + path@ + "'\n"@,
            Error::PartitionUnsupported => "Cannot perform this operation on a partition"@,
            Error::UnknownVaultPath => "Expected vault to know its configuration file"@,
        }
    }

    /// The text to show for the error.
    pub fn to_string(&self) -> (r: String)
        ensures
            r@ == self.message_text(),
    {
        match self {
            Error::NoFilename { path } => concat3("'", path.as_str(), "' does not have a filename"),
            Error::InvalidVaultPath { path } => concat3(
                "The vault file path '",
                path.as_str(),
                "' is invalid.",
            ),
            Error::NestedPartition { inner, outer } => {
                let head = concat3(
                    "Partition at '",
                    inner.as_str(),
                    "' is contained in another partitions resources directory at '",
                );
                concat3(head.as_str(), outer.as_str(), "'")
            },
            Error::RecipientsPathReused { path } => concat3(
                "Recipients path '",
                path.as_str(),
                "' is already used, but must be unique across all partitions",
            ),
            Error::NoGpgKeysDir { vault_path } => concat3(
                "The vault at '",
                vault_path.as_str(),
                "' does not have a gpg_keys directory configured.",
            ),
            Error::RefuseRemoveLeader { index } => {
                let n = decimal(*index);
                concat2("Refusing to remove the leading partition at index ", n.as_str())
            },
            Error::PartitionIndexNotFound { index } => {
                let n = decimal(*index);
                concat2("Could not find partition with index ", n.as_str())
            },
            Error::AmbiguousSelector { selector } => concat3(
                "Multiple partitions matched the ambiguous selector '",
                selector.as_str(),
                "'",
            ),
            Error::NoPartitionMatched { selector } => concat3(
                "No partition matched the given selector '",
                selector.as_str(),
                "'",
            ),
            Error::NoSecretsParent { secrets } => concat3(
                "Expected vault to have secrets directory ('",
                secrets.as_str(),
                "') from which a parent directory can be obtained.",
            ),
            Error::NoRecipientsFilename { recipients } => concat3(
                "Expected vault to have a recipients file ('",
                recipients.as_str(),
                "') from which a filename can be obtained",
            ),
            Error::UnownedPath { path } => concat3(
                "Path '",
                path.as_str(),
                "' could not be associated with any partition. Prefix it with the partition resource directory.",
            ),
            Error::NoIndexLeft => "Cannot add a partition as no index is left for it".to_string(),
            Error::FirstPartitionNeedsSecretsDir => "If --first-partition is present, --secrets-dir must not be set to '.' or left unset".to_string(),
            Error::FingerprintNotFound { fingerprint } => concat3(
                "Could not find fingerprint '",
                fingerprint.as_str(),
                "', tried local file as well as gpg keychain.",
            ),
            Error::NonEmptyDirectory { dir } => concat3(
                "Refusing to write into non-empty directory at '",
                dir.as_str(),
                "'",
            ),
            Error::RecipientsFileExists { path } => concat3(
                "Cannot write recipients into existing file at '",
                path.as_str(),
                "'",
            ),
            Error::MissingKeys { message } => message.clone(),
            Error::KeyFileNotFound { pattern, dir } => {
                let head = concat3(
                    "Did not find key file matching glob pattern '",
                    pattern.as_str(),
                    "' in directory '",
                );
                concat3(head.as_str(), dir.as_str(), "'.")
            },
            Error::KeyFileAmbiguous { count, pattern, dir } => {
                let n = decimal(*count);
                let head = concat3("Found ", n.as_str(), " matching key files for glob pattern '");
                let mid = concat3(head.as_str(), pattern.as_str(), "' in directory '");
                concat3(mid.as_str(), dir.as_str(), "', but expected just one.")
            },
            Error::NoRecipients { path } => concat3(
                "No recipients found in recipients file at '",
                path.as_str(),
                "'.",
            ),
            Error::EmptyRecipients => "The recipients list is empty, but you are expected to be on that list.".to_string(),
            Error::NoSigningKey => "Didn't find a single secret key suitable to sign keys.".to_string(),
            Error::AmbiguousSigningKeys { keys } => {
                let list = join_texts(keys, "\n");
                concat2("Multiple keys are suitable for signing, which is ambiguous.\n", list.as_str())
            },
            Error::KeyListTruncated => "The key list was truncated unexpectedly, while iterating it".to_string(),
            Error::NoSecretKey => "No existing GPG key found for which you have a secret key. Please create one with 'gpg --gen-key' and try again.".to_string(),
            Error::AmbiguousSecretKeys { count, keys } => {
                let n = decimal(*count);
                let head = concat3("Found ", n.as_str(), " viable keys for key-ids (");
                concat3(
                    head.as_str(),
                    keys.as_str(),
                    "), which is ambiguous. Please specify one with the --gpg-key-id argument.",
                )
            },
            Error::KeyCountMismatch { found, keys, asked } => {
                let n = decimal(*found);
                let m = decimal(*asked);
                let head = concat3("Found ", n.as_str(), " viable keys for key-ids (");
                let mid = concat3(head.as_str(), keys.as_str(), "), for ");
                concat3(mid.as_str(), m.as_str(), " given user ids.")
            },
            Error::FewerKeysImported => "It should not be possible to successfully import less keys than specified.".to_string(),
            Error::SneakedKeys { fingerprints } => {
                let list = join_texts(fingerprints, "\n");
                concat2(
                    "One of the imported key-files contained more than one recipient.\nThis might mean somebody trying to sneak in their key. The offending fingerprints are listed below\n",
                    list.as_str(),
                )
            },
            Error::NotRecipients { keys } => {
                let list = join_texts(keys, "\n");
                concat2(
                    "The following key(s) for removal could not be found in the recipients list.\n",
                    list.as_str(),
                )
            },
            Error::RecipientsWouldBeEmpty { user, path } => {
                let head = concat3("Cannot remove user ", user.as_str(), " from '");
                concat3(head.as_str(), path.as_str(), "' as it would be empty afterwards.")
            },
            Error::NoFingerprint => "Fingerprint extraction failed".to_string(),
            Error::FingerprintLength { id } => concat3(
                "Fingerprint '",
                id.as_str(),
                "' must be between 8 and 40 characters long.",
            ),
            Error::FingerprintChars { id } => concat3(
                "Fingerprint '",
                id.as_str(),
                "' must only contain characters a-f, A-F and 0-9.",
            ),
            Error::NoFilePresent { path } => concat3("No file present at '", path.as_str(), "'"),
            Error::DuplicateDestination { path } => concat3(
                "Refusing to write more than once to file at '",
                path.as_str(),
                "'",
            ),
            Error::RefuseOverwrite { path } => concat3(
                "Refusing to overwrite existing file at '",
                path.as_str(),
                "'",
            ),
            Error::ConfigurationFileExists { path } => concat3(
                "Cannot overwrite vault configuration file as it already exists at '",
                path.as_str(),
                "'\n",
            ),
            Error::NoSpecs => "No spec provided, neither from standard input, nor from file".to_string(),
            Error::ManyStdinSpecs => "Cannot read more than one template spec from standard input".to_string(),
            Error::DataAndTemplateFromStdin => "Data is read from standard input, as well as one template. Please choose one".to_string(),
            Error::OverwritesInput { src } => concat3(
                "Refusing to overwrite input file at '",
                src.as_str(),
                "' with output",
            ),
            Error::UnknownEngine { name } => concat3("Engine named '", name.as_str(), "' is unknown"),
            Error::InvalidOutputMode { name } => concat3(
                "Not a valid output mode: '",
                name.as_str(),
                "'",
            ),
            Error::ManyStdinMerges { count } => {
                let n = decimal(*count);
                concat3("Cannot read from stdin more than once, found ", n.as_str(), " invocations")
            },
            Error::InvalidYaml => "YAML deserialization failed".to_string(),
            Error::ReadFile { path } => concat3(
                "Failed to read vault configuration file at '",
                path.as_str(),
                "'\n",
            ),
            Error::WriteFile { path } => concat3(
                "Failed to write vault configuration file at '",
                path.as_str(),
                "'\n",
            ),
            Error::Deserialization { path } => concat3(
                "Failed to deserialize vault configuration file at '",
                path.as_str(),
                "'\n",
            ),
            Error::Serialization { path } => concat3(
                "Failed to serialize vault configuration file at '",
                path.as_str(),
                "'\n",
            ),
            Error::PartitionUnsupported => "Cannot perform this operation on a partition".to_string(),
            Error::UnknownVaultPath => "Expected vault to know its configuration file".to_string(),
        }
    }
}

/// Whether a file was being read or written when an operation on it failed.
#[derive(Debug, Clone, Copy, PartialEq, Eq)]
pub enum IOMode {
    Read,
    Write,
}

impl Error {
    /// The error for a failed read or write of the descriptor at `path`.
    pub fn from_io_err(path: &str, mode: &IOMode) -> (r: Error)
        ensures
            mode is Write ==> r is WriteFile && r->WriteFile_path@ == path@,
            mode is Read ==> r is ReadFile && r->ReadFile_path@ == path@,
    {
        match mode {
            IOMode::Write => Error::WriteFile { path: path.to_string() },
            IOMode::Read => Error::ReadFile { path: path.to_string() },
        }
    }
}

} // verus!
