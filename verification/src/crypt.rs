//! What the vault makes of the answers of the OpenPGP provider.

use crate::keys::KeyInfo;
use crate::text::concat2;
use crate::text::concat3;
use crate::text::texts;
use crate::vault::TrustModel;
use crate::vault::Vault;
use vstd::prelude::*;

verus! {

/// The failures of the OpenPGP provider that the vault tells apart.
#[derive(Debug, Clone, Copy, PartialEq, Eq)]
pub enum ProviderFailure {
    /// No secret key is available for the content.
    NoSecretKey,
    /// A public key may not be used, for want of trust.
    UnusablePublicKey,
    /// The provider does not support the operation.
    NotSupported,
    /// The provider does not support OpenPGP, or is not installed.
    UnsupportedProtocol,
    /// Anything else.
    Other,
}

/// Why content could not be decrypted.
#[derive(Debug, Clone, PartialEq, Eq)]
pub enum DecryptionError {
    /// The content was not encrypted for any secret key at hand.
    NotForYou,
    /// Another failure, with the text that describes what was attempted.
    Other(String),
}

impl DecryptionError {
    /// Tells a missing secret key from every other failure to decrypt.
    pub fn caused_by(failure: ProviderFailure, alternative_text: &str) -> (r: DecryptionError)
        ensures
            failure is NoSecretKey ==> r is NotForYou,
            !(failure is NoSecretKey) ==> r is Other && r->Other_0@ == alternative_text@,
    {
        match failure {
            ProviderFailure::NoSecretKey => DecryptionError::NotForYou,
            _ => DecryptionError::Other(alternative_text.to_string()),
        }
    }

    /// The text of the failure in contracts.
    pub open spec fn message_text(self) -> Seq<char> {
        match self {
            DecryptionError::NotForYou => "The content was not encrypted for you."@,
            DecryptionError::Other(text) => text@,
        }
    }

    /// The text to show for the failure.
    pub fn to_string(&self) -> (r: String)
        ensures
            r@ == self.message_text(),
    {
        match self {
            DecryptionError::NotForYou => "The content was not encrypted for you.".to_string(),
            DecryptionError::Other(text) => text.clone(),
        }
    }
}

/// Why content could not be encrypted, with a line for each recipient that
/// cannot be encrypted for.
#[derive(Debug, Clone, PartialEq, Eq)]
pub struct EncryptionError {
    pub msg: String,
    pub offending_recipients: Vec<String>,
}

/// The first `n` lines, each after a line feed.
pub open spec fn appended_lines(lines: Seq<Seq<char>>, n: int) -> Seq<char>
    decreases n,
{
    if n <= 0 {
        Seq::empty()
    } else {
        appended_lines(lines, n - 1) + "\n"@ + lines[n - 1]
    }
}

impl EncryptionError {
    /// Describes a failure to encrypt: an unusable public key is explained,
    /// any other failure gets the text that describes what was attempted.
    pub fn caused_by(failure: ProviderFailure, alternative_text: String, offending_recipients: Vec<String>) -> (r:
        EncryptionError)
        ensures
            r.offending_recipients == offending_recipients,
            failure is UnusablePublicKey ==> r.msg@
                == "At least one recipient you try to encrypt for is untrusted. Consider (locally) signing the key with `gpg --sign-key <recipient>` or ultimately trusting them."@,
            !(failure is UnusablePublicKey) ==> r.msg@ == alternative_text@,
    {
        let msg = match failure {
            ProviderFailure::UnusablePublicKey => "At least one recipient you try to encrypt for is untrusted. Consider (locally) signing the key with `gpg --sign-key <recipient>` or ultimately trusting them.".to_string(),
            _ => alternative_text,
        };
        EncryptionError { msg, offending_recipients }
    }

    /// The text of the failure in contracts: the message, then each
    /// offending recipient on a line of its own.
    pub open spec fn message_text(self) -> Seq<char> {
        self.msg@ + appended_lines(
            texts(self.offending_recipients@),
            self.offending_recipients@.len() as int,
        )
    }

    /// The text to show for the failure.
    pub fn to_string(&self) -> (r: String)
        ensures
            r@ == self.message_text(),
    {
        let mut out = self.msg.clone();
        let mut i: usize = 0;
        while i < self.offending_recipients.len()
            invariant
                i <= self.offending_recipients.len(),
                out@ == self.msg@ + appended_lines(texts(self.offending_recipients@), i as int),
            decreases self.offending_recipients.len() - i,
        {
            let ghost before = out@;
            assert(texts(self.offending_recipients@)[i as int] == self.offending_recipients@[i as int]@);
            out.append("\n");
            out.append(self.offending_recipients[i].as_str());
            assert(out@ =~= self.msg@ + (appended_lines(texts(self.offending_recipients@), i as int)
                + "\n"@ + self.offending_recipients@[i as int]@));
            i = i + 1;
        }
        out
    }
}

/// The line that reports a recipient that cannot be encrypted for, with the
/// provider's words for the reason.
pub fn offender_line(key: &KeyInfo, reason: &str) -> (r: String)
    ensures
        r@ == "Could not encrypt for recipient "@ + key.fingerprint_first() + " with error: "@
            + reason@,
{
    let head = concat2("Could not encrypt for recipient ", key.fingerprint_user_id().as_str());
    concat3(head.as_str(), " with error: ", reason)
}

/// Whether the provider is told to skip its trust check: only where every
/// key is to be trusted always.
pub fn flags_for_model(model: &TrustModel) -> (no_trust_check: bool)
    ensures
        no_trust_check == (*model is Always),
{
    match model {
        TrustModel::GpgWebOfTrust => false,
        TrustModel::Always => true,
    }
}

impl Vault {
    /// Whether the provider is to skip its trust check when a buffer is
    /// encrypted for `partition`: where the trust model of the partition, or
    /// else of this vault, or else the web of trust, is to trust always.
    pub fn encrypt_buffer(&self, partition: &Vault) -> (no_trust_check: bool)
        ensures
            no_trust_check == (self.trust_model_for(*partition) is Always),
    {
        let model = self.find_trust_model(partition);
        flags_for_model(&model)
    }
}

} // verus!
