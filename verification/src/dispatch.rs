//! From a command to the work it stands for, and from a failure to the text
//! shown for it.

use crate::crypt::ProviderFailure;
use crate::error::Error;
use crate::load::assemble;
use crate::load::loaded_from;
use crate::partitions::leads;
use crate::partitions::picked_index;
use crate::partitions::position_of_index;
use crate::partitions::refusal_fits;
use crate::partitions::select_vault;
use crate::paths::path_parent;
use crate::text::concat2;
use crate::text::concat3;
use crate::text::decimal;
use crate::text::decimal_text;
use crate::text::texts;
use crate::types::Destination;
use crate::types::VaultCommand;
use crate::types::WriteMode;
use crate::vault::Vault;
use vstd::prelude::*;

verus! {

/// Whether a command works on a vault that is read from the descriptor.
/// Setting up a new vault is the one that does not.
pub fn loads_vault(command: &VaultCommand) -> (r: bool)
    ensures
        r == !(*command is Init),
{
    match command {
        VaultCommand::Init { .. } => false,
        _ => true,
    }
}

/// How a command writes ciphertext, where it writes any: adding refuses to
/// write over a file and resolves the destination inside the vault, editing
/// writes over the file that it was given.
pub fn write_settings(command: &VaultCommand) -> (r: Option<(WriteMode, Destination)>)
    ensures
        *command is ResourceAdd ==> r == Some(
            (WriteMode::RefuseOverwrite, Destination::ReolveAndAppendGpg),
        ),
        *command is ResourceEdit ==> r == Some((WriteMode::AllowOverwrite, Destination::Unchanged)),
        !(*command is ResourceAdd) && !(*command is ResourceEdit) ==> r is None,
{
    match command {
        VaultCommand::ResourceAdd { .. } => Some(
            (WriteMode::RefuseOverwrite, Destination::ReolveAndAppendGpg),
        ),
        VaultCommand::ResourceEdit { .. } => Some((WriteMode::AllowOverwrite, Destination::Unchanged)),
        _ => None,
    }
}

/// Whether `r` is what selecting from the loaded vaults comes to: the error
/// of a selector that picks none; or the picked vault leading the others,
/// where that keeps the rules across them; or else the error of the rule
/// that is broken.
pub open spec fn selected_from(r: Result<Vault, Error>, list: Seq<Vault>, selector: Seq<char>) -> bool {
    match picked_index(list, selector, None) {
        None => r is Err && refusal_fits(r->Err_0, list, selector, None),
        Some(n) => {
            let pos = position_of_index(list, n, 0);
            if r is Ok {
                leads(r->Ok_0, list, pos) && r->Ok_0.valid()
            } else {
                exists|leader: Vault| #[trigger]
                    leads(leader, list, pos) && !leader.valid() && leader.broken_rule_fits(r->Err_0)
            }
        },
    }
}

/// The vault to work on: the vaults read from the documents of the
/// descriptor at `vault_path` are completed, the one that the selector picks
/// leads the others, and the rules across them must hold.
pub fn vault_from(vaults: Vec<Vault>, vault_path: &str, vault_selector: &str) -> (r: Result<Vault, Error>)
    ensures
        vaults@.len() > 0 && path_parent(vault_path@) is None ==> r is Err && r->Err_0
            is InvalidVaultPath && r->Err_0->InvalidVaultPath_path@ == vault_path@,
        vaults@.len() == 0 || path_parent(vault_path@) is Some ==> exists|list: Seq<Vault>|
            #![trigger selected_from(r, list, vault_selector@)]
            list.len() == vaults@.len() && (forall|i: int|
                0 <= i < list.len() ==> loaded_from(#[trigger] list[i], vaults@[i], vault_path@, i))
                && selected_from(r, list, vault_selector@),
        r is Ok ==> r->Ok_0.valid() && r->Ok_0.kind is Leader,
{
    let list = match assemble(vaults, vault_path) {
        Ok(list) => list,
        Err(e) => {
            return Err(e);
        },
    };
    let ghost loaded = list@;
    let vault = match select_vault(list, vault_selector) {
        Ok(v) => v,
        Err(e) => {
            let r = Err(e);
            assert(selected_from(r, loaded, vault_selector@));
            return r;
        },
    };
    match vault.validate() {
        Ok(_) => {
            let r = Ok(vault);
            assert(selected_from(r, loaded, vault_selector@));
            r
        },
        Err(e) => {
            let ghost n = picked_index(loaded, vault_selector@, None)->Some_0;
            assert(leads(vault, loaded, position_of_index(loaded, n, 0)));
            let r = Err(e);
            assert(selected_from(r, loaded, vault_selector@));
            r
        },
    }
}

/// What a failure is made of, from the outermost description to the first
/// cause.
#[derive(Debug, Clone, PartialEq, Eq)]
pub enum Cause {
    /// Content was not encrypted for the user.
    NotForYou,
    /// The OpenPGP provider failed.
    Provider(ProviderFailure),
    /// Anything else.
    Other,
}

/// Whether one of the causes is content that was not encrypted for the user.
pub open spec fn has_not_for_you(causes: Seq<Cause>) -> bool {
    exists|i: int| 0 <= i < causes.len() && #[trigger] causes[i] is NotForYou
}

/// The hint for a user whom content was not encrypted for, where one of the
/// causes of a failure says so: how to become a recipient, with the name of
/// the program to call.
pub fn amend_error_info(causes: &Vec<Cause>, program: &str) -> (r: Option<String>)
    ensures
        has_not_for_you(causes@) ==> r is Some && r->Some_0@ == "Export your public key using '"@
            + program@
            + " vault recipient init', then ask one of the existing recipients to import your public key using '"@
            + program@ + " vault recipients add <your-userid>.'"@,
        !has_not_for_you(causes@) ==> r is None,
{
    let mut i: usize = 0;
    while i < causes.len()
        invariant
            i <= causes.len(),
            forall|j: int| 0 <= j < i ==> !(#[trigger] causes@[j] is NotForYou),
        decreases causes.len() - i,
    {
        match &causes[i] {
            Cause::NotForYou => {
                let head = concat3(
                    "Export your public key using '",
                    program,
                    " vault recipient init', then ask one of the existing recipients to import your public key using '",
                );
                return Some(concat3(head.as_str(), program, " vault recipients add <your-userid>.'"));
            },
            _ => {},
        }
        i = i + 1;
    }
    None
}

/// The first position from `from` on of a failure of the provider; the
/// number of causes where there is none.
pub open spec fn first_provider_failure(causes: Seq<Cause>, from: int) -> int
    decreases causes.len() - from,
{
    if from < 0 || from >= causes.len() {
        causes.len() as int
    } else if causes[from] is Provider {
        from
    } else {
        first_provider_failure(causes, from + 1)
    }
}

/// The hint for a provider that is missing or too old, where the first
/// failure of the provider among the causes says so.
pub fn provider_hint(causes: &Vec<Cause>) -> (r: Option<&'static str>)
    ensures
        ({
            let k = first_provider_failure(causes@, 0);
            if k < causes@.len() && causes@[k]->Provider_0 is NotSupported {
                r is Some && r->Some_0@
                    == "The GNU Privacy Guard (GPG) does not supported the attempted operation.\nGPG v2 is known to work, and you can install it here:\nhttps://www.gnupg.org for more information."@
            } else if k < causes@.len() && causes@[k]->Provider_0 is UnsupportedProtocol {
                r is Some && r->Some_0@
                    == "The GNU Privacy Guard (GPG) is not available on your system.\nPlease install it and try again.\nSee https://www.gnupg.org for more information."@
            } else {
                r is None
            }
        }),
{
    let mut i: usize = 0;
    while i < causes.len()
        invariant
            i <= causes.len(),
            first_provider_failure(causes@, 0) == first_provider_failure(causes@, i as int),
        decreases causes.len() - i,
    {
        match &causes[i] {
            Cause::Provider(failure) => {
                return match failure {
                    ProviderFailure::NotSupported => Some(
                        "The GNU Privacy Guard (GPG) does not supported the attempted operation.\nGPG v2 is known to work, and you can install it here:\nhttps://www.gnupg.org for more information.",
                    ),
                    ProviderFailure::UnsupportedProtocol => Some(
                        "The GNU Privacy Guard (GPG) is not available on your system.\nPlease install it and try again.\nSee https://www.gnupg.org for more information.",
                    ),
                    _ => None,
                };
            },
            _ => {},
        }
        i = i + 1;
    }
    None
}

/// The first `n` causes as they are shown: the first on a line of its own,
/// followed by `Caused by: ` where there are more, and each further one
/// numbered by how many causes are still to come, itself included.
pub open spec fn causes_text(causes: Seq<Seq<char>>, n: int) -> Seq<char>
    decreases n,
{
    if n <= 0 {
        Seq::empty()
    } else if n == 1 {
        causes[0] + "\n"@ + (if causes.len() > 1 {
            "Caused by: \n"@
        } else {
            Seq::empty()
        })
    } else {
        causes_text(causes, n - 1) + " "@ + decimal_text((causes.len() - (n - 1)) as nat) + ": "@
            + causes[n - 1] + "\n"@
    }
}

/// Writes the causes of a failure, the most specific first.
pub fn print_causes(causes: &Vec<String>) -> (r: String)
    ensures
        r@ == causes_text(texts(causes@), causes@.len() as int),
{
    let mut out = String::new();
    let n = causes.len();
    let mut i: usize = 0;
    while i < n
        invariant
            i <= n,
            n == causes@.len(),
            out@ == causes_text(texts(causes@), i as int),
        decreases n - i,
    {
        let ghost before = out@;
        assert(texts(causes@)[i as int] == causes@[i as int]@);
        if i == 0 {
            out.append(causes[i].as_str());
            out.append("\n");
            if n > 1 {
                out.append("Caused by: \n");
                assert(out@ =~= causes@[0]@ + "\n"@ + "Caused by: \n"@);
            } else {
                assert(out@ =~= causes@[0]@ + "\n"@ + Seq::<char>::empty());
            }
        } else {
            let left = decimal(n - i);
            out.append(" ");
            out.append(left.as_str());
            out.append(": ");
            out.append(causes[i].as_str());
            out.append("\n");
            assert(out@ =~= before + " "@ + decimal_text((n - i) as nat) + ": "@ + causes@[i as int]@
                + "\n"@);
        }
        i = i + 1;
    }
    out
}

} // verus!
