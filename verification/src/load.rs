//! Reading the vaults of a descriptor.

use crate::error::Error;
use crate::paths::join_paths;
use crate::paths::normalized;
use crate::paths::opt_text;
use crate::paths::parent_of;
use crate::paths::path_join;
use crate::paths::path_parent;
use crate::vault::TrustModel;
use crate::vault::Vault;
use crate::vault::VaultKind;
use vstd::prelude::*;
use yaml_rust::Yaml;
use yaml_rust::YamlEmitter;
use yaml_rust::YamlLoader;

verus! {

/// A YAML document as `yaml_rust` holds it.
#[verifier::external_type_specification]
#[verifier::external_body]
pub struct ExYaml(Yaml);

/// How many documents `YamlLoader::load_from_str` finds in a text; none
/// where the text is no YAML.
pub uninterp spec fn yaml_document_count(text: Seq<char>) -> Option<nat>;

/// Calls `YamlLoader::load_from_str`, which parses every document of the
/// text. The contract names how many documents come back, and that none do
/// where the loader reports an error.
#[verifier::external_body]
fn load_yaml(text: &str) -> (r: Option<Vec<Yaml>>)
    ensures
        match r {
            Some(docs) => yaml_document_count(text@) == Some(docs@.len()),
            None => yaml_document_count(text@) is None,
        },
{
    match YamlLoader::load_from_str(text) {
        Ok(docs) => Some(docs),
        Err(_) => None,
    }
}

/// Calls `YamlEmitter::dump` on a fresh emitter, which writes the document
/// as text into a `String`. The contract says that a text comes back: the
/// emitter fails only where writing does, and writing into a `String` does
/// not. Nothing is claimed of the text itself.
#[verifier::external_body]
fn dump_yaml(doc: &Yaml) -> (r: Option<String>)
    ensures
        r is Some,
{
    let mut out = String::new();
    match YamlEmitter::new(&mut out).dump(doc) {
        Ok(_) => Some(out),
        Err(_) => None,
    }
}

/// Parts the text of a descriptor into its documents, each written out anew.
///
/// A text that is no YAML has no documents. Otherwise there is one text for
/// each document.
pub fn split_documents(text: &str) -> (r: Result<Vec<String>, Error>)
    ensures
        yaml_document_count(text@) is None ==> r is Err && r->Err_0 is InvalidYaml,
        yaml_document_count(text@) is Some ==> r is Ok && yaml_document_count(text@) == Some(
            r->Ok_0@.len(),
        ),
{
    let docs = match load_yaml(text) {
        Some(docs) => docs,
        None => {
            return Err(Error::InvalidYaml);
        },
    };
    let mut out: Vec<String> = Vec::new();
    let mut i: usize = 0;
    while i < docs.len()
        invariant
            i <= docs.len(),
            out@.len() == i,
            yaml_document_count(text@) == Some(docs@.len()),
        decreases docs.len() - i,
    {
        match dump_yaml(&docs[i]) {
            Some(text) => {
                out.push(text);
            },
            None => {
                return Err(Error::InvalidYaml);
            },
        }
        i = i + 1;
    }
    Ok(out)
}

/// The recipients file that stands in for a descriptor which is not there:
/// `.gpg-id` beside it.
pub fn fallback_recipients_path(vault_path: &str) -> (r: Option<String>)
    ensures
        match path_parent(vault_path@) {
            Some(dir) => r is Some && r->Some_0@ == path_join(dir, ".gpg-id"@),
            None => r is None,
        },
{
    match parent_of(vault_path) {
        Some(dir) => Some(join_paths(dir.as_str(), ".gpg-id")),
        None => None,
    }
}

/// The vault of a directory that has a recipients file but no descriptor: a
/// leader with the defaults, which imports no keys on its own and trusts by
/// the web of trust, as if described by `sy-vault.yml` beside the recipients
/// file.
pub fn fallback_vault(recipients_path: &str) -> (r: Result<Vault, Error>)
    ensures
        match path_parent(recipients_path@) {
            None => r is Err && r->Err_0 is InvalidVaultPath && r->Err_0->InvalidVaultPath_path@
                == recipients_path@,
            Some(dir) => {
                let file = path_join(dir, "sy-vault.yml"@);
                match path_parent(file) {
                    None => r is Err && r->Err_0 is InvalidVaultPath
                        && r->Err_0->InvalidVaultPath_path@ == file,
                    Some(home) => {
                        &&& r is Ok
                        &&& r->Ok_0.name is None
                        &&& r->Ok_0.kind is Leader
                        &&& r->Ok_0.index == 0
                        &&& r->Ok_0.partitions@.len() == 0
                        &&& r->Ok_0.resolved_at@ == normalized(home)
                        &&& opt_text(r->Ok_0.vault_path) == Some(file)
                        &&& r->Ok_0.secrets@ == "."@
                        &&& r->Ok_0.gpg_keys is None
                        &&& r->Ok_0.recipients@ == ".gpg-id"@
                        &&& r->Ok_0.auto_import == Some(false)
                        &&& r->Ok_0.trust_model == Some(TrustModel::GpgWebOfTrust)
                    },
                }
            },
        },
{
    let dir = match parent_of(recipients_path) {
        Some(d) => d,
        None => {
            return Err(Error::InvalidVaultPath { path: recipients_path.to_string() });
        },
    };
    let file = join_paths(dir.as_str(), "sy-vault.yml");
    let vault = Vault {
        name: None,
        kind: VaultKind::Leader,
        index: 0,
        partitions: Vec::new(),
        resolved_at: crate::vault::secrets_default(),
        vault_path: None,
        secrets: crate::vault::secrets_default(),
        gpg_keys: None,
        recipients: crate::vault::recipients_default(),
        auto_import: Some(false),
        trust_model: Some(TrustModel::GpgWebOfTrust),
    };
    vault.set_resolved_at(file.as_str())
}

/// Whether `loaded` is `read` after loading from the descriptor at `path`,
/// as document number `index`: resolved at the directory of the descriptor,
/// aware of the descriptor's path, and with its position as its index.
pub open spec fn loaded_from(loaded: Vault, read: Vault, path: Seq<char>, index: int) -> bool {
    &&& path_parent(path) is Some
    &&& loaded.resolved_at@ == normalized(path_parent(path)->Some_0)
    &&& opt_text(loaded.vault_path) == Some(path)
    &&& loaded.index == index
    &&& loaded == (Vault {
        resolved_at: loaded.resolved_at,
        vault_path: loaded.vault_path,
        index: loaded.index,
        ..read
    })
}

/// Completes the vaults that were read from the documents of the descriptor
/// at `path`: each is resolved at the descriptor's directory and gets its
/// position among the documents as its index.
pub fn assemble(vaults: Vec<Vault>, path: &str) -> (r: Result<Vec<Vault>, Error>)
    ensures
        vaults@.len() > 0 && path_parent(path@) is None ==> r is Err && r->Err_0 is InvalidVaultPath
            && r->Err_0->InvalidVaultPath_path@ == path@,
        vaults@.len() == 0 || path_parent(path@) is Some ==> r is Ok && r->Ok_0@.len()
            == vaults@.len() && forall|i: int|
            0 <= i < vaults@.len() ==> loaded_from(#[trigger] r->Ok_0@[i], vaults@[i], path@, i),
{
    let mut rest = vaults;
    let ghost before = rest@;
    let mut out: Vec<Vault> = Vec::new();
    while rest.len() > 0
        invariant
            before == vaults@,
            out@.len() > 0 ==> path_parent(path@) is Some,
            out@.len() + rest@.len() == before.len(),
            rest@ == before.skip(out@.len() as int),
            forall|i: int| 0 <= i < out@.len() ==> loaded_from(#[trigger] out@[i], before[i], path@, i),
        decreases rest.len(),
    {
        let index = out.len();
        let read = rest.remove(0);
        assert(read == before[index as int]);
        assert(rest@ =~= before.skip(index + 1));
        let mut vault = match read.set_resolved_at(path) {
            Ok(v) => v,
            Err(e) => {
                return Err(e);
            },
        };
        vault.index = index;
        out.push(vault);
    }
    Ok(out)
}

} // verus!
