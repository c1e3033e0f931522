//! Resolving ids to keys: what to do when the keychain does not know them all.

use crate::error::Error;
use crate::keys::KeyInfo;
use crate::paths::join_paths;
use crate::paths::path_join;
use crate::text::decimal;
use crate::text::decimal_text;
use crate::text::texts;
use crate::vault::Vault;
use vstd::prelude::*;

verus! {

/// What follows from asking the keychain for a key for each id.
#[derive(Debug, PartialEq, Eq)]
pub enum KeyLookup {
    /// Every id has a key.
    Found,
    /// The ids in `missing` have none: import their key files from `dir` and
    /// ask once more, this time without a directory to import from.
    Import { dir: String, missing: Vec<String> },
    /// Keys are missing and nothing is left to try.
    Failed(Error),
}

/// What is known of one id after the keychain was asked for its key.
#[derive(Debug, PartialEq, Eq)]
pub struct IdLookup {
    /// The id that was asked for.
    pub id: String,
    /// The key that the keychain has for it, where it has one.
    pub key: Option<KeyInfo>,
    /// Whether a file named like the id lies in the vault's key directory.
    pub key_file_present: bool,
}

/// The ids that were asked for.
pub open spec fn asked_ids(lookups: Seq<IdLookup>) -> Seq<Seq<char>> {
    lookups.map_values(|l: IdLookup| l.id@)
}

/// The answers of the keychain.
pub open spec fn answers(lookups: Seq<IdLookup>) -> Seq<Option<KeyInfo>> {
    lookups.map_values(|l: IdLookup| l.key)
}

/// Whether the key file of each id is there.
pub open spec fn key_files(lookups: Seq<IdLookup>) -> Seq<bool> {
    lookups.map_values(|l: IdLookup| l.key_file_present)
}

/// How many of the first `n` ids have no key.
pub open spec fn missing_count(found: Seq<Option<KeyInfo>>, n: int) -> nat
    decreases n,
{
    if n <= 0 {
        0
    } else {
        missing_count(found, n - 1) + if found[n - 1] is None {
            1nat
        } else {
            0nat
        }
    }
}

/// Those of the first `n` ids that have no key.
pub open spec fn missing_ids(ids: Seq<Seq<char>>, found: Seq<Option<KeyInfo>>, n: int) -> Seq<Seq<char>>
    decreases n,
{
    if n <= 0 {
        Seq::empty()
    } else if found[n - 1] is None {
        missing_ids(ids, found, n - 1).push(ids[n - 1])
    } else {
        missing_ids(ids, found, n - 1)
    }
}

impl Vault {
    /// What is said of the key file of a missing id: where it is and whether
    /// it is there to import, or that the vault names no key directory.
    pub open spec fn key_file_hint(self, id: Seq<char>, present: bool) -> Seq<char> {
        match self.gpg_keys {
            Some(dir) => (if present {
                "Import key-file using 'gpg --import "@
            } else {
                "Key-file does not exist at "@
            }) + "'"@ + path_join(self.absolute_text(dir@), id) + "'"@,
            None => "No GPG keys directory"@,
        }
    }

    /// One line for each of the first `n` ids that has no key: the id and,
    /// in brackets, what is said of its key file.
    pub open spec fn missing_lines(
        self,
        ids: Seq<Seq<char>>,
        found: Seq<Option<KeyInfo>>,
        present: Seq<bool>,
        n: int,
    ) -> Seq<char>
        decreases n,
    {
        if n <= 0 {
            Seq::empty()
        } else if found[n - 1] is None {
            self.missing_lines(ids, found, present, n - 1) + "\n"@ + ids[n - 1] + " ("@
                + self.key_file_hint(ids[n - 1], present[n - 1]) + ")"@
        } else {
            self.missing_lines(ids, found, present, n - 1)
        }
    }

    /// Where the missing keys may still have to be imported from.
    pub open spec fn import_hint(self) -> Seq<char> {
        match self.gpg_keys {
            Some(dir) => " This might mean it wasn't imported yet from the '"@ + self.absolute_text(
                dir@,
            ) + "' directory."@,
            None => Seq::empty(),
        }
    }

    /// The message for ids without a key: how many are missing, where they
    /// may be imported from, each missing id with its key file, and the keys
    /// that were found.
    pub open spec fn missing_keys_text(
        self,
        ids: Seq<Seq<char>>,
        found: Seq<Option<KeyInfo>>,
        present: Seq<bool>,
        kind: Seq<char>,
    ) -> Seq<char> {
        let n = ids.len() as int;
        "Didn't find the key for "@ + decimal_text(missing_count(found, n)) + " "@ + kind
            + "(s) in the gpg database."@ + self.import_hint() + "\nThe following "@ + kind
            + "(s) could not be found in the gpg key database:"@ + self.missing_lines(
            ids,
            found,
            present,
            n,
        ) + (if missing_count(found, n) < n {
            "\nAll "@ + kind + "s found in gpg database:"@ + found_lines(found, n)
        } else {
            Seq::empty()
        })
    }

    fn key_file_note(&self, id: &str, present: bool) -> (r: String)
        ensures
            r@ == self.key_file_hint(id@, present),
    {
        match &self.gpg_keys {
            Some(dir) => {
                let abs = self.absolute_path(dir.as_str());
                let file = join_paths(abs.as_str(), id);
                let mut out = if present {
                    "Import key-file using 'gpg --import ".to_string()
                } else {
                    "Key-file does not exist at ".to_string()
                };
                out.append("'");
                out.append(file.as_str());
                out.append("'");
                out
            },
            None => "No GPG keys directory".to_string(),
        }
    }

    /// Decides how to go on after the keychain was asked for the key of each
    /// id.
    ///
    /// With every key found nothing is left to do. Otherwise the missing keys
    /// are imported from `gpg_keys_dir` where one is given, and the lookup
    /// fails with a message that names them where none is.
    pub fn keys_by_ids(
        &self,
        lookups: &Vec<IdLookup>,
        type_of_ids_for_errors: &str,
        gpg_keys_dir: Option<&str>,
    ) -> (r: KeyLookup)
        ensures
            missing_count(answers(lookups@), lookups@.len() as int) == 0 ==> r is Found,
            missing_count(answers(lookups@), lookups@.len() as int) > 0 && gpg_keys_dir is Some ==> r
                is Import && r->Import_dir@ == gpg_keys_dir->Some_0@ && texts(r->Import_missing@)
                == missing_ids(asked_ids(lookups@), answers(lookups@), lookups@.len() as int),
            missing_count(answers(lookups@), lookups@.len() as int) > 0 && gpg_keys_dir is None ==> r
                is Failed && r->Failed_0 is MissingKeys && r->Failed_0->MissingKeys_message@
                == self.missing_keys_text(
                asked_ids(lookups@),
                answers(lookups@),
                key_files(lookups@),
                type_of_ids_for_errors@,
            ),
    {
        let ghost ids = asked_ids(lookups@);
        let ghost found = answers(lookups@);
        let ghost present = key_files(lookups@);
        let n = lookups.len();
        let mut missing: Vec<String> = Vec::new();
        let mut lines = String::new();
        let mut shown = String::new();
        let mut i: usize = 0;
        while i < n
            invariant
                i <= n,
                n == lookups@.len(),
                ids == asked_ids(lookups@),
                found == answers(lookups@),
                present == key_files(lookups@),
                missing@.len() == missing_count(found, i as int),
                missing@.len() <= i,
                texts(missing@) == missing_ids(ids, found, i as int),
                lines@ == self.missing_lines(ids, found, present, i as int),
                shown@ == found_lines(found, i as int),
            decreases n - i,
        {
            let ghost before = texts(missing@);
            let ghost lines_before = lines@;
            let ghost shown_before = shown@;
            let entry = &lookups[i];
            assert(ids[i as int] == entry.id@);
            assert(found[i as int] == entry.key);
            assert(present[i as int] == entry.key_file_present);
            match &entry.key {
                None => {
                    missing.push(entry.id.clone());
                    assert(texts(missing@) =~= before.push(entry.id@));
                    let note = self.key_file_note(entry.id.as_str(), entry.key_file_present);
                    lines.append("\n");
                    lines.append(entry.id.as_str());
                    lines.append(" (");
                    lines.append(note.as_str());
                    lines.append(")");
                    assert(lines@ =~= lines_before + "\n"@ + entry.id@ + " ("@ + note@ + ")"@);
                },
                Some(key) => {
                    shown.append("\n");
                    shown.append(key.fingerprint_user_id().as_str());
                    assert(shown@ =~= shown_before + "\n"@ + key.fingerprint_first());
                },
            }
            i = i + 1;
        }
        if missing.len() == 0 {
            return KeyLookup::Found;
        }
        match gpg_keys_dir {
            Some(dir) => {
                return KeyLookup::Import { dir: dir.to_string(), missing };
            },
            None => {},
        }
        let count = decimal(missing.len());
        let mut msg = "Didn't find the key for ".to_string();
        msg.append(count.as_str());
        msg.append(" ");
        msg.append(type_of_ids_for_errors);
        msg.append("(s) in the gpg database.");
        let ghost head = msg@;
        match &self.gpg_keys {
            Some(dir) => {
                let abs = self.absolute_path(dir.as_str());
                msg.append(" This might mean it wasn't imported yet from the '");
                msg.append(abs.as_str());
                msg.append("' directory.");
                assert(msg@ =~= head + self.import_hint());
            },
            None => {
                assert(msg@ =~= head + self.import_hint());
            },
        }
        msg.append("\nThe following ");
        msg.append(type_of_ids_for_errors);
        msg.append("(s) could not be found in the gpg key database:");
        msg.append(lines.as_str());
        let ghost body = msg@;
        if missing.len() < n {
            msg.append("\nAll ");
            msg.append(type_of_ids_for_errors);
            msg.append("s found in gpg database:");
            msg.append(shown.as_str());
            assert(msg@ =~= body + ("\nAll "@ + type_of_ids_for_errors@ + "s found in gpg database:"@
                + found_lines(found, n as int)));
        } else {
            assert(msg@ =~= body + Seq::<char>::empty());
        }
        KeyLookup::Failed(Error::MissingKeys { message: msg })
    }
}

/// One line for each of the first `n` ids that has a key: the key shown as
/// its fingerprint with the user ids in brackets.
pub open spec fn found_lines(found: Seq<Option<KeyInfo>>, n: int) -> Seq<char>
    decreases n,
{
    if n <= 0 {
        Seq::empty()
    } else {
        match found[n - 1] {
            Some(key) => found_lines(found, n - 1) + "\n"@ + key.fingerprint_first(),
            None => found_lines(found, n - 1),
        }
    }
}

/// Accepts the recipients list that keys are looked up for: it must list
/// somebody. The error names the recipients file as the vault writes it.
pub fn check_recipients_listed(vault: &Vault, recipients: &Vec<String>) -> (r: Result<(), Error>)
    ensures
        recipients@.len() > 0 ==> r is Ok,
        recipients@.len() == 0 ==> r is Err && r->Err_0 is NoRecipients && r->Err_0->NoRecipients_path@
            == vault.recipients@,
{
    if recipients.len() == 0 {
        Err(Error::NoRecipients { path: vault.recipients.clone() })
    } else {
        Ok(())
    }
}

} // verus!
