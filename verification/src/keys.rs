//! What the vault reads of an OpenPGP key, and how a key is shown.

use crate::error::Error;
use crate::text::concat2;
use crate::text::concat3;
use crate::text::join_texts;
use crate::text::joined;
use crate::text::texts;
use vstd::prelude::*;

verus! {

/// The parts of a key that the vault works with: its fingerprint and the ids
/// of its users, each as far as the keychain knows it.
#[derive(Debug, PartialEq, Eq)]
pub struct KeyInfo {
    pub fingerprint: Option<String>,
    pub user_ids: Vec<Option<String>>,
}

/// The text shown for a user id: the id, or `[none]` where it is not known.
pub open spec fn user_id_text(id: Option<String>) -> Seq<char> {
    match id {
        Some(s) => s@,
        None => "[none]"@,
    }
}

impl KeyInfo {
    /// The texts shown for the user ids, in their order.
    pub open spec fn user_id_texts(self) -> Seq<Seq<char>> {
        self.user_ids@.map_values(|id: Option<String>| user_id_text(id))
    }

    /// The user ids in a row, with `, ` between them.
    pub open spec fn users_text(self) -> Seq<char> {
        joined(self.user_id_texts(), ", "@)
    }

    /// The text shown for the fingerprint, known or not.
    pub open spec fn fingerprint_text(self) -> Seq<char> {
        match self.fingerprint {
            Some(f) => f@,
            None => "[no fingerprint!]"@,
        }
    }

    /// The key shown as its fingerprint with the user ids in brackets.
    pub open spec fn fingerprint_first(self) -> Seq<char> {
        self.fingerprint_text() + " ("@ + self.users_text() + ")"@
    }

    /// The key shown as its user ids with the fingerprint in brackets.
    pub open spec fn users_first(self) -> Seq<char> {
        self.users_text() + " ("@ + self.fingerprint_text() + ")"@
    }

    /// The user ids of the key in a row.
    pub fn key_display(&self) -> (r: String)
        ensures
            r@ == self.users_text(),
    {
        let mut shown: Vec<String> = Vec::new();
        let mut i: usize = 0;
        while i < self.user_ids.len()
            invariant
                i <= self.user_ids.len(),
                shown@.len() == i,
                forall|k: int| 0 <= k < i ==> (#[trigger] shown@[k])@ == user_id_text(self.user_ids@[k]),
            decreases self.user_ids.len() - i,
        {
            let text = match &self.user_ids[i] {
                Some(s) => s.clone(),
                None => "[none]".to_string(),
            };
            shown.push(text);
            i = i + 1;
        }
        assert(texts(shown@) =~= self.user_id_texts());
        join_texts(&shown, ", ")
    }

    fn fingerprint_display(&self) -> (r: String)
        ensures
            r@ == self.fingerprint_text(),
    {
        match &self.fingerprint {
            Some(f) => f.clone(),
            None => "[no fingerprint!]".to_string(),
        }
    }

    /// The key as `fingerprint (user ids)`.
    pub fn fingerprint_user_id(&self) -> (r: String)
        ensures
            r@ == self.fingerprint_first(),
    {
        let head = concat2(self.fingerprint_display().as_str(), " (");
        concat3(head.as_str(), self.key_display().as_str(), ")")
    }

    /// The key as `user ids (fingerprint)`.
    pub fn user_id_fingerprint(&self) -> (r: String)
        ensures
            r@ == self.users_first(),
    {
        let head = concat2(self.key_display().as_str(), " (");
        concat3(head.as_str(), self.fingerprint_display().as_str(), ")")
    }
}

/// The fingerprint of a key, which must be known.
pub fn fingerprint_of(key: &KeyInfo) -> (r: Result<String, Error>)
    ensures
        match key.fingerprint {
            Some(f) => r is Ok && r->Ok_0@ == f@,
            None => r is Err && r->Err_0 is NoFingerprint,
        },
{
    match &key.fingerprint {
        Some(f) => Ok(f.clone()),
        None => Err(Error::NoFingerprint),
    }
}

/// Whether the fingerprint of each of the first `n` keys is known.
pub open spec fn fingerprints_known(keys: Seq<KeyInfo>, n: int) -> bool {
    forall|i: int| 0 <= i < n ==> (#[trigger] keys[i]).fingerprint is Some
}

/// The fingerprints of the keys, in their order; all of them must be known.
pub fn fingerprints_of_keys(keys: &Vec<KeyInfo>) -> (r: Result<Vec<String>, Error>)
    ensures
        fingerprints_known(keys@, keys@.len() as int) ==> r is Ok && r->Ok_0@.len() == keys@.len()
            && forall|i: int|
            0 <= i < keys@.len() ==> (#[trigger] r->Ok_0@[i])@ == keys@[i].fingerprint->Some_0@,
        !fingerprints_known(keys@, keys@.len() as int) ==> r is Err && r->Err_0 is NoFingerprint,
{
    let mut out: Vec<String> = Vec::new();
    let mut i: usize = 0;
    while i < keys.len()
        invariant
            i <= keys.len(),
            out@.len() == i,
            fingerprints_known(keys@, i as int),
            forall|k: int| 0 <= k < i ==> (#[trigger] out@[k])@ == keys@[k].fingerprint->Some_0@,
        decreases keys.len() - i,
    {
        match fingerprint_of(&keys[i]) {
            Ok(f) => {
                out.push(f);
            },
            Err(e) => {
                assert(keys@[i as int].fingerprint is None);
                return Err(e);
            },
        }
        i = i + 1;
    }
    Ok(out)
}

/// The user ids of each key, the keys parted by `, `.
pub open spec fn keylist_text(keys: Seq<KeyInfo>) -> Seq<char> {
    joined(keys.map_values(|k: KeyInfo| k.users_text()), ", "@)
}

/// The keys in a row, each shown by its user ids.
pub fn keylist_display(keys: &Vec<KeyInfo>) -> (r: String)
    ensures
        r@ == keylist_text(keys@),
{
    let mut shown: Vec<String> = Vec::new();
    let mut i: usize = 0;
    while i < keys.len()
        invariant
            i <= keys.len(),
            shown@.len() == i,
            forall|k: int| 0 <= k < i ==> (#[trigger] shown@[k])@ == keys@[k].users_text(),
        decreases keys.len() - i,
    {
        shown.push(keys[i].key_display());
        i = i + 1;
    }
    assert(texts(shown@) =~= keys@.map_values(|k: KeyInfo| k.users_text()));
    join_texts(&shown, ", ")
}

} // verus!
