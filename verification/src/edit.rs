//! Editing a resource in place: the order in which the steps are taken.
//!
//! The plaintext only ever lives in a temporary file. The steps around it are
//! decided here, one at a time, from how the step before went; performing them
//! is left to the caller.

use crate::error::Error;
use crate::spec::gpg_filename;
use crate::spec::gpg_output_filename;
use crate::types::CreateMode;
use crate::vault::Vault;
use vstd::prelude::*;

verus! {

/// How far an edit has come.
#[derive(Debug, Clone, Copy, PartialEq, Eq, Structural)]
pub enum EditState {
    /// Nothing was done yet.
    Start,
    /// The temporary file is being created.
    CreatingTemp,
    /// The resource is being decrypted into the temporary file.
    Decrypting,
    /// An empty buffer is being encrypted, to see whether encryption works.
    Probing,
    /// The editor runs on the temporary file.
    Editing,
    /// The temporary file is being encrypted over the resource.
    Encrypting,
    /// The temporary file is being removed.
    Cleaning { success: bool },
    /// The edit is over.
    Finished { success: bool },
}

/// What to do next in an edit.
#[derive(Debug, Clone, Copy, PartialEq, Eq, Structural)]
pub enum EditAction {
    /// Create a temporary file that only the user can read.
    CreateTemp,
    /// Decrypt the resource into the temporary file.
    Decrypt,
    /// Encrypt an empty buffer for the recipients of the resource.
    ProbeEncryption,
    /// Run the editor on the temporary file and wait for it.
    RunEditor,
    /// Encrypt the temporary file over the resource.
    Encrypt,
    /// Remove the temporary file.
    RemoveTemp,
    /// Report the outcome.
    Finish { success: bool },
}

/// The state after the step of `state` went well or not, and the step to
/// take then.
///
/// The temporary file comes first and, once made, is removed on every path.
/// The editor runs only on a resource that could be decrypted, or may be
/// created, and only after encryption was tried where `try_encrypt` asks for
/// that. Nothing is encrypted over the resource unless the editor ended well.
pub open spec fn edit_next(state: EditState, ok: bool, try_encrypt: bool) -> (EditState, EditAction) {
    match state {
        EditState::Start => (EditState::CreatingTemp, EditAction::CreateTemp),
        EditState::CreatingTemp => if ok {
            (EditState::Decrypting, EditAction::Decrypt)
        } else {
            (EditState::Finished { success: false }, EditAction::Finish { success: false })
        },
        EditState::Decrypting => if !ok {
            (EditState::Cleaning { success: false }, EditAction::RemoveTemp)
        } else if try_encrypt {
            (EditState::Probing, EditAction::ProbeEncryption)
        } else {
            (EditState::Editing, EditAction::RunEditor)
        },
        EditState::Probing => if ok {
            (EditState::Editing, EditAction::RunEditor)
        } else {
            (EditState::Cleaning { success: false }, EditAction::RemoveTemp)
        },
        EditState::Editing => if ok {
            (EditState::Encrypting, EditAction::Encrypt)
        } else {
            (EditState::Cleaning { success: false }, EditAction::RemoveTemp)
        },
        EditState::Encrypting => (EditState::Cleaning { success: ok }, EditAction::RemoveTemp),
        EditState::Cleaning { success } => (
            EditState::Finished { success },
            EditAction::Finish { success },
        ),
        EditState::Finished { success } => (
            EditState::Finished { success },
            EditAction::Finish { success },
        ),
    }
}

/// Decides the next step of an edit from how the last one went.
pub fn edit_step(state: EditState, ok: bool, try_encrypt: bool) -> (r: (EditState, EditAction))
    ensures
        r == edit_next(state, ok, try_encrypt),
{
    let failed = (EditState::Cleaning { success: false }, EditAction::RemoveTemp);
    match state {
        EditState::Start => (EditState::CreatingTemp, EditAction::CreateTemp),
        EditState::CreatingTemp => {
            if ok {
                (EditState::Decrypting, EditAction::Decrypt)
            } else {
                (EditState::Finished { success: false }, EditAction::Finish { success: false })
            }
        },
        EditState::Decrypting => {
            if !ok {
                failed
            } else if try_encrypt {
                (EditState::Probing, EditAction::ProbeEncryption)
            } else {
                (EditState::Editing, EditAction::RunEditor)
            }
        },
        EditState::Probing => {
            if ok {
                (EditState::Editing, EditAction::RunEditor)
            } else {
                failed
            }
        },
        EditState::Editing => {
            if ok {
                (EditState::Encrypting, EditAction::Encrypt)
            } else {
                failed
            }
        },
        EditState::Encrypting => (EditState::Cleaning { success: ok }, EditAction::RemoveTemp),
        EditState::Cleaning { success } => (
            EditState::Finished { success },
            EditAction::Finish { success },
        ),
        EditState::Finished { success } => (
            EditState::Finished { success },
            EditAction::Finish { success },
        ),
    }
}

/// Whether a temporary file exists, and is not yet being removed, while the
/// edit is in `state`.
pub open spec fn holds_temp(state: EditState) -> bool {
    state is Decrypting || state is Probing || state is Editing || state is Encrypting
}

/// The state after a run of steps that went as `outcomes` say.
pub open spec fn edit_run(state: EditState, outcomes: Seq<bool>, try_encrypt: bool) -> EditState
    decreases outcomes.len(),
{
    if outcomes.len() == 0 {
        state
    } else {
        edit_next(edit_run(state, outcomes.drop_last(), try_encrypt), outcomes.last(), try_encrypt).0
    }
}

/// The editor runs only after the resource was decrypted and, where asked
/// for, encryption was tried; the resource is written only after the editor
/// ended well; while a temporary file exists the edit does not finish but
/// goes on or removes it; and success is only reported after the resource
/// was written.
pub proof fn lemma_edit_order(state: EditState, ok: bool, try_encrypt: bool)
    ensures
        edit_next(state, ok, try_encrypt).1 is RunEditor ==> ok && (state is Probing || (state
            is Decrypting && !try_encrypt)),
        edit_next(state, ok, try_encrypt).1 is Encrypt ==> ok && state is Editing,
        holds_temp(state) ==> !(edit_next(state, ok, try_encrypt).1 is Finish) && (holds_temp(
            edit_next(state, ok, try_encrypt).0,
        ) || edit_next(state, ok, try_encrypt).0 is Cleaning),
        state is Cleaning ==> edit_next(state, ok, try_encrypt).1 is Finish,
        edit_next(state, ok, try_encrypt).0 is Cleaning ==> edit_next(state, ok, try_encrypt).1
            is RemoveTemp,
        edit_next(state, ok, try_encrypt).0 == (EditState::Finished { success: true }) ==> state
            == (EditState::Cleaning { success: true }) || state == (EditState::Finished {
            success: true,
        }),
{
}

/// However the steps go, an edit is over after seven of them.
pub proof fn lemma_edit_ends(outcomes: Seq<bool>, try_encrypt: bool)
    requires
        outcomes.len() >= 7,
    ensures
        edit_run(EditState::Start, outcomes, try_encrypt) is Finished,
    decreases outcomes.len(),
{
    let s0 = EditState::Start;
    let o = outcomes;
    let p1 = o.take(1);
    let p2 = o.take(2);
    let p3 = o.take(3);
    let p4 = o.take(4);
    let p5 = o.take(5);
    let p6 = o.take(6);
    let p7 = o.take(7);
    assert(p1.drop_last() =~= o.take(0));
    assert(p2.drop_last() =~= p1);
    assert(p3.drop_last() =~= p2);
    assert(p4.drop_last() =~= p3);
    assert(p5.drop_last() =~= p4);
    assert(p6.drop_last() =~= p5);
    assert(p7.drop_last() =~= p6);
    assert(edit_run(s0, o.take(0), try_encrypt) == s0);
    assert(edit_run(s0, p1, try_encrypt) is CreatingTemp);
    let s2 = edit_run(s0, p2, try_encrypt);
    assert(s2 is Decrypting || s2 is Finished);
    let s3 = edit_run(s0, p3, try_encrypt);
    assert(s3 is Probing || s3 is Editing || s3 is Cleaning || s3 is Finished);
    let s4 = edit_run(s0, p4, try_encrypt);
    assert(s4 is Editing || s4 is Encrypting || s4 is Cleaning || s4 is Finished);
    let s5 = edit_run(s0, p5, try_encrypt);
    assert(s5 is Encrypting || s5 is Cleaning || s5 is Finished);
    let s6 = edit_run(s0, p6, try_encrypt);
    assert(s6 is Cleaning || s6 is Finished);
    let s7 = edit_run(s0, p7, try_encrypt);
    assert(s7 is Finished);
    lemma_finished_stays(s0, o, 7, try_encrypt);
}

/// Without trying encryption first, an edit is over after six steps.
pub proof fn lemma_edit_ends_without_probe(outcomes: Seq<bool>)
    requires
        outcomes.len() >= 6,
    ensures
        edit_run(EditState::Start, outcomes, false) is Finished,
{
    let s0 = EditState::Start;
    let o = outcomes;
    assert(o.take(1).drop_last() =~= o.take(0));
    assert(o.take(2).drop_last() =~= o.take(1));
    assert(o.take(3).drop_last() =~= o.take(2));
    assert(o.take(4).drop_last() =~= o.take(3));
    assert(o.take(5).drop_last() =~= o.take(4));
    assert(o.take(6).drop_last() =~= o.take(5));
    assert(edit_run(s0, o.take(0), false) == s0);
    assert(edit_run(s0, o.take(1), false) is CreatingTemp);
    let s2 = edit_run(s0, o.take(2), false);
    assert(s2 is Decrypting || s2 is Finished);
    let s3 = edit_run(s0, o.take(3), false);
    assert(s3 is Editing || s3 is Cleaning || s3 is Finished);
    let s4 = edit_run(s0, o.take(4), false);
    assert(s4 is Encrypting || s4 is Cleaning || s4 is Finished);
    let s5 = edit_run(s0, o.take(5), false);
    assert(s5 is Cleaning || s5 is Finished);
    let s6 = edit_run(s0, o.take(6), false);
    assert(s6 is Finished);
    lemma_finished_stays(s0, o, 6, false);
}

proof fn lemma_finished_stays(state: EditState, outcomes: Seq<bool>, n: int, try_encrypt: bool)
    requires
        0 <= n <= outcomes.len(),
        edit_run(state, outcomes.take(n), try_encrypt) is Finished,
    ensures
        edit_run(state, outcomes, try_encrypt) is Finished,
    decreases outcomes.len() - n,
{
    if n == outcomes.len() {
        assert(outcomes.take(n) =~= outcomes);
    } else {
        assert(outcomes.take(n + 1).drop_last() =~= outcomes.take(n));
        lemma_finished_stays(state, outcomes, n + 1, try_encrypt);
    }
}

impl Vault {
    /// The file that an edit writes to, from how decrypting the resource at
    /// `path` went.
    ///
    /// A resource that was decrypted is written back to the file it was read
    /// from. A resource that was not found is, where `mode` allows to create
    /// it, written to `path` with `.gpg` appended, seen from the directory of
    /// the descriptor. In every other case there is no file to write to, and
    /// the failure to decrypt stands.
    pub fn edit_target(&self, path: &str, mode: CreateMode, decrypted: Option<String>, not_found: bool) -> (r:
        Result<Option<String>, Error>)
        ensures
            decrypted is Some ==> r == Ok::<Option<String>, Error>(decrypted),
            decrypted is None && !(mode is Create && not_found) ==> r == Ok::<Option<String>, Error>(
                None,
            ),
            decrypted is None && mode is Create && not_found ==> match gpg_filename(path@) {
                Some(file) => r is Ok && r->Ok_0 is Some && r->Ok_0->Some_0@ == self.absolute_text(
                    file,
                ),
                None => r is Err && r->Err_0 is NoFilename && r->Err_0->NoFilename_path@ == path@,
            },
    {
        match decrypted {
            Some(file) => Ok(Some(file)),
            None => {
                match mode {
                    CreateMode::Create => {
                        if not_found {
                            match gpg_output_filename(path) {
                                Ok(file) => Ok(Some(self.absolute_path(file.as_str()))),
                                Err(e) => Err(e),
                            }
                        } else {
                            Ok(None)
                        }
                    },
                    CreateMode::NoCreate => Ok(None),
                }
            },
        }
    }
}

} // verus!
