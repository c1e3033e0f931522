//! Routing resources to the partition that owns them, and naming the files
//! that hold them.

use crate::error::Error;
use crate::partitions::leader_first;
use crate::paths::join_paths;
use crate::paths::path_same;
use crate::paths::same_path;
use crate::paths::path_join;
use crate::paths::path_starts_with;
use crate::paths::path_strip_prefix;
use crate::paths::starts_with;
use crate::paths::strip_ext;
use crate::paths::strip_prefix;
use crate::paths::without_ext;
use crate::spec::gpg_filename;
use crate::spec::gpg_output_filename;
use crate::spec::SourceText;
use crate::spec::SpecSourceType;
use crate::spec::SpecText;
use crate::spec::VaultSpec;
use crate::text::concat3;
use crate::text::join_texts;
use crate::text::joined;
use crate::text::texts;
use crate::types::Destination;
use crate::types::WriteMode;
use crate::vault::TrustModel;
use crate::vault::Vault;
use vstd::prelude::*;

verus! {

/// The first position from `from` on, with the leader at 0 and the partitions
/// behind it, of a vault whose secrets directory, as written, is a prefix of
/// `path`; the number of vaults where there is none.
pub open spec fn owner_position(leader: Vault, path: Seq<char>, from: int) -> int
    decreases leader_first(leader).len() - from,
{
    if from < 0 || from >= leader_first(leader).len() {
        leader_first(leader).len() as int
    } else if path_starts_with(path, leader_first(leader)[from].secrets@) {
        from
    } else {
        owner_position(leader, path, from + 1)
    }
}

impl Vault {
    /// The vault that owns `path`, and the path as that vault sees it.
    ///
    /// A vault without partitions owns every path as written. Otherwise the
    /// owner is the first vault, the leader before the partitions, whose
    /// secrets directory is a prefix of the path, and that prefix is taken
    /// off.
    pub open spec fn owner_of(self, path: Seq<char>) -> Option<(Vault, Seq<char>)> {
        if self.partitions@.len() == 0 {
            Some((self, path))
        } else {
            let k = owner_position(self, path, 0);
            if k < leader_first(self).len() {
                let owner = leader_first(self)[k];
                match path_strip_prefix(path, owner.secrets@) {
                    Some(rest) => Some((owner, rest)),
                    None => None,
                }
            } else {
                None
            }
        }
    }

    /// Whether a vault of the descriptor owns `path`: always where there are
    /// no partitions, else where the secrets directory of one of them, as
    /// written, is a prefix of the path.
    pub open spec fn has_owner(self, path: Seq<char>) -> bool {
        self.partitions@.len() == 0 || owner_position(self, path, 0) < leader_first(self).len()
    }

    /// Finds the vault that owns `path` and takes the owner's secrets
    /// directory off the path. This fails exactly where no vault owns the
    /// path.
    pub fn partition_by_owned_path(&self, path: String) -> (r: Result<(&Vault, String), Error>)
        ensures
            match self.owner_of(path@) {
                Some((owner, rest)) => r is Ok && *r->Ok_0.0 == owner && r->Ok_0.1@ == rest,
                None => r is Err && r->Err_0 is UnownedPath && r->Err_0->UnownedPath_path@ == path@,
            },
            r is Ok <==> self.has_owner(path@),
    {
        if self.partitions.len() == 0 {
            return Ok((self, path));
        }
        if starts_with(path.as_str(), self.secrets.as_str()) {
            assert(leader_first(*self)[0] == *self);
            match strip_prefix(path.as_str(), self.secrets.as_str()) {
                Some(rest) => {
                    return Ok((self, rest));
                },
                None => {
                    return Err(Error::UnownedPath { path });
                },
            }
        }
        let mut i: usize = 0;
        assert(leader_first(*self)[0] == *self);
        while i < self.partitions.len()
            invariant
                i <= self.partitions.len(),
                self.partitions@.len() > 0,
                owner_position(*self, path@, 0) == owner_position(*self, path@, i + 1),
            decreases self.partitions.len() - i,
        {
            let p = &self.partitions[i];
            assert(leader_first(*self)[i + 1] == *p);
            if starts_with(path.as_str(), p.secrets.as_str()) {
                match strip_prefix(path.as_str(), p.secrets.as_str()) {
                    Some(rest) => {
                        return Ok((p, rest));
                    },
                    None => {
                        return Err(Error::UnownedPath { path });
                    },
                }
            }
            i = i + 1;
        }
        Err(Error::UnownedPath { path })
    }

    /// Finds the vault that owns the destination of `spec`, and makes the
    /// destination relative to that vault's secrets directory.
    pub fn partition_by_owned_spec(&self, spec: VaultSpec) -> (r: Result<(&Vault, VaultSpec), Error>)
        ensures
            match self.owner_of(spec.dst@) {
                Some((owner, rest)) => r is Ok && *r->Ok_0.0 == owner && r->Ok_0.1@ == (SpecText {
                    src: spec.src@,
                    dst: rest,
                }),
                None => r is Err && r->Err_0 is UnownedPath && r->Err_0->UnownedPath_path@
                    == spec.dst@,
            },
            r is Ok <==> self.has_owner(spec.dst@),
    {
        let VaultSpec { src, dst } = spec;
        match self.partition_by_owned_path(dst) {
            Ok((partition, path)) => Ok((partition, VaultSpec { src, dst: path })),
            Err(e) => Err(e),
        }
    }

    /// As `partition_by_owned_spec`, on a copy of `spec`.
    pub fn partition_by_spec(&self, spec: &VaultSpec) -> (r: Result<(&Vault, VaultSpec), Error>)
        ensures
            match self.owner_of(spec.dst@) {
                Some((owner, rest)) => r is Ok && *r->Ok_0.0 == owner && r->Ok_0.1@ == (SpecText {
                    src: spec.src@,
                    dst: rest,
                }),
                None => r is Err && r->Err_0 is UnownedPath && r->Err_0->UnownedPath_path@
                    == spec.dst@,
            },
            r is Ok <==> self.has_owner(spec.dst@),
    {
        let copy = VaultSpec {
            src: match &spec.src {
                crate::spec::SpecSourceType::Stdin => crate::spec::SpecSourceType::Stdin,
                crate::spec::SpecSourceType::Path(p) => crate::spec::SpecSourceType::Path(p.clone()),
            },
            dst: spec.dst.clone(),
        };
        self.partition_by_owned_spec(copy)
    }

    /// The files that may hold the resource at `path`: inside the owner's
    /// secrets directory, first with `.gpg` appended, then as named.
    pub open spec fn resource_files(self, path: Seq<char>) -> Option<(Seq<char>, Seq<char>)> {
        match self.owner_of(path) {
            Some((owner, rest)) => {
                let plain = path_join(owner.secrets_text(), rest);
                match gpg_filename(plain) {
                    Some(gpg) => Some((gpg, plain)),
                    None => None,
                }
            },
            None => None,
        }
    }

    /// Names the files to try, in this order, when the resource at `path` is
    /// read: the ciphertext with `.gpg` appended, then the file as named.
    pub fn resource_candidates(&self, path: &str) -> (r: Result<(String, String), Error>)
        ensures
            match self.resource_files(path@) {
                Some((gpg, plain)) => r is Ok && r->Ok_0.0@ == gpg && r->Ok_0.1@ == plain,
                None => r is Err && (if self.owner_of(path@) is None {
                    r->Err_0 is UnownedPath && r->Err_0->UnownedPath_path@ == path@
                } else {
                    r->Err_0 is NoFilename
                }),
            },
    {
        let (partition, rest) = match self.partition_by_owned_path(path.to_string()) {
            Ok(found) => found,
            Err(e) => {
                return Err(e);
            },
        };
        let secrets = partition.secrets_path();
        let plain = join_paths(secrets.as_str(), rest.as_str());
        match gpg_output_filename(plain.as_str()) {
            Ok(gpg) => Ok((gpg, plain)),
            Err(e) => Err(e),
        }
    }

    /// The files that may be removed for the resource at `path`: its
    /// ciphertext, and that path without its last extension.
    pub open spec fn removal_files(self, path: Seq<char>) -> Option<(Seq<char>, Seq<char>)> {
        match self.owner_of(path) {
            Some((owner, rest)) => match gpg_filename(rest) {
                Some(file) => {
                    let gpg = path_join(owner.secrets_text(), file);
                    Some((gpg, without_ext(gpg)))
                },
                None => None,
            },
            None => None,
        }
    }

    /// Names the files to look for when the resource at `path` is removed.
    pub fn removal_candidates(&self, path: &str) -> (r: Result<(String, String), Error>)
        ensures
            match self.removal_files(path@) {
                Some((gpg, plain)) => r is Ok && r->Ok_0.0@ == gpg && r->Ok_0.1@ == plain,
                None => r is Err && (if self.owner_of(path@) is None {
                    r->Err_0 is UnownedPath && r->Err_0->UnownedPath_path@ == path@
                } else {
                    r->Err_0 is NoFilename
                }),
            },
    {
        let (partition, rest) = match self.partition_by_owned_path(path.to_string()) {
            Ok(found) => found,
            Err(e) => {
                return Err(e);
            },
        };
        let secrets = partition.secrets_path();
        let file = match gpg_output_filename(rest.as_str()) {
            Ok(f) => f,
            Err(e) => {
                return Err(e);
            },
        };
        let gpg = join_paths(secrets.as_str(), file.as_str());
        let plain = strip_ext(gpg.as_str());
        Ok((gpg, plain))
    }
}

/// Picks the file to remove: the ciphertext where it exists, else the file
/// without the extension where that exists.
pub fn file_to_remove(gpg: String, plain: String, gpg_exists: bool, plain_exists: bool) -> (r: Result<
    String,
    Error,
>)
    ensures
        gpg_exists ==> r == Ok::<String, Error>(gpg),
        !gpg_exists && plain_exists ==> r == Ok::<String, Error>(plain),
        !gpg_exists && !plain_exists ==> r == Err::<String, Error>(Error::NoFilePresent { path: gpg }),
{
    if gpg_exists {
        Ok(gpg)
    } else if plain_exists {
        Ok(plain)
    } else {
        Err(Error::NoFilePresent { path: gpg })
    }
}

/// One resource to encrypt: where its content comes from, which vault of the
/// descriptor it is encrypted for, and the file it is written to.
#[derive(Debug, PartialEq, Eq)]
pub struct EncryptTarget {
    /// Where the content is read from.
    pub src: SpecSourceType,
    /// The index of the vault whose recipients the content is encrypted for.
    pub partition: usize,
    /// The trust model to encrypt with.
    pub trust_model: TrustModel,
    /// The directory to import missing keys from, where that is switched on.
    pub import_dir: Option<String>,
    /// The file to write the ciphertext to.
    pub output: String,
}

impl Vault {
    /// The file that a spec is written to: inside the secrets directory of
    /// the vault that owns its destination, with `.gpg` appended, or the
    /// destination as that vault sees it where it is left unchanged.
    pub open spec fn output_of(self, spec: SpecText, dst_mode: Destination) -> Option<Seq<char>> {
        match self.owner_of(spec.dst) {
            Some((owner, rest)) => match dst_mode {
                Destination::Unchanged => Some(rest),
                Destination::ReolveAndAppendGpg => match gpg_filename(rest) {
                    Some(file) => Some(path_join(owner.secrets_text(), file)),
                    None => None,
                },
            },
            None => None,
        }
    }

    /// Whether `t` is what is to be done for `spec`.
    pub open spec fn target_fits(self, t: EncryptTarget, spec: SpecText, dst_mode: Destination) -> bool {
        &&& self.owner_of(spec.dst) is Some
        &&& t.src@ == spec.src
        &&& t.partition == self.owner_of(spec.dst)->Some_0.0.index
        &&& t.trust_model == self.trust_model_for(self.owner_of(spec.dst)->Some_0.0)
        &&& self.imports_for(self.owner_of(spec.dst)->Some_0.0) ==> crate::paths::opt_text(
            t.import_dir,
        ) == self.shared_keys_dir()
        &&& !self.imports_for(self.owner_of(spec.dst)->Some_0.0) ==> t.import_dir is None
        &&& Some(t.output@) == self.output_of(spec, dst_mode)
    }

    /// The first spec from `from` on that has no file to be written to; the
    /// number of specs where each has one.
    pub open spec fn first_unroutable(self, specs: Seq<VaultSpec>, dst_mode: Destination, from: int) -> int
        decreases specs.len() - from,
    {
        if from < 0 || from >= specs.len() {
            specs.len() as int
        } else if self.output_of(specs[from]@, dst_mode) is None {
            from
        } else {
            self.first_unroutable(specs, dst_mode, from + 1)
        }
    }

    /// Whether two of the specs are written to the same file.
    pub open spec fn writes_twice(self, specs: Seq<VaultSpec>, dst_mode: Destination) -> bool {
        exists|i: int, j: int|
            0 <= i < j < specs.len() && #[trigger] path_same(
                self.output_of(specs[i]@, dst_mode)->Some_0,
                self.output_of(specs[j]@, dst_mode)->Some_0,
            )
    }

    /// Plans the encryption of the specs: for each the vault that owns its
    /// destination, the settings to encrypt with, and the file to write.
    ///
    /// The first spec whose destination no vault owns, or has no file name
    /// to append `.gpg` to, gives the error. Where files may not be written
    /// over, no two specs may be written to the same file.
    pub fn encrypt_targets(&self, specs: &Vec<VaultSpec>, mode: WriteMode, dst_mode: Destination) -> (r:
        Result<Vec<EncryptTarget>, Error>)
        ensures
            ({
                let k = self.first_unroutable(specs@, dst_mode, 0);
                if k < specs@.len() {
                    r is Err && (if self.owner_of(specs@[k].dst@) is None {
                        r->Err_0 is UnownedPath && r->Err_0->UnownedPath_path@ == specs@[k].dst@
                    } else {
                        r->Err_0 is NoFilename
                    })
                } else if mode is RefuseOverwrite && self.writes_twice(specs@, dst_mode) {
                    r is Err && r->Err_0 is DuplicateDestination && exists|i: int, j: int|
                        0 <= i < j < specs@.len() && #[trigger] path_same(
                            self.output_of(specs@[i]@, dst_mode)->Some_0,
                            self.output_of(specs@[j]@, dst_mode)->Some_0,
                        ) && r->Err_0->DuplicateDestination_path@ == self.output_of(
                            specs@[j]@,
                            dst_mode,
                        )->Some_0
                } else {
                    r is Ok && r->Ok_0@.len() == specs@.len() && forall|i: int|
                        0 <= i < specs@.len() ==> self.target_fits(
                            #[trigger] r->Ok_0@[i],
                            specs@[i]@,
                            dst_mode,
                        )
                }
            }),
    {
        let mut out: Vec<EncryptTarget> = Vec::new();
        let mut i: usize = 0;
        while i < specs.len()
            invariant
                i <= specs.len(),
                out@.len() == i,
                self.first_unroutable(specs@, dst_mode, 0) == self.first_unroutable(
                    specs@,
                    dst_mode,
                    i as int,
                ),
                forall|q: int|
                    0 <= q < i ==> self.target_fits(#[trigger] out@[q], specs@[q]@, dst_mode),
            decreases specs.len() - i,
        {
            let (partition, spec) = match self.partition_by_spec(&specs[i]) {
                Ok(found) => found,
                Err(e) => {
                    return Err(e);
                },
            };
            let secrets = partition.secrets_path();
            let output = match spec.output_in(secrets.as_str(), dst_mode) {
                Ok(file) => file,
                Err(e) => {
                    return Err(e);
                },
            };
            let VaultSpec { src, dst: _ } = spec;
            out.push(
                EncryptTarget {
                    src,
                    partition: partition.index,
                    trust_model: self.find_trust_model(partition),
                    import_dir: self.gpg_keys_dir_for_auto_import(partition),
                    output,
                },
            );
            i = i + 1;
        }
        if mode.refuse_overwrite() {
            let mut b: usize = 0;
            while b < out.len()
                invariant
                    b <= out.len(),
                    mode is RefuseOverwrite,
                    self.first_unroutable(specs@, dst_mode, 0) == specs@.len(),
                    out@.len() == specs@.len(),
                    forall|q: int|
                        0 <= q < out@.len() ==> self.target_fits(
                            #[trigger] out@[q],
                            specs@[q]@,
                            dst_mode,
                        ),
                    forall|x: int, y: int|
                        0 <= x < y < b ==> !#[trigger] path_same(
                            self.output_of(specs@[x]@, dst_mode)->Some_0,
                            self.output_of(specs@[y]@, dst_mode)->Some_0,
                        ),
                decreases out.len() - b,
            {
                let mut a: usize = 0;
                while a < b
                    invariant
                        a <= b,
                        b < out.len(),
                        mode is RefuseOverwrite,
                        self.first_unroutable(specs@, dst_mode, 0) == specs@.len(),
                        out@.len() == specs@.len(),
                        forall|q: int|
                            0 <= q < out@.len() ==> self.target_fits(
                                #[trigger] out@[q],
                                specs@[q]@,
                                dst_mode,
                            ),
                        forall|x: int|
                            0 <= x < a ==> !#[trigger] path_same(
                                self.output_of(specs@[x]@, dst_mode)->Some_0,
                                self.output_of(specs@[b as int]@, dst_mode)->Some_0,
                            ),
                    decreases b - a,
                {
                    assert(self.target_fits(out@[a as int], specs@[a as int]@, dst_mode));
                    assert(self.target_fits(out@[b as int], specs@[b as int]@, dst_mode));
                    if same_path(out[a].output.as_str(), out[b].output.as_str()) {
                        assert(path_same(
                            self.output_of(specs@[a as int]@, dst_mode)->Some_0,
                            self.output_of(specs@[b as int]@, dst_mode)->Some_0,
                        ));
                        return Err(Error::DuplicateDestination { path: out[b].output.clone() });
                    }
                    a = a + 1;
                }
                b = b + 1;
            }
        }
        Ok(out)
    }
}

/// Decides whether the file at `output` may be written, given whether it is
/// there already.
pub fn check_overwrite(output: &str, mode: WriteMode, exists: bool) -> (r: Result<(), Error>)
    ensures
        mode is RefuseOverwrite && exists ==> r is Err && r->Err_0 is RefuseOverwrite
            && r->Err_0->RefuseOverwrite_path@ == output@,
        !(mode is RefuseOverwrite && exists) ==> r is Ok,
{
    if mode.refuse_overwrite() && exists {
        Err(Error::RefuseOverwrite { path: output.to_string() })
    } else {
        Ok(())
    }
}

/// The destinations, each in quotes, parted by `, `.
pub open spec fn quoted_destinations(specs: Seq<VaultSpec>) -> Seq<Seq<char>> {
    specs.map_values(|s: VaultSpec| "'"@ + s.dst@ + "'"@)
}

/// The line that reports the resources that were added.
pub fn added_message(specs: &Vec<VaultSpec>) -> (r: String)
    ensures
        r@ == "Added "@ + joined(quoted_destinations(specs@), ", "@) + "."@,
{
    let mut quoted: Vec<String> = Vec::new();
    let mut i: usize = 0;
    while i < specs.len()
        invariant
            i <= specs.len(),
            quoted@.len() == i,
            forall|k: int| 0 <= k < i ==> (#[trigger] quoted@[k])@ == "'"@ + specs@[k].dst@ + "'"@,
        decreases specs.len() - i,
    {
        quoted.push(concat3("'", specs[i].destination(), "'"));
        i = i + 1;
    }
    assert(texts(quoted@) =~= quoted_destinations(specs@));
    let list = join_texts(&quoted, ", ");
    concat3("Added ", list.as_str(), ".")
}

/// Where the content of a spec is taken from when it is opened.
#[derive(Debug, Clone, PartialEq, Eq)]
pub enum InputSource {
    /// The file at the path.
    File(String),
    /// A temporary file that the user fills with an editor.
    TerminalEditor,
    /// Standard input.
    Stdin,
}

impl VaultSpec {
    /// Where the content comes from: the file that the spec names; else, with
    /// a terminal at standard input, an editor; else standard input.
    pub fn input_source(&self, stdin_is_terminal: bool) -> (r: InputSource)
        ensures
            match self.src@ {
                SourceText::Path(p) => r is File && r->File_0@ == p,
                SourceText::Stdin => if stdin_is_terminal {
                    r is TerminalEditor
                } else {
                    r is Stdin
                },
            },
    {
        match &self.src {
            SpecSourceType::Path(p) => InputSource::File(p.clone()),
            SpecSourceType::Stdin => {
                if stdin_is_terminal {
                    InputSource::TerminalEditor
                } else {
                    InputSource::Stdin
                }
            },
        }
    }
}

/// A ciphertext to encrypt anew: the file to read and write over, and the
/// name of the resource for messages.
#[derive(Debug, PartialEq, Eq)]
pub struct ReencryptTarget {
    pub file: String,
    pub shown: String,
}

impl Vault {
    /// The name that a file found inside the secrets directory is shown by:
    /// with the secrets directory in front where the descriptor has several
    /// vaults, and always without its last extension.
    pub open spec fn shown_resource(self, found: Seq<char>, has_multiple_partitions: bool) -> Seq<char> {
        if has_multiple_partitions {
            without_ext(path_join(self.secrets_text(), found))
        } else {
            without_ext(found)
        }
    }

    /// Names, for a ciphertext found at `found` inside the secrets directory,
    /// the file to encrypt anew and the name to report it by.
    pub fn reencrypt_target(&self, found: &str, has_multiple_partitions: bool) -> (r: ReencryptTarget)
        ensures
            r.file@ == path_join(self.secrets_text(), found@),
            r.shown@ == self.shown_resource(found@, has_multiple_partitions),
    {
        let secrets = self.secrets_path();
        let file = join_paths(secrets.as_str(), found);
        let shown = if has_multiple_partitions {
            strip_ext(file.as_str())
        } else {
            strip_ext(found)
        };
        ReencryptTarget { file, shown }
    }

    /// The lines that list the resources of one vault: its address, then the
    /// first `n` of the files found in its secrets directory, each as it is
    /// shown.
    pub open spec fn resource_block(self, found: Seq<String>, multiple: bool, n: int) -> Seq<Seq<char>>
        decreases n,
    {
        if n <= 0 {
            seq![self.url_text()]
        } else if multiple {
            self.resource_block(found, multiple, n - 1).push(
                path_join(self.secrets_text(), without_ext(found[n - 1]@)),
            )
        } else {
            self.resource_block(found, multiple, n - 1).push(without_ext(found[n - 1]@))
        }
    }

    /// The lines that list the resources of this vault alone: its address and
    /// one line for each ciphertext found in its secrets directory, without
    /// the extension, and inside the secrets directory where the descriptor
    /// has several vaults.
    pub fn list(&self, found: &Vec<String>, has_multiple_partitions: bool) -> (r: Vec<String>)
        ensures
            texts(r@) == self.resource_block(found@, has_multiple_partitions, found@.len() as int),
    {
        let mut out: Vec<String> = Vec::new();
        out.push(self.url());
        assert(texts(out@) =~= seq![self.url_text()]);
        let secrets = self.secrets_path();
        let mut i: usize = 0;
        while i < found.len()
            invariant
                i <= found.len(),
                secrets@ == self.secrets_text(),
                texts(out@) == self.resource_block(found@, has_multiple_partitions, i as int),
            decreases found.len() - i,
        {
            let ghost before = texts(out@);
            let plain = strip_ext(found[i].as_str());
            let line = if has_multiple_partitions {
                join_paths(secrets.as_str(), plain.as_str())
            } else {
                plain
            };
            out.push(line);
            assert(texts(out@) =~= before.push(line@));
            i = i + 1;
        }
        out
    }

    /// The listing of the first `n` vaults of the descriptor, the leader
    /// first.
    pub open spec fn resource_blocks(self, found: Seq<Vec<String>>, n: int) -> Seq<Seq<char>>
        decreases n,
    {
        if n <= 0 {
            Seq::empty()
        } else {
            let files = if n - 1 < found.len() {
                found[n - 1]@
            } else {
                Seq::empty()
            };
            self.resource_blocks(found, n - 1) + leader_first(self)[n - 1].resource_block(
                files,
                self.partitions@.len() > 0,
                files.len() as int,
            )
        }
    }

    /// The lines that list the resources of the descriptor: for the leader
    /// and then for each partition what `list` gives. `found` holds for each
    /// of them the ciphertexts found in its secrets directory; a vault whose
    /// files are not among them is listed without any.
    pub fn print_resources(&self, found: &Vec<Vec<String>>) -> (r: Vec<String>)
        ensures
            texts(r@) == self.resource_blocks(found@, self.partitions@.len() as int + 1),
    {
        let none: Vec<String> = Vec::new();
        let multiple = self.partitions.len() > 0;
        let mut out: Vec<String> = if found.len() > 0 {
            self.list(&found[0], multiple)
        } else {
            self.list(&none, multiple)
        };
        assert(leader_first(*self)[0] == *self);
        assert(self.resource_blocks(found@, 0) =~= Seq::<Seq<char>>::empty());
        assert(texts(out@) =~= self.resource_blocks(found@, 1));
        let mut i: usize = 0;
        while i < self.partitions.len()
            invariant
                i <= self.partitions.len(),
                none@.len() == 0,
                multiple == (self.partitions@.len() > 0),
                texts(out@) == self.resource_blocks(found@, i + 1),
            decreases self.partitions.len() - i,
        {
            let ghost before = texts(out@);
            let member = &self.partitions[i];
            assert(leader_first(*self)[i + 1] == *member);
            let mut block = if found.len() > 0 && i < found.len() - 1 {
                member.list(&found[i + 1], multiple)
            } else {
                member.list(&none, multiple)
            };
            let ghost lines = texts(block@);
            out.append(&mut block);
            assert(texts(out@) =~= before + lines);
            i = i + 1;
        }
        out
    }
}

} // verus!
