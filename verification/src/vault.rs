//! The vault descriptor: a leader, its partitions, and where each keeps its
//! secrets, its recipients list and its public keys.

use crate::error::Error;
use crate::paths::components_of;
use crate::paths::is_absolute;
use crate::paths::join_paths;
use crate::paths::normalize;
use crate::paths::normalized;
use crate::paths::parent_of;
use crate::paths::parts_text;
use crate::paths::path_components;
use crate::paths::path_is_absolute;
use crate::paths::path_join;
use crate::paths::path_parent;
use crate::paths::path_same;
use crate::paths::path_starts_with;
use crate::paths::same_path;
use crate::paths::starts_with;
use crate::text::concat2;
use crate::text::concat3;
use crate::text::same_text;
use vstd::prelude::*;

verus! {

/// The recipients file of a vault that names none.
pub fn recipients_default() -> (r: String)
    ensures
        r@ == ".gpg-id"@,
{
    ".gpg-id".to_string()
}

/// The secrets directory of a vault that names none.
pub fn secrets_default() -> (r: String)
    ensures
        r@ == "."@,
{
    ".".to_string()
}

/// Whether a vault leads the descriptor or is one of its partitions.
#[derive(Debug, Clone, Copy, PartialEq, Eq, Hash)]
pub enum VaultKind {
    Leader,
    Partition,
}

impl Default for VaultKind {
    fn default() -> (r: Self)
        ensures
            r is Leader,
    {
        VaultKind::Leader
    }
}

/// Whether the validity of a recipient's key is enforced when encrypting.
#[derive(Debug, Clone, Copy, PartialEq, Eq, Hash, PartialOrd, Ord)]
pub enum TrustModel {
    /// The OpenPGP provider decides whether a key may be used.
    GpgWebOfTrust,
    /// Every key is used without a trust check.
    Always,
}

impl Default for TrustModel {
    fn default() -> (r: Self)
        ensures
            r is GpgWebOfTrust,
    {
        TrustModel::GpgWebOfTrust
    }
}

impl TrustModel {
    /// Reads a trust model by its name: `web-of-trust` or `always`.
    pub fn from_str(s: &str) -> (r: Result<TrustModel, String>)
        ensures
            s@ == "web-of-trust"@ ==> r == Ok::<TrustModel, String>(TrustModel::GpgWebOfTrust),
            s@ != "web-of-trust"@ && s@ == "always"@ ==> r == Ok::<TrustModel, String>(
                TrustModel::Always,
            ),
            s@ != "web-of-trust"@ && s@ != "always"@ ==> r is Err && r->Err_0@
                == "Unknown trust model: '"@ + s@ + "'"@,
    {
        if same_text(s, "web-of-trust") {
            Ok(TrustModel::GpgWebOfTrust)
        } else if same_text(s, "always") {
            Ok(TrustModel::Always)
        } else {
            Err(concat3("Unknown trust model: '", s, "'"))
        }
    }
}

/// One vault of a descriptor.
///
/// `kind`, `index`, `partitions`, `resolved_at` and `vault_path` are set when
/// the descriptor is read and are never written to it.
#[derive(Debug, PartialEq, Eq, Hash)]
pub struct Vault {
    pub name: Option<String>,
    pub kind: VaultKind,
    pub index: usize,
    pub partitions: Vec<Vault>,
    pub resolved_at: String,
    pub vault_path: Option<String>,
    pub auto_import: Option<bool>,
    pub trust_model: Option<TrustModel>,
    pub secrets: String,
    pub gpg_keys: Option<String>,
    pub recipients: String,
}

impl Clone for Vault {
    fn clone(&self) -> (r: Self)
        ensures
            r.same_as(*self),
        decreases self,
    {
        let mut partitions: Vec<Vault> = Vec::new();
        let mut i: usize = 0;
        while i < self.partitions.len()
            invariant
                i <= self.partitions.len(),
                partitions@.len() == i,
                forall|j: int| 0 <= j < i ==> (#[trigger] partitions@[j]).same_as(self.partitions@[j]),
            decreases self.partitions.len() - i,
        {
            let p = self.partitions[i].clone();
            partitions.push(p);
            i = i + 1;
        }
        Vault {
            name: self.name.clone(),
            kind: self.kind,
            index: self.index,
            partitions,
            resolved_at: self.resolved_at.clone(),
            vault_path: self.vault_path.clone(),
            auto_import: self.auto_import,
            trust_model: self.trust_model,
            secrets: self.secrets.clone(),
            gpg_keys: self.gpg_keys.clone(),
            recipients: self.recipients.clone(),
        }
    }
}

impl Default for Vault {
    fn default() -> (r: Self)
        ensures
            r.name is None,
            r.kind is Leader,
            r.index == 0,
            r.partitions@.len() == 0,
            r.resolved_at@ == "."@,
            r.vault_path is None,
            r.auto_import == Some(true),
            r.trust_model is None,
            r.secrets@ == "."@,
            r.gpg_keys is None,
            r.recipients@ == ".gpg-id"@,
    {
        Vault {
            kind: VaultKind::Leader,
            index: 0,
            partitions: Vec::new(),
            trust_model: None,
            auto_import: Some(true),
            vault_path: None,
            name: None,
            secrets: secrets_default(),
            resolved_at: secrets_default(),
            gpg_keys: None,
            recipients: recipients_default(),
        }
    }
}

/// A path that is relative gets `.` in front, so that every path has a first
/// component to compare by.
pub open spec fn anchored(p: Seq<char>) -> Seq<char> {
    if path_is_absolute(p) {
        p
    } else {
        path_join("."@, p)
    }
}

impl Vault {
    /// Whether two vaults agree in every field, partitions included.
    pub open spec fn same_as(self, other: Vault) -> bool
        decreases self,
    {
        &&& self.name == other.name
        &&& self.kind == other.kind
        &&& self.index == other.index
        &&& self.resolved_at == other.resolved_at
        &&& self.vault_path == other.vault_path
        &&& self.auto_import == other.auto_import
        &&& self.trust_model == other.trust_model
        &&& self.secrets == other.secrets
        &&& self.gpg_keys == other.gpg_keys
        &&& self.recipients == other.recipients
        &&& self.partitions@.len() == other.partitions@.len()
        &&& forall|i: int|
            0 <= i < self.partitions@.len() ==> (#[trigger] self.partitions@[i]).same_as(
                other.partitions@[i],
            )
    }

    /// `path` seen from the directory of the descriptor, normalized.
    pub open spec fn absolute_text(self, path: Seq<char>) -> Seq<char> {
        normalized(path_join(self.resolved_at@, path))
    }

    /// The directory that holds the ciphertext files.
    pub open spec fn secrets_text(self) -> Seq<char> {
        normalized(self.absolute_text(self.secrets@))
    }

    /// The file that lists the recipients: a bare file name lies inside the
    /// secrets directory; a path of more components, or of none, is taken as
    /// written, seen from the directory of the descriptor.
    pub open spec fn recipients_text(self) -> Seq<char> {
        if path_components(self.recipients@).len() == 1 {
            path_join(self.secrets_text(), self.recipients@)
        } else {
            self.absolute_text(self.recipients@)
        }
    }

    /// The vault's address for display: `syv://`, the name with `@` where
    /// there is one, and the secrets directory.
    pub open spec fn url_text(self) -> Seq<char> {
        match self.name {
            Some(n) => "syv://"@ + (n@ + "@"@) + self.secrets_text(),
            None => "syv://"@ + self.secrets_text(),
        }
    }

    /// The descriptor's path for messages, `<unknown>` where there is none.
    pub open spec fn vault_path_text(self) -> Seq<char> {
        match self.vault_path {
            Some(p) => p@,
            None => "<unknown>"@,
        }
    }

    /// Remembers the descriptor's path and resolves the vault at the
    /// normalized directory that holds it.
    pub fn set_resolved_at(self, vault_file: &str) -> (r: Result<Vault, Error>)
        ensures
            match path_parent(vault_file@) {
                Some(dir) => r is Ok && r->Ok_0.resolved_at@ == normalized(dir)
                    && r->Ok_0.vault_path is Some && r->Ok_0.vault_path->Some_0@ == vault_file@
                    && r->Ok_0 == (Vault {
                    resolved_at: r->Ok_0.resolved_at,
                    vault_path: r->Ok_0.vault_path,
                    ..self
                }),
                None => r is Err && r->Err_0 is InvalidVaultPath
                    && r->Err_0->InvalidVaultPath_path@ == vault_file@,
            },
    {
        match parent_of(vault_file) {
            None => Err(Error::InvalidVaultPath { path: vault_file.to_string() }),
            Some(dir) => {
                let mut vault = self;
                vault.resolved_at = normalize(dir.as_str());
                vault.vault_path = Some(vault_file.to_string());
                Ok(vault)
            },
        }
    }

    /// `path` seen from the directory of the descriptor.
    pub fn absolute_path(&self, path: &str) -> (r: String)
        ensures
            r@ == self.absolute_text(path@),
    {
        let joined = join_paths(self.resolved_at.as_str(), path);
        normalize(joined.as_str())
    }

    /// The directory that holds the ciphertext files.
    pub fn secrets_path(&self) -> (r: String)
        ensures
            r@ == self.secrets_text(),
    {
        let abs = self.absolute_path(self.secrets.as_str());
        normalize(abs.as_str())
    }

    /// The file that lists the recipients: inside the secrets directory where
    /// only a file name is given, else as written.
    pub fn recipients_path(&self) -> (r: String)
        ensures
            r@ == self.recipients_text(),
    {
        let parts = components_of(self.recipients.as_str());
        assert(parts_text(parts@).len() == parts@.len());
        if parts.len() == 1 {
            let secrets = self.secrets_path();
            join_paths(secrets.as_str(), self.recipients.as_str())
        } else {
            self.absolute_path(self.recipients.as_str())
        }
    }

    /// The vault's address for display.
    pub fn url(&self) -> (r: String)
        ensures
            r@ == self.url_text(),
    {
        let secrets = self.secrets_path();
        match &self.name {
            Some(n) => {
                let tag = concat2(n.as_str(), "@");
                concat3("syv://", tag.as_str(), secrets.as_str())
            },
            None => concat2("syv://", secrets.as_str()),
        }
    }

    /// The descriptor's path for messages.
    pub fn vault_path_for_display(&self) -> (r: String)
        ensures
            r@ == self.vault_path_text(),
    {
        match &self.vault_path {
            Some(p) => p.clone(),
            None => "<unknown>".to_string(),
        }
    }

    /// The directory of public keys that this vault itself names.
    pub open spec fn own_keys_dir(self) -> Option<Seq<char>> {
        match self.gpg_keys {
            Some(dir) => Some(self.absolute_text(dir@)),
            None => None,
        }
    }

    /// The directory of public keys that this vault itself names.
    pub fn gpg_keys_dir(&self) -> (r: Result<String, Error>)
        ensures
            match self.own_keys_dir() {
                Some(dir) => r is Ok && r->Ok_0@ == dir,
                None => r is Err && r->Err_0 is NoGpgKeysDir && r->Err_0->NoGpgKeysDir_vault_path@
                    == self.vault_path_text(),
            },
    {
        match &self.gpg_keys {
            Some(dir) => Ok(self.absolute_path(dir.as_str())),
            None => Err(Error::NoGpgKeysDir { vault_path: self.vault_path_for_display() }),
        }
    }
}

impl Vault {
    /// How many vaults the descriptor holds: the partitions and this one.
    pub open spec fn member_count(self) -> int {
        self.partitions@.len() as int + 1
    }

    /// The vaults of the descriptor: the partitions in their order, then this
    /// vault.
    pub open spec fn member(self, i: int) -> Vault {
        if 0 <= i < self.partitions@.len() {
            self.partitions@[i]
        } else {
            self
        }
    }

    /// The secrets directory of a member, made comparable.
    pub open spec fn anchored_secrets(self, i: int) -> Seq<char> {
        anchored(self.member(i).secrets_text())
    }

    /// Whether member `i` keeps its secrets at or below the directory of
    /// another member `j`.
    pub open spec fn nested(self, i: int, j: int) -> bool {
        i != j && path_starts_with(self.anchored_secrets(i), self.anchored_secrets(j))
    }

    /// Whether member `i` lists its recipients in the file of an earlier
    /// member `j`.
    pub open spec fn shares_recipients(self, i: int, j: int) -> bool {
        j < i && path_same(self.member(j).recipients_text(), self.member(i).recipients_text())
    }

    /// No member's secrets directory is a prefix of another's, and no two
    /// members share a recipients file.
    pub open spec fn valid(self) -> bool {
        &&& forall|i: int, j: int|
            0 <= i < self.member_count() && 0 <= j < self.member_count() ==> !#[trigger] self.nested(
                i,
                j,
            )
        &&& forall|i: int, j: int|
            0 <= i < self.member_count() && 0 <= j < self.member_count()
                ==> !#[trigger] self.shares_recipients(i, j)
    }

    /// Whether some pair of members is nested.
    pub open spec fn has_nesting(self) -> bool {
        exists|i: int, j: int|
            0 <= i < self.member_count() && 0 <= j < self.member_count() && #[trigger] self.nested(
                i,
                j,
            )
    }

    /// Whether the nested pair `(i, j)` is the first one, going through the
    /// members `i` in order and for each through the members `j` in order.
    pub open spec fn first_nesting(self, i: int, j: int) -> bool {
        &&& 0 <= i < self.member_count()
        &&& 0 <= j < self.member_count()
        &&& self.nested(i, j)
        &&& forall|a: int, b: int|
            0 <= a < self.member_count() && 0 <= b < self.member_count() && (a < i || (a == i && b
                < j)) ==> !#[trigger] self.nested(a, b)
    }

    /// Whether member `i` is the first one that shares its recipients file
    /// with an earlier member.
    pub open spec fn first_sharing(self, i: int) -> bool {
        &&& 0 <= i < self.member_count()
        &&& exists|j: int| 0 <= j < i && #[trigger] self.shares_recipients(i, j)
        &&& forall|a: int, b: int|
            0 <= a < i && 0 <= b < a ==> !#[trigger] self.shares_recipients(a, b)
    }

    /// Whether `e` names the rule that the members break: the first nested
    /// pair where there is nesting, with the secrets directories of the two;
    /// else the recipients file of the first member that shares one.
    pub open spec fn broken_rule_fits(self, e: Error) -> bool {
        if self.has_nesting() {
            exists|i: int, j: int|
                #![trigger self.nested(i, j)]
                self.first_nesting(i, j) && e is NestedPartition && e->NestedPartition_inner@
                    == self.anchored_secrets(i) && e->NestedPartition_outer@ == self.anchored_secrets(j)
        } else {
            exists|i: int|
                #![trigger self.member(i)]
                self.first_sharing(i) && e is RecipientsPathReused && e->RecipientsPathReused_path@
                    == self.member(i).recipients_text()
        }
    }

    /// The partitions in their order, then the vault itself.
    pub fn members(&self) -> (r: Vec<&Vault>)
        ensures
            r@.len() == self.member_count(),
            forall|m: int| 0 <= m < r@.len() ==> *#[trigger] r@[m] == self.member(m),
    {
        let mut out: Vec<&Vault> = Vec::new();
        let mut k: usize = 0;
        while k < self.partitions.len()
            invariant
                k <= self.partitions.len(),
                out@.len() == k,
                forall|m: int| 0 <= m < k ==> *#[trigger] out@[m] == self.member(m),
            decreases self.partitions.len() - k,
        {
            out.push(&self.partitions[k]);
            k = k + 1;
        }
        out.push(self);
        out
    }

    /// Checks the rules that hold across the members of a descriptor.
    ///
    /// Nesting is looked for first, and reported for the first nested pair;
    /// a shared recipients file is reported for the first member that reuses
    /// an earlier one's.
    pub fn validate(&self) -> (r: Result<(), Error>)
        ensures
            r is Ok <==> self.valid(),
            r is Err ==> self.broken_rule_fits(r->Err_0),
    {
        let members = self.members();
        let count = members.len();
        let mut secrets: Vec<String> = Vec::new();
        let mut recipients: Vec<String> = Vec::new();
        let mut k: usize = 0;
        while k < count
            invariant
                k <= count,
                count == self.member_count(),
                members@.len() == count,
                forall|m: int| 0 <= m < count ==> *#[trigger] members@[m] == self.member(m),
                secrets@.len() == k,
                recipients@.len() == k,
                forall|m: int| 0 <= m < k ==> (#[trigger] secrets@[m])@ == self.anchored_secrets(m),
                forall|m: int|
                    0 <= m < k ==> (#[trigger] recipients@[m])@ == self.member(m).recipients_text(),
            decreases count - k,
        {
            let v = members[k];
            let mut p = v.secrets_path();
            if !is_absolute(p.as_str()) {
                p = join_paths(".", p.as_str());
            }
            secrets.push(p);
            recipients.push(v.recipients_path());
            k = k + 1;
        }
        let mut i: usize = 0;
        while i < count
            invariant
                i <= count,
                count == self.member_count(),
                secrets@.len() == count,
                forall|m: int|
                    0 <= m < count ==> (#[trigger] secrets@[m])@ == self.anchored_secrets(m),
                forall|a: int, b: int|
                    0 <= a < i && 0 <= b < count ==> !#[trigger] self.nested(a, b),
            decreases count - i,
        {
            let mut j: usize = 0;
            while j < count
                invariant
                    i < count,
                    j <= count,
                    count == self.member_count(),
                    secrets@.len() == count,
                    forall|m: int|
                        0 <= m < count ==> (#[trigger] secrets@[m])@ == self.anchored_secrets(m),
                    forall|a: int, b: int|
                        0 <= a < i && 0 <= b < count ==> !#[trigger] self.nested(a, b),
                    forall|b: int| 0 <= b < j ==> !#[trigger] self.nested(i as int, b),
                decreases count - j,
            {
                if i != j && starts_with(secrets[i].as_str(), secrets[j].as_str()) {
                    assert(self.nested(i as int, j as int));
                    assert(self.first_nesting(i as int, j as int));
                    return Err(
                        Error::NestedPartition {
                            inner: secrets[i].clone(),
                            outer: secrets[j].clone(),
                        },
                    );
                }
                j = j + 1;
            }
            i = i + 1;
        }
        assert(!self.has_nesting());
        let mut i: usize = 0;
        while i < count
            invariant
                i <= count,
                count == self.member_count(),
                recipients@.len() == count,
                !self.has_nesting(),
                forall|m: int|
                    0 <= m < count ==> (#[trigger] recipients@[m])@ == self.member(
                        m,
                    ).recipients_text(),
                forall|a: int, b: int| 0 <= a < i && 0 <= b < a ==> !#[trigger] self.shares_recipients(a, b),
            decreases count - i,
        {
            let mut j: usize = 0;
            while j < i
                invariant
                    i < count,
                    j <= i,
                    count == self.member_count(),
                    recipients@.len() == count,
                    !self.has_nesting(),
                    forall|m: int|
                        0 <= m < count ==> (#[trigger] recipients@[m])@ == self.member(
                            m,
                        ).recipients_text(),
                    forall|a: int, b: int|
                        0 <= a < i && 0 <= b < a ==> !#[trigger] self.shares_recipients(a, b),
                    forall|b: int| 0 <= b < j ==> !#[trigger] self.shares_recipients(i as int, b),
                decreases i - j,
            {
                if same_path(recipients[j].as_str(), recipients[i].as_str()) {
                    assert(self.shares_recipients(i as int, j as int));
                    assert(self.first_sharing(i as int));
                    let ghost m = self.member(i as int);
                    return Err(Error::RecipientsPathReused { path: recipients[i].clone() });
                }
                j = j + 1;
            }
            i = i + 1;
        }
        assert(self.valid()) by {
            assert forall|a: int, b: int|
                0 <= a < self.member_count() && 0 <= b < self.member_count() implies !#[trigger] self.nested(
                a,
                b,
            ) by {
                if self.nested(a, b) {
                    assert(self.has_nesting());
                }
            }
        }
        Ok(())
    }
}

impl Vault {
    /// The first directory of public keys that a partition from `from` on
    /// names.
    pub open spec fn partition_keys_dir(self, from: int) -> Option<Seq<char>>
        decreases self.partitions@.len() - from,
    {
        if from < 0 || from >= self.partitions@.len() {
            None
        } else {
            match self.partitions@[from].own_keys_dir() {
                Some(dir) => Some(dir),
                None => self.partition_keys_dir(from + 1),
            }
        }
    }

    /// The directory of public keys of the descriptor: the vault's own, or
    /// else that of the first partition that names one.
    pub open spec fn shared_keys_dir(self) -> Option<Seq<char>> {
        match self.own_keys_dir() {
            Some(dir) => Some(dir),
            None => self.partition_keys_dir(0),
        }
    }

    /// Whether missing keys are imported from the key directory when working
    /// on `partition`: the partition decides, else the leader, else it is off.
    pub open spec fn imports_for(self, partition: Vault) -> bool {
        match partition.auto_import {
            Some(b) => b,
            None => match self.auto_import {
                Some(b) => b,
                None => false,
            },
        }
    }

    /// The trust model to encrypt with for `partition`: the partition's, else
    /// the leader's, else the web of trust.
    pub open spec fn trust_model_for(self, partition: Vault) -> TrustModel {
        match partition.trust_model {
            Some(m) => m,
            None => match self.trust_model {
                Some(m) => m,
                None => TrustModel::GpgWebOfTrust,
            },
        }
    }

    /// The directory of public keys of the descriptor.
    pub fn find_gpg_keys_dir(&self) -> (r: Result<String, Error>)
        ensures
            match self.shared_keys_dir() {
                Some(dir) => r is Ok && r->Ok_0@ == dir,
                None => r is Err && r->Err_0 is NoGpgKeysDir && r->Err_0->NoGpgKeysDir_vault_path@
                    == self.vault_path_text(),
            },
    {
        match self.gpg_keys_dir() {
            Ok(dir) => {
                return Ok(dir);
            },
            Err(_) => {},
        }
        let mut i: usize = 0;
        while i < self.partitions.len()
            invariant
                i <= self.partitions.len(),
                self.own_keys_dir() is None,
                self.partition_keys_dir(0) == self.partition_keys_dir(i as int),
            decreases self.partitions.len() - i,
        {
            match self.partitions[i].gpg_keys_dir() {
                Ok(dir) => {
                    return Ok(dir);
                },
                Err(_) => {},
            }
            i = i + 1;
        }
        Err(Error::NoGpgKeysDir { vault_path: self.vault_path_for_display() })
    }

    /// The directory to import missing keys from while working on
    /// `partition`, where importing is switched on and a directory is known.
    pub fn gpg_keys_dir_for_auto_import(&self, partition: &Vault) -> (r: Option<String>)
        ensures
            self.imports_for(*partition) ==> crate::paths::opt_text(r) == self.shared_keys_dir(),
            !self.imports_for(*partition) ==> r is None,
    {
        let auto_import = match partition.auto_import {
            Some(b) => b,
            None => match self.auto_import {
                Some(b) => b,
                None => false,
            },
        };
        if auto_import {
            match self.find_gpg_keys_dir() {
                Ok(dir) => Some(dir),
                Err(_) => None,
            }
        } else {
            None
        }
    }

    /// The trust model to encrypt with for `partition`.
    pub fn find_trust_model(&self, partition: &Vault) -> (r: TrustModel)
        ensures
            r == self.trust_model_for(*partition),
    {
        match partition.trust_model {
            Some(m) => m,
            None => match self.trust_model {
                Some(m) => m,
                None => TrustModel::GpgWebOfTrust,
            },
        }
    }
}

} // verus!
