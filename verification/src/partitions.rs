//! Finding, adding and removing the partitions of a vault.

use crate::error::Error;
use crate::paths::file_name_of;
use crate::paths::join_paths;
use crate::paths::opt_text;
use crate::paths::parent_of;
use crate::paths::path_file_name;
use crate::paths::path_join;
use crate::paths::path_parent;
use crate::paths::path_same;
use crate::paths::same_path;
use crate::text::parse_index;
use crate::text::parsed_index;
use crate::text::same_text;
use crate::types::WriteMode;
use crate::vault::Vault;
use crate::vault::VaultKind;
use vstd::prelude::*;

verus! {

/// The vaults that a list of references points to.
pub open spec fn vaults_of(refs: Seq<&Vault>) -> Seq<Vault> {
    refs.map_values(|v: &Vault| *v)
}

/// Whether a selector that is no index picks the vault: by its secrets
/// directory as written, or by its name.
pub open spec fn selects(v: Vault, selector: Seq<char>) -> bool {
    path_same(v.secrets@, selector) || (v.name is Some && v.name->Some_0@ == selector)
}

/// The first position from `from` on whose vault the selector picks; the
/// length where it picks none.
pub open spec fn first_selected(vaults: Seq<Vault>, selector: Seq<char>, from: int) -> int
    decreases vaults.len() - from,
{
    if from < 0 || from >= vaults.len() {
        vaults.len() as int
    } else if selects(vaults[from], selector) {
        from
    } else {
        first_selected(vaults, selector, from + 1)
    }
}

/// The first vault that a selector picks lies where it is looked for, is
/// picked, and has no picked vault before it.
pub proof fn lemma_first_selected(vaults: Seq<Vault>, selector: Seq<char>, from: int)
    requires
        0 <= from <= vaults.len(),
    ensures
        from <= first_selected(vaults, selector, from) <= vaults.len(),
        first_selected(vaults, selector, from) < vaults.len() ==> selects(
            vaults[first_selected(vaults, selector, from)],
            selector,
        ),
        forall|j: int|
            from <= j < first_selected(vaults, selector, from) ==> !selects(
                #[trigger] vaults[j],
                selector,
            ),
    decreases vaults.len() - from,
{
    if from < vaults.len() && !selects(vaults[from], selector) {
        lemma_first_selected(vaults, selector, from + 1);
    }
}

/// Whether one of the vaults has the index `n`.
pub open spec fn has_index(vaults: Seq<Vault>, n: usize) -> bool {
    exists|i: int| 0 <= i < vaults.len() && (#[trigger] vaults[i]).index == n
}

/// The index that a selector picks among the vaults, where it picks one.
///
/// A selector that reads as a number is an index: it must be the index of one
/// of the vaults and must not be `leader_index`. Any other selector must fit
/// exactly one vault by its secrets directory or its name.
pub open spec fn picked_index(
    vaults: Seq<Vault>,
    selector: Seq<char>,
    leader_index: Option<usize>,
) -> Option<usize> {
    match parsed_index(selector) {
        Some(n) => {
            if leader_index != Some(n) && has_index(vaults, n) {
                Some(n)
            } else {
                None
            }
        },
        None => {
            let a = first_selected(vaults, selector, 0);
            let b = first_selected(vaults, selector, a + 1);
            if a < vaults.len() && b == vaults.len() {
                Some(vaults[a].index)
            } else {
                None
            }
        },
    }
}

/// Whether `e` is the error owed for a selector that picks no index.
pub open spec fn refusal_fits(
    e: Error,
    vaults: Seq<Vault>,
    selector: Seq<char>,
    leader_index: Option<usize>,
) -> bool {
    match parsed_index(selector) {
        Some(n) => {
            if leader_index == Some(n) {
                e == (Error::RefuseRemoveLeader { index: n })
            } else {
                e == (Error::PartitionIndexNotFound { index: n })
            }
        },
        None => {
            if first_selected(vaults, selector, 0) == vaults.len() {
                e is NoPartitionMatched && e->NoPartitionMatched_selector@ == selector
            } else {
                e is AmbiguousSelector && e->AmbiguousSelector_selector@ == selector
            }
        },
    }
}

fn picks(v: &Vault, selector: &str) -> (r: bool)
    ensures
        r == selects(*v, selector@),
{
    if same_path(v.secrets.as_str(), selector) {
        true
    } else {
        match &v.name {
            Some(n) => same_text(n.as_str(), selector),
            None => false,
        }
    }
}

fn next_selected(vaults: &Vec<&Vault>, selector: &str, from: usize) -> (r: usize)
    requires
        from <= vaults.len(),
    ensures
        r == first_selected(vaults_of(vaults@), selector@, from as int),
        from <= r <= vaults.len(),
{
    let mut i: usize = from;
    while i < vaults.len()
        invariant
            from <= i <= vaults.len(),
            first_selected(vaults_of(vaults@), selector@, from as int) == first_selected(
                vaults_of(vaults@),
                selector@,
                i as int,
            ),
        decreases vaults.len() - i,
    {
        if picks(vaults[i], selector) {
            return i;
        }
        i = i + 1;
    }
    i
}

impl Vault {
    /// The index of the vault that a selector picks among `partitions`, or the
    /// reason why it picks none.
    pub fn partition_index(selector: &str, partitions: &Vec<&Vault>, leader_index: Option<usize>) -> (r:
        Result<usize, Error>)
        ensures
            match picked_index(vaults_of(partitions@), selector@, leader_index) {
                Some(n) => r == Ok::<usize, Error>(n),
                None => r is Err && refusal_fits(
                    r->Err_0,
                    vaults_of(partitions@),
                    selector@,
                    leader_index,
                ),
            },
    {
        match parse_index(selector) {
            Some(n) => {
                match leader_index {
                    Some(l) => {
                        if l == n {
                            return Err(Error::RefuseRemoveLeader { index: n });
                        }
                    },
                    None => {},
                }
                let mut i: usize = 0;
                while i < partitions.len()
                    invariant
                        i <= partitions.len(),
                        parsed_index(selector@) == Some(n),
                        leader_index != Some(n),
                        forall|j: int|
                            0 <= j < i ==> (#[trigger] vaults_of(partitions@)[j]).index != n,
                    decreases partitions.len() - i,
                {
                    if partitions[i].index == n {
                        assert(vaults_of(partitions@)[i as int].index == n);
                        return Ok(n);
                    }
                    i = i + 1;
                }
                Err(Error::PartitionIndexNotFound { index: n })
            },
            None => {
                let a = next_selected(partitions, selector, 0);
                if a == partitions.len() {
                    return Err(Error::NoPartitionMatched { selector: selector.to_string() });
                }
                let b = next_selected(partitions, selector, a + 1);
                if b == partitions.len() {
                    Ok(partitions[a].index)
                } else {
                    Err(Error::AmbiguousSelector { selector: selector.to_string() })
                }
            },
        }
    }
}


/// The first position from `from` on whose vault has the index `n`; the
/// length where none has.
pub open spec fn position_of_index(vaults: Seq<Vault>, n: usize, from: int) -> int
    decreases vaults.len() - from,
{
    if from < 0 || from >= vaults.len() {
        vaults.len() as int
    } else if vaults[from].index == n {
        from
    } else {
        position_of_index(vaults, n, from + 1)
    }
}

/// The first vault with an index lies where it is looked for, has that
/// index, and has no vault with it before it.
pub proof fn lemma_position_of_index(vaults: Seq<Vault>, n: usize, from: int)
    requires
        0 <= from <= vaults.len(),
    ensures
        from <= position_of_index(vaults, n, from) <= vaults.len(),
        position_of_index(vaults, n, from) < vaults.len() ==> vaults[position_of_index(
            vaults,
            n,
            from,
        )].index == n,
        forall|j: int| from <= j < position_of_index(vaults, n, from) ==> vaults[j].index != n,
    decreases vaults.len() - from,
{
    if from < vaults.len() && vaults[from].index != n {
        lemma_position_of_index(vaults, n, from + 1);
    }
}

/// Whether `p` is `v` as a partition: the same in every field but the kind.
pub open spec fn demoted(p: Vault, v: Vault) -> bool {
    p == (Vault { kind: crate::vault::VaultKind::Partition, ..v })
}

/// Whether `leader` is the vault at `pos` made the leader of all the others:
/// the same in every field but the kind, with the other vaults, in their
/// order, as its partitions.
pub open spec fn leads(leader: Vault, vaults: Seq<Vault>, pos: int) -> bool {
    &&& 0 <= pos < vaults.len()
    &&& leader == (Vault {
        kind: crate::vault::VaultKind::Leader,
        partitions: leader.partitions,
        ..vaults[pos]
    })
    &&& leader.partitions@.len() == vaults.len() - 1
    &&& forall|i: int| 0 <= i < pos ==> demoted(#[trigger] leader.partitions@[i], vaults[i])
    &&& forall|i: int|
        pos <= i < vaults.len() - 1 ==> demoted(#[trigger] leader.partitions@[i], vaults[i + 1])
}

/// Picking the vault to work on from the vaults of a descriptor.
pub trait VaultExt {
    /// The vault that the selector picks, leading all the others.
    fn select(self, selector: &str) -> Result<Vault, Error>;
}

/// Makes the vault that the selector picks the leader, and every other vault
/// of the list a partition of it.
pub fn select_vault(list: Vec<Vault>, selector: &str) -> (r: Result<Vault, Error>)
    ensures
        match picked_index(list@, selector@, None) {
            Some(n) => r is Ok && leads(r->Ok_0, list@, position_of_index(list@, n, 0)),
            None => r is Err && refusal_fits(r->Err_0, list@, selector@, None),
        },
{
    let mut list = list;
    let ghost before = list@;
    let found = {
        let mut refs: Vec<&Vault> = Vec::new();
        let mut i: usize = 0;
        while i < list.len()
            invariant
                i <= list.len(),
                list@ == before,
                refs@.len() == i,
                forall|j: int| 0 <= j < i ==> *#[trigger] refs@[j] == before[j],
            decreases list.len() - i,
        {
            refs.push(&list[i]);
            i = i + 1;
        }
        assert(vaults_of(refs@) =~= before);
        Vault::partition_index(selector, &refs, None)
    };
    let n = match found {
        Ok(n) => n,
        Err(e) => {
            return Err(e);
        },
    };
    let mut pos: usize = 0;
    while pos < list.len() && list[pos].index != n
        invariant
            pos <= list.len(),
            list@ == before,
            position_of_index(before, n, 0) == position_of_index(before, n, pos as int),
        decreases list.len() - pos,
    {
        pos = pos + 1;
    }
    proof {
        lemma_position_of_index(before, n, 0);
        if parsed_index(selector@) is Some {
            let w = choose|i: int| 0 <= i < before.len() && (#[trigger] before[i]).index == n;
            if position_of_index(before, n, 0) > w {
                assert(before[w].index != n);
            }
        } else {
            let a = first_selected(before, selector@, 0);
            lemma_first_selected(before, selector@, 0);
            if position_of_index(before, n, 0) > a {
                assert(before[a].index != n);
            }
        }
    }
    assert(pos < list.len());
    let mut leader = list.remove(pos);
    leader.kind = crate::vault::VaultKind::Leader;
    let mut partitions: Vec<Vault> = Vec::new();
    let ghost rest = list@;
    while list.len() > 0
        invariant
            partitions@.len() + list@.len() == rest.len(),
            forall|i: int| 0 <= i < list@.len() ==> list@[i] == rest[partitions@.len() + i],
            forall|i: int| 0 <= i < partitions@.len() ==> demoted(#[trigger] partitions@[i], rest[i]),
        decreases list.len(),
    {
        let mut v = list.remove(0);
        v.kind = crate::vault::VaultKind::Partition;
        partitions.push(v);
    }
    leader.partitions = partitions;
    Ok(leader)
}

impl VaultExt for Vec<Vault> {
    fn select(self, selector: &str) -> (r: Result<Vault, Error>)
        ensures
            match picked_index(self@, selector@, None) {
                Some(n) => r is Ok && leads(r->Ok_0, self@, position_of_index(self@, n, 0)),
                None => r is Err && refusal_fits(r->Err_0, self@, selector@, None),
            },
    {
        select_vault(self, selector)
    }
}

/// Whether the vaults stand in the order of their indices.
pub open spec fn ordered_by_index(vaults: Seq<Vault>) -> bool {
    forall|i: int, j: int| 0 <= i < j < vaults.len() ==> vaults[i].index <= vaults[j].index
}

/// The vaults of a descriptor with the leader first.
pub open spec fn leader_first(leader: Vault) -> Seq<Vault> {
    seq![leader] + leader.partitions@
}

/// The vaults of a descriptor with the leader last.
pub open spec fn leader_last(leader: Vault) -> Seq<Vault> {
    leader.partitions@.push(leader)
}

/// Whether `all` holds the vaults of the descriptor, each as often as the
/// descriptor does, in the order of their indices.
pub open spec fn is_in_order(all: Seq<&Vault>, leader: Vault) -> bool {
    &&& vaults_of(all).to_multiset() == leader_last(leader).to_multiset()
    &&& ordered_by_index(vaults_of(all))
}

/// Calls `sort_by_key` of slices with the vault's index as the key. Afterwards
/// the list holds what it held before, in the order of the indices.
#[verifier::external_body]
fn sort_by_index(vaults: &mut Vec<&Vault>)
    ensures
        vaults_of(final(vaults)@).to_multiset() == vaults_of(old(vaults)@).to_multiset(),
        ordered_by_index(vaults_of(final(vaults)@)),
{
    vaults.sort_by_key(|v| v.index);
}

/// Whether one of the selectors picks, among the vaults of the descriptor, the
/// vault with index `n`.
pub open spec fn picked_by_any(leader: Vault, selectors: Seq<String>, n: usize) -> bool {
    exists|k: int|
        0 <= k < selectors.len() && picked_index(leader_first(leader), (#[trigger] selectors[k])@, None)
            == Some(n)
}

/// The first selector from `from` on that picks no vault; the length where
/// each picks one.
pub open spec fn first_unmatched(leader: Vault, selectors: Seq<String>, from: int) -> int
    decreases selectors.len() - from,
{
    if from < 0 || from >= selectors.len() {
        selectors.len() as int
    } else if picked_index(leader_first(leader), selectors[from]@, None) is None {
        from
    } else {
        first_unmatched(leader, selectors, from + 1)
    }
}

impl Vault {
    /// The largest index among the vault and its partitions.
    pub open spec fn max_index(self) -> usize {
        max_index_upto(self, self.partitions@.len() as int)
    }

    /// The partitions and the vault itself, in the order of their indices.
    pub fn all_in_order(&self) -> (r: Vec<&Vault>)
        ensures
            is_in_order(r@, *self),
    {
        let mut all = self.members();
        assert(vaults_of(all@) =~= leader_last(*self));
        sort_by_index(&mut all);
        all
    }

    /// The vaults that the selectors pick, in the order of their indices; the
    /// vault itself where there is no selector.
    ///
    /// Each selector picks among the vault and its partitions as
    /// `partition_index` does. The first selector that picks none gives the
    /// error.
    pub fn partitions_by_name_or_path(&self, partitions: &Vec<String>) -> (r: Result<
        Vec<&Vault>,
        Error,
    >)
        ensures
            partitions@.len() == 0 ==> r is Ok && vaults_of(r->Ok_0@) == seq![*self],
            partitions@.len() > 0 && first_unmatched(*self, partitions@, 0) < partitions@.len() ==> r is Err
                && refusal_fits(
                r->Err_0,
                leader_first(*self),
                partitions@[first_unmatched(*self, partitions@, 0)]@,
                None,
            ),
            partitions@.len() > 0 && first_unmatched(*self, partitions@, 0) == partitions@.len() ==> r is Ok
                && exists|all: Seq<&Vault>|
                is_in_order(all, *self) && #[trigger] vaults_of(r->Ok_0@) == vaults_of(all).filter(
                    |v: Vault| picked_by_any(*self, partitions@, v.index),
                ),
    {
        if partitions.len() == 0 {
            let mut only: Vec<&Vault> = Vec::new();
            only.push(self);
            assert(vaults_of(only@) =~= seq![*self]);
            return Ok(only);
        }
        let mut candidates: Vec<&Vault> = Vec::new();
        candidates.push(self);
        let mut k: usize = 0;
        while k < self.partitions.len()
            invariant
                k <= self.partitions.len(),
                candidates@.len() == k + 1,
                *candidates@[0] == *self,
                forall|m: int| 1 <= m <= k ==> *#[trigger] candidates@[m] == self.partitions@[m - 1],
            decreases self.partitions.len() - k,
        {
            candidates.push(&self.partitions[k]);
            k = k + 1;
        }
        assert(vaults_of(candidates@) =~= leader_first(*self));
        let mut indices: Vec<usize> = Vec::new();
        let mut s: usize = 0;
        while s < partitions.len()
            invariant
                s <= partitions.len(),
                vaults_of(candidates@) == leader_first(*self),
                indices@.len() == s,
                first_unmatched(*self, partitions@, 0) == first_unmatched(*self, partitions@, s as int),
                forall|m: int|
                    0 <= m < s ==> picked_index(leader_first(*self), (#[trigger] partitions@[m])@, None)
                        == Some(indices@[m]),
            decreases partitions.len() - s,
        {
            match Vault::partition_index(partitions[s].as_str(), &candidates, None) {
                Ok(n) => {
                    indices.push(n);
                },
                Err(e) => {
                    return Err(e);
                },
            }
            s = s + 1;
        }
        let all = self.all_in_order();
        let ghost wanted = |v: Vault| picked_by_any(*self, partitions@, v.index);
        let mut out: Vec<&Vault> = Vec::new();
        let mut i: usize = 0;
        while i < all.len()
            invariant
                i <= all.len(),
                indices@.len() == partitions@.len(),
                wanted == |v: Vault| picked_by_any(*self, partitions@, v.index),
                forall|m: int|
                    0 <= m < partitions@.len() ==> picked_index(
                        leader_first(*self),
                        (#[trigger] partitions@[m])@,
                        None,
                    ) == Some(indices@[m]),
                vaults_of(out@) == vaults_of(all@).take(i as int).filter(wanted),
            decreases all.len() - i,
        {
            let v = all[i];
            let mut hit = false;
            let mut m: usize = 0;
            while m < indices.len()
                invariant
                    m <= indices.len(),
                    hit <==> exists|q: int| 0 <= q < m && #[trigger] indices@[q] == v.index,
                decreases indices.len() - m,
            {
                if indices[m] == v.index {
                    hit = true;
                }
                m = m + 1;
            }
            proof {
                let prefix = vaults_of(all@).take(i as int);
                let next = vaults_of(all@).take(i + 1);
                assert(next =~= prefix.push(*v));
                assert(next.drop_last() =~= prefix);
                reveal(Seq::filter);
                if hit {
                    let q = choose|q: int| 0 <= q < indices@.len() && #[trigger] indices@[q] == v.index;
                    assert(picked_index(leader_first(*self), partitions@[q]@, None) == Some(v.index));
                    assert(wanted(*v));
                } else {
                    if wanted(*v) {
                        let q = choose|q: int|
                            0 <= q < partitions@.len() && picked_index(
                                leader_first(*self),
                                (#[trigger] partitions@[q])@,
                                None,
                            ) == Some(v.index);
                        assert(indices@[q] == v.index);
                    }
                }
            }
            if hit {
                out.push(v);
                assert(vaults_of(out@) =~= vaults_of(out@.drop_last()).push(*v));
            }
            i = i + 1;
        }
        assert(vaults_of(all@).take(all@.len() as int) =~= vaults_of(all@));
        Ok(out)
    }
}

/// The largest index among the vault and the first `n` of its partitions.
pub open spec fn max_index_upto(leader: Vault, n: int) -> usize
    decreases n,
{
    if n <= 0 || n > leader.partitions@.len() {
        leader.index
    } else {
        let before = max_index_upto(leader, n - 1);
        if leader.partitions@[n - 1].index > before {
            leader.partitions@[n - 1].index
        } else {
            before
        }
    }
}

impl Vault {
    /// Whether the vault can be written to its descriptor: it knows the file,
    /// keeps the rules across its members, and is a leader.
    pub open spec fn writable(self) -> bool {
        self.vault_path is Some && self.valid() && self.kind is Leader
    }

    /// Whether `e` says why the vault may not be written to `path`: broken
    /// rules across the members first, then a vault that is no leader.
    pub open spec fn write_refusal_fits(self, e: Error) -> bool {
        if !self.valid() {
            self.broken_rule_fits(e)
        } else {
            e is PartitionUnsupported
        }
    }

    /// Decides whether the vault may be written to the descriptor at `path`,
    /// given whether a file exists there.
    ///
    /// A file that exists is kept where overwriting is refused. Only a leader
    /// that keeps the rules across its members is written.
    pub fn to_file(&self, path: &str, mode: WriteMode, path_exists: bool) -> (r: Result<(), Error>)
        ensures
            r is Ok <==> !(mode is RefuseOverwrite && path_exists) && self.valid()
                && self.kind is Leader,
            mode is RefuseOverwrite && path_exists ==> r is Err && r->Err_0 is ConfigurationFileExists
                && r->Err_0->ConfigurationFileExists_path@ == path@,
            r is Err && !(mode is RefuseOverwrite && path_exists) ==> self.write_refusal_fits(
                r->Err_0,
            ),
    {
        if mode.refuse_overwrite() && path_exists {
            return Err(Error::ConfigurationFileExists { path: path.to_string() });
        }
        match self.validate() {
            Ok(_) => {},
            Err(e) => {
                return Err(e);
            },
        }
        match self.kind {
            VaultKind::Partition => Err(Error::PartitionUnsupported),
            VaultKind::Leader => Ok(()),
        }
    }

    /// Decides whether the vault may be written over its own descriptor, and
    /// gives the descriptor's path where it may.
    pub fn serialize(&self) -> (r: Result<String, Error>)
        ensures
            r is Ok <==> self.writable(),
            r is Ok ==> r->Ok_0@ == self.vault_path->Some_0@,
            self.vault_path is None ==> r is Err && r->Err_0 is UnknownVaultPath,
            self.vault_path is Some && r is Err ==> self.write_refusal_fits(r->Err_0),
    {
        match &self.vault_path {
            None => Err(Error::UnknownVaultPath),
            Some(path) => {
                match self.to_file(path.as_str(), WriteMode::AllowOverwrite, true) {
                    Ok(_) => Ok(path.clone()),
                    Err(e) => Err(e),
                }
            },
        }
    }

    /// Takes the partition that the selector picks out of the descriptor.
    /// A vault that could be written to its descriptor before still can be
    /// afterwards.
    ///
    /// The selector picks among the partitions as `partition_index` does, and
    /// may not give the index of the vault itself. The partitions with the
    /// picked index leave; no file is touched. The result says whether the
    /// vault may then be written to its descriptor.
    pub fn remove_partition(&mut self, selector: &str) -> (r: Result<(), Error>)
        ensures
            *final(self) == (Vault { partitions: final(self).partitions, ..*old(self) }),
            match picked_index(old(self).partitions@, selector@, Some(old(self).index)) {
                None => final(self).partitions@ == old(self).partitions@ && r is Err && refusal_fits(
                    r->Err_0,
                    old(self).partitions@,
                    selector@,
                    Some(old(self).index),
                ),
                Some(n) => {
                    &&& final(self).partitions@ == old(self).partitions@.filter(
                        |v: Vault| v.index != n,
                    )
                    &&& r is Ok <==> final(self).writable()
                    &&& r is Err && final(self).vault_path is None ==> r->Err_0 is UnknownVaultPath
                    &&& r is Err && final(self).vault_path is Some ==> final(self).write_refusal_fits(
                        r->Err_0,
                    )
                },
            },
            r is Ok ==> final(self).valid(),
            old(self).writable() && picked_index(
                old(self).partitions@,
                selector@,
                Some(old(self).index),
            ) is Some ==> r is Ok,
    {
        let ghost before_all = *self;
        let found = {
            let mut refs: Vec<&Vault> = Vec::new();
            let mut i: usize = 0;
            while i < self.partitions.len()
                invariant
                    i <= self.partitions.len(),
                    refs@.len() == i,
                    forall|j: int| 0 <= j < i ==> *#[trigger] refs@[j] == self.partitions@[j],
                decreases self.partitions.len() - i,
            {
                refs.push(&self.partitions[i]);
                i = i + 1;
            }
            assert(vaults_of(refs@) =~= self.partitions@);
            Vault::partition_index(selector, &refs, Some(self.index))
        };
        let n = match found {
            Ok(n) => n,
            Err(e) => {
                return Err(e);
            },
        };
        let mut all: Vec<Vault> = Vec::new();
        std::mem::swap(&mut self.partitions, &mut all);
        let ghost before = all@;
        let ghost keep = |v: Vault| v.index != n;
        let mut kept: Vec<Vault> = Vec::new();
        let ghost mut done: int = 0;
        while all.len() > 0
            invariant
                keep == |v: Vault| v.index != n,
                0 <= done,
                done + all@.len() == before.len(),
                all@ == before.skip(done),
                kept@ == before.take(done).filter(keep),
            decreases all.len(),
        {
            let v = all.remove(0);
            proof {
                let next = before.take(done + 1);
                assert(next.drop_last() =~= before.take(done));
                assert(next.last() == v);
                reveal(Seq::filter);
                assert(all@ =~= before.skip(done + 1));
            }
            if v.index != n {
                kept.push(v);
            }
            proof {
                done = done + 1;
            }
        }
        assert(before.take(done) =~= before);
        self.partitions = kept;
        proof {
            lemma_removal_keeps_rules(before_all, *self, n);
        }
        match self.serialize() {
            Ok(_) => Ok(()),
            Err(e) => Err(e),
        }
    }

    /// Whether `p` is the partition that is added for `path`: its secrets lie
    /// at `path` beside the vault's own, its recipients file is the one given
    /// or else named like the vault's inside its secrets, its name is the one
    /// given or else the last component of `path`, and its index follows the
    /// largest one in use.
    pub open spec fn new_partition_fits(
        self,
        p: Vault,
        path: Seq<char>,
        name: Option<Seq<char>>,
        recipients_file: Option<Seq<char>>,
    ) -> bool {
        &&& path_parent(self.secrets@) is Some
        &&& p.secrets@ == path_join(path_parent(self.secrets@)->Some_0, path)
        &&& match recipients_file {
            Some(f) => p.recipients@ == f,
            None => path_file_name(self.recipients@) is Some && p.recipients@ == path_join(
                p.secrets@,
                path_file_name(self.recipients@)->Some_0,
            ),
        }
        &&& match name {
            Some(n) => opt_text(p.name) == Some(n),
            None => opt_text(p.name) == path_file_name(path),
        }
        &&& p.index == self.max_index() + 1
        &&& p.kind is Partition
        &&& p.partitions@.len() == 0
        &&& p.resolved_at == self.resolved_at
        &&& p.vault_path == self.vault_path
        &&& p.gpg_keys is None
        &&& p.trust_model is None
        &&& p.auto_import is None
    }

    /// The largest index among the vault and its partitions.
    pub fn largest_index(&self) -> (r: usize)
        ensures
            r == self.max_index(),
    {
        let mut max = self.index;
        let mut i: usize = 0;
        while i < self.partitions.len()
            invariant
                i <= self.partitions.len(),
                max == max_index_upto(*self, i as int),
            decreases self.partitions.len() - i,
        {
            if self.partitions[i].index > max {
                max = self.partitions[i].index;
            }
            i = i + 1;
        }
        max
    }

    /// Adds a partition for `path` to the descriptor and hands out a copy of
    /// it.
    ///
    /// The new index follows the largest one in use; where that is the
    /// largest number there is, no partition is added.
    ///
    /// The partition is added before it is decided whether the vault may then
    /// be written to its descriptor; on an error of that kind it stays added.
    pub fn add_partition(
        &mut self,
        path: &str,
        name: Option<&str>,
        recipients_file: Option<&str>,
    ) -> (r: Result<Vault, Error>)
        ensures
            *final(self) == (Vault { partitions: final(self).partitions, ..*old(self) }),
            path_parent(old(self).secrets@) is None ==> r is Err && r->Err_0 is NoSecretsParent
                && r->Err_0->NoSecretsParent_secrets@ == old(self).secrets@ && final(self).partitions@
                == old(self).partitions@,
            path_parent(old(self).secrets@) is Some && recipients_file is None && path_file_name(
                old(self).recipients@,
            ) is None ==> r is Err && r->Err_0 is NoRecipientsFilename
                && r->Err_0->NoRecipientsFilename_recipients@ == old(self).recipients@
                && final(self).partitions@ == old(self).partitions@,
            path_parent(old(self).secrets@) is Some && (recipients_file is Some || path_file_name(
                old(self).recipients@,
            ) is Some) && old(self).max_index() == usize::MAX ==> r is Err && r->Err_0
                is NoIndexLeft && final(self).partitions@ == old(self).partitions@,
            path_parent(old(self).secrets@) is Some && (recipients_file is Some || path_file_name(
                old(self).recipients@,
            ) is Some) && old(self).max_index() < usize::MAX ==> {
                &&& final(self).partitions@.len() == old(self).partitions@.len() + 1
                &&& final(self).partitions@.drop_last() == old(self).partitions@
                &&& old(self).new_partition_fits(
                    final(self).partitions@.last(),
                    path@,
                    match name {
                        Some(n) => Some(n@),
                        None => None,
                    },
                    match recipients_file {
                        Some(f) => Some(f@),
                        None => None,
                    },
                )
                &&& r is Ok <==> final(self).writable()
                &&& r is Ok ==> r->Ok_0.same_as(final(self).partitions@.last())
                &&& r is Err && final(self).vault_path is None ==> r->Err_0 is UnknownVaultPath
                &&& r is Err && final(self).vault_path is Some ==> final(self).write_refusal_fits(
                    r->Err_0,
                )
            },
            r is Ok ==> final(self).valid(),
    {
        let secrets_dir = match parent_of(self.secrets.as_str()) {
            Some(d) => d,
            None => {
                return Err(Error::NoSecretsParent { secrets: self.secrets.clone() });
            },
        };
        let partition_secrets_dir = join_paths(secrets_dir.as_str(), path);
        let recipients = match recipients_file {
            Some(f) => f.to_string(),
            None => match file_name_of(self.recipients.as_str()) {
                Some(f) => join_paths(partition_secrets_dir.as_str(), f.as_str()),
                None => {
                    return Err(Error::NoRecipientsFilename { recipients: self.recipients.clone() });
                },
            },
        };
        let max = self.largest_index();
        if max == usize::MAX {
            return Err(Error::NoIndexLeft);
        }
        let partition_name = match name {
            Some(n) => Some(n.to_string()),
            None => file_name_of(path),
        };
        let new_partition = Vault {
            name: partition_name,
            kind: VaultKind::Partition,
            index: max + 1,
            partitions: Vec::new(),
            resolved_at: self.resolved_at.clone(),
            vault_path: self.vault_path.clone(),
            secrets: partition_secrets_dir,
            gpg_keys: None,
            recipients,
            trust_model: None,
            auto_import: None,
        };
        let partition = new_partition.clone();
        let ghost before = self.partitions@;
        self.partitions.push(new_partition);
        assert(self.partitions@.drop_last() =~= before);
        match self.serialize() {
            Ok(_) => Ok(partition),
            Err(e) => Err(e),
        }
    }
}

/// The positions that the partitions without index `n` had among the first
/// `len` of `all`, in their order.
pub open spec fn staying_positions(all: Seq<Vault>, n: usize, len: int) -> Seq<int>
    decreases len,
{
    if len <= 0 {
        Seq::empty()
    } else if all[len - 1].index != n {
        staying_positions(all, n, len - 1).push(len - 1)
    } else {
        staying_positions(all, n, len - 1)
    }
}

proof fn lemma_staying_positions(all: Seq<Vault>, n: usize, len: int)
    requires
        0 <= len <= all.len(),
    ensures
        ({
            let pos = staying_positions(all, n, len);
            let left = all.take(len).filter(|v: Vault| v.index != n);
            &&& pos.len() == left.len()
            &&& forall|k: int| 0 <= k < pos.len() ==> 0 <= #[trigger] pos[k] < len && left[k] == all[pos[k]]
            &&& forall|a: int, b: int| 0 <= a < b < pos.len() ==> #[trigger] pos[a] < #[trigger] pos[b]
        }),
    decreases len,
{
    reveal(Seq::filter);
    if len > 0 {
        lemma_staying_positions(all, n, len - 1);
        let keep = |v: Vault| v.index != n;
        assert(all.take(len).drop_last() =~= all.take(len - 1));
        assert(all.take(len).last() == all[len - 1]);
        let before = staying_positions(all, n, len - 1);
        let pos = staying_positions(all, n, len);
        let left_before = all.take(len - 1).filter(keep);
        let left = all.take(len).filter(keep);
        if all[len - 1].index != n {
            assert(left =~= left_before.push(all[len - 1]));
            assert forall|k: int| 0 <= k < pos.len() implies 0 <= #[trigger] pos[k] < len && left[k]
                == all[pos[k]] by {
                if k < before.len() {
                    assert(pos[k] == before[k]);
                }
            }
            assert forall|a: int, b: int| 0 <= a < b < pos.len() implies #[trigger] pos[a]
                < #[trigger] pos[b] by {
                assert(pos[a] == before[a]);
                if b < before.len() {
                    assert(pos[b] == before[b]);
                }
            }
        } else {
            assert(left =~= left_before);
        }
    }
}

/// Taking partitions out of a descriptor that keeps the rules across its
/// vaults leaves a descriptor that keeps them.
pub proof fn lemma_removal_keeps_rules(before: Vault, after: Vault, n: usize)
    requires
        after == (Vault { partitions: after.partitions, ..before }),
        after.partitions@ == before.partitions@.filter(|v: Vault| v.index != n),
    ensures
        before.valid() ==> after.valid(),
{
    let all = before.partitions@;
    let pos = staying_positions(all, n, all.len() as int);
    lemma_staying_positions(all, n, all.len() as int);
    assert(all.take(all.len() as int) =~= all);
    let place = |i: int| if 0 <= i < after.partitions@.len() { pos[i] } else { all.len() as int };
    if before.valid() {
        assert forall|i: int| 0 <= i < after.member_count() implies 0 <= place(i)
            < before.member_count() && after.member(i).secrets_text() == before.member(
            place(i),
        ).secrets_text() && after.member(i).recipients_text() == before.member(
            place(i),
        ).recipients_text() by {
            if i < after.partitions@.len() {
                assert(after.partitions@[i] == all[pos[i]]);
            }
        }
        assert forall|i: int, j: int|
            0 <= i < after.member_count() && 0 <= j < after.member_count() implies !#[trigger] after.nested(
            i,
            j,
        ) by {
            if after.nested(i, j) {
                assert(place(i) != place(j)) by {
                    if i < j {
                        if j < after.partitions@.len() {
                            assert(pos[i] < pos[j]);
                        }
                    } else {
                        if i < after.partitions@.len() {
                            assert(pos[j] < pos[i]);
                        }
                    }
                }
                assert(before.nested(place(i), place(j)));
            }
        }
        assert forall|i: int, j: int|
            0 <= i < after.member_count() && 0 <= j < after.member_count() implies !#[trigger] after.shares_recipients(
            i,
            j,
        ) by {
            if after.shares_recipients(i, j) {
                assert(place(j) < place(i)) by {
                    if i < after.partitions@.len() {
                        assert(pos[j] < pos[i]);
                    }
                }
                assert(before.shares_recipients(place(i), place(j)));
            }
        }
    }
}

} // verus!
