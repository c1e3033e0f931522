//! The recipients list: fingerprints, one per line, kept in order and without
//! repeats.

use crate::error::Error;
use crate::keys::fingerprints_known;
use crate::keys::fingerprints_of_keys;
use crate::keys::KeyInfo;
use crate::partitions::leader_first;
use crate::paths::join_paths;
use crate::paths::path_join;
use crate::text::as_lines;
use crate::text::chars_of;
use crate::text::texts;
use crate::text::write_lines;
use crate::vault::Vault;
use vstd::prelude::*;

verus! {

/// Whether `c` is a hexadecimal digit, in either case.
pub open spec fn is_hex(c: char) -> bool {
    ('a' <= c <= 'f') || ('A' <= c <= 'F') || ('0' <= c <= '9')
}

/// How many bytes a text takes.
pub open spec fn byte_len(s: Seq<char>) -> nat {
    vstd::utf8::encode_utf8(s).len()
}

/// Whether a text has the length of a fingerprint or of a unique part of one.
pub open spec fn fingerprint_length_ok(id: Seq<char>) -> bool {
    8 <= byte_len(id) <= 40
}

/// Whether a text is made of hexadecimal digits only.
pub open spec fn all_hex(id: Seq<char>) -> bool {
    forall|i: int| 0 <= i < id.len() ==> is_hex(#[trigger] id[i])
}

/// Accepts a fingerprint: 8 to 40 hexadecimal digits in either case. The
/// length is looked at first.
pub fn valid_fingerprint(id: &str) -> (r: Result<&str, Error>)
    ensures
        fingerprint_length_ok(id@) && all_hex(id@) ==> r is Ok && r->Ok_0@ == id@,
        !fingerprint_length_ok(id@) ==> r is Err && r->Err_0 is FingerprintLength
            && r->Err_0->FingerprintLength_id@ == id@,
        fingerprint_length_ok(id@) && !all_hex(id@) ==> r is Err && r->Err_0 is FingerprintChars
            && r->Err_0->FingerprintChars_id@ == id@,
{
    let bytes = id.as_bytes().len();
    if bytes < 8 || bytes > 40 {
        return Err(Error::FingerprintLength { id: id.to_string() });
    }
    let chars = chars_of(id);
    let mut i: usize = 0;
    while i < chars.len()
        invariant
            i <= chars.len(),
            chars@ == id@,
            fingerprint_length_ok(id@),
            forall|j: int| 0 <= j < i ==> is_hex(#[trigger] id@[j]),
        decreases chars.len() - i,
    {
        let c = chars[i];
        let hex = (c >= 'a' && c <= 'f') || (c >= 'A' && c <= 'F') || (c >= '0' && c <= '9');
        if !hex {
            assert(!is_hex(id@[i as int]));
            return Err(Error::FingerprintChars { id: id.to_string() });
        }
        i = i + 1;
    }
    Ok(id)
}

/// The order of texts: character by character by code point, a prefix before
/// what it is a prefix of.
pub open spec fn text_le(a: Seq<char>, b: Seq<char>) -> bool
    decreases a.len(),
{
    if a.len() == 0 {
        true
    } else if b.len() == 0 {
        false
    } else if a[0] != b[0] {
        (a[0] as u32) < (b[0] as u32)
    } else {
        text_le(a.drop_first(), b.drop_first())
    }
}

/// Whether each text stands before or with every later one.
pub open spec fn ascending(list: Seq<Seq<char>>) -> bool {
    forall|i: int, j: int|
        #![trigger list[i], list[j]]
        0 <= i < j < list.len() ==> text_le(list[i], list[j])
}

/// Whether each text stands before every later one, and none occurs twice.
pub open spec fn strictly_ascending(list: Seq<Seq<char>>) -> bool {
    forall|i: int, j: int|
        #![trigger list[i], list[j]]
        0 <= i < j < list.len() ==> text_le(list[i], list[j]) && list[i] != list[j]
}

/// Whether two lists hold the same texts, however often and in whatever order.
pub open spec fn same_members(a: Seq<Seq<char>>, b: Seq<Seq<char>>) -> bool {
    forall|x: Seq<char>| a.contains(x) <==> b.contains(x)
}

/// Two texts that stand before or with each other are one text.
pub proof fn lemma_text_le_antisymmetric(a: Seq<char>, b: Seq<char>)
    requires
        text_le(a, b),
        text_le(b, a),
    ensures
        a == b,
    decreases a.len(),
{
    if a.len() == 0 {
        assert(b.len() == 0);
        assert(a =~= b);
    } else {
        assert(b.len() > 0);
        assert(a[0] == b[0]);
        lemma_text_le_antisymmetric(a.drop_first(), b.drop_first());
        assert(a =~= seq![a[0]] + a.drop_first());
        assert(b =~= seq![b[0]] + b.drop_first());
    }
}

/// Every text stands with itself.
pub proof fn lemma_text_le_reflexive(a: Seq<char>)
    ensures
        text_le(a, a),
    decreases a.len(),
{
    if a.len() > 0 {
        lemma_text_le_reflexive(a.drop_first());
    }
}

/// Calls `sort` of slices on texts, which orders `String`s byte by byte and so
/// by code point. Afterwards the list holds what it held before, each text as
/// often as before, in ascending order.
#[verifier::external_body]
fn sort_texts(list: &mut Vec<String>)
    ensures
        texts(final(list)@).to_multiset() == texts(old(list)@).to_multiset(),
        ascending(texts(final(list)@)),
{
    list.sort();
}

/// Whether `out` is what is left of the first `i` texts of `list` once the
/// repeats are dropped: the same texts, each once, in order, ending with the
/// last one that was looked at.
pub open spec fn kept_of(out: Seq<Seq<char>>, list: Seq<Seq<char>>, i: int) -> bool {
    &&& strictly_ascending(out)
    &&& i > 0 ==> out.len() > 0 && out.last() == list[i - 1]
    &&& i == 0 ==> out.len() == 0
    &&& forall|k: int| 0 <= k < out.len() ==> list.take(i).contains(#[trigger] out[k])
    &&& forall|m: int| 0 <= m < i ==> out.contains(#[trigger] list[m])
}

proof fn lemma_keep_next(out: Seq<Seq<char>>, list: Seq<Seq<char>>, i: int)
    requires
        0 <= i < list.len(),
        ascending(list),
        kept_of(out, list, i),
        i > 0 ==> out.last() != list[i],
    ensures
        kept_of(out.push(list[i]), list, i + 1),
{
    let cur = list[i];
    let next = out.push(cur);
    assert forall|a: int, b: int| 0 <= a < b < next.len() implies text_le(next[a], next[b])
        && next[a] != next[b] by {
        if b == out.len() {
            assert(next[a] == out[a]);
            assert(next[b] == cur);
            assert(list.take(i).contains(out[a]));
            let m = choose|m: int| 0 <= m < list.take(i).len() && list.take(i)[m] == out[a];
            assert(list[m] == out[a]);
            assert(text_le(list[m], list[i]));
            if out[a] == cur {
                let last = out.len() - 1;
                assert(i > 0);
                assert(out[last] == list[i - 1]);
                assert(text_le(list[i - 1], list[i]));
                if a < last {
                    assert(text_le(out[a], out[last]) && out[a] != out[last]);
                    lemma_text_le_antisymmetric(out[a], out[last]);
                }
            }
        } else {
            assert(next[a] == out[a]);
            assert(next[b] == out[b]);
            assert(text_le(out[a], out[b]) && out[a] != out[b]);
        }
    }
    assert forall|k: int| 0 <= k < next.len() implies list.take(i + 1).contains(
        #[trigger] next[k],
    ) by {
        if k < out.len() {
            assert(list.take(i).contains(out[k]));
            let m = choose|m: int| 0 <= m < list.take(i).len() && list.take(i)[m] == out[k];
            assert(list.take(i + 1)[m] == next[k]);
        } else {
            assert(list.take(i + 1)[i] == next[k]);
        }
    }
    assert forall|m: int| 0 <= m < i + 1 implies next.contains(#[trigger] list[m]) by {
        if m < i {
            assert(out.contains(list[m]));
            let k = choose|k: int| 0 <= k < out.len() && out[k] == list[m];
            assert(next[k] == list[m]);
        } else {
            assert(next[out.len() as int] == list[m]);
        }
    }
}

proof fn lemma_skip_next(out: Seq<Seq<char>>, list: Seq<Seq<char>>, i: int)
    requires
        0 < i < list.len(),
        kept_of(out, list, i),
        out.last() == list[i],
    ensures
        kept_of(out, list, i + 1),
{
    assert forall|k: int| 0 <= k < out.len() implies list.take(i + 1).contains(
        #[trigger] out[k],
    ) by {
        assert(list.take(i).contains(out[k]));
        let m = choose|m: int| 0 <= m < list.take(i).len() && list.take(i)[m] == out[k];
        assert(list.take(i + 1)[m] == out[k]);
    }
    assert forall|m: int| 0 <= m < i + 1 implies out.contains(#[trigger] list[m]) by {
        if m == i {
            assert(out[out.len() - 1] == list[m]);
        }
    }
}

proof fn lemma_kept_all(out: Seq<Seq<char>>, list: Seq<Seq<char>>)
    requires
        kept_of(out, list, list.len() as int),
    ensures
        same_members(out, list),
{
    assert(list.take(list.len() as int) =~= list);
    assert forall|x: Seq<char>| out.contains(x) <==> list.contains(x) by {
        if out.contains(x) {
            let k = choose|k: int| 0 <= k < out.len() && out[k] == x;
            assert(list.contains(out[k]));
        }
        if list.contains(x) {
            let m = choose|m: int| 0 <= m < list.len() && list[m] == x;
            assert(out.contains(list[m]));
        }
    }
}

/// Drops every text that repeats the one before it.
fn drop_repeats(list: &Vec<String>) -> (r: Vec<String>)
    requires
        ascending(texts(list@)),
    ensures
        strictly_ascending(texts(r@)),
        same_members(texts(r@), texts(list@)),
{
    let mut out: Vec<String> = Vec::new();
    let mut i: usize = 0;
    while i < list.len()
        invariant
            i <= list.len(),
            ascending(texts(list@)),
            kept_of(texts(out@), texts(list@), i as int),
        decreases list.len() - i,
    {
        let ghost before = texts(out@);
        assert(texts(list@)[i as int] == list@[i as int]@);
        let fresh = if i == 0 {
            true
        } else {
            assert(texts(out@)[out@.len() - 1] == out@[out@.len() - 1]@);
            list[i] != out[out.len() - 1]
        };
        if fresh {
            out.push(list[i].clone());
            proof {
                assert(texts(out@) =~= before.push(texts(list@)[i as int]));
                lemma_keep_next(before, texts(list@), i as int);
            }
        } else {
            proof {
                lemma_skip_next(before, texts(list@), i as int);
            }
        }
        i = i + 1;
    }
    proof {
        lemma_kept_all(texts(out@), texts(list@));
    }
    out
}

impl Vault {
    /// Puts the recipients in order, drops what occurs twice, and gives the
    /// file to write together with its content: one fingerprint per line.
    pub fn write_recipients_list(&self, recipients: &mut Vec<String>) -> (r: (String, String))
        ensures
            strictly_ascending(texts(final(recipients)@)),
            same_members(texts(final(recipients)@), texts(old(recipients)@)),
            strictly_ascending(texts(old(recipients)@)) ==> texts(final(recipients)@) == texts(
                old(recipients)@,
            ),
            r.0@ == self.recipients_text(),
            r.1@ == as_lines(texts(final(recipients)@)),
    {
        let ghost before = texts(recipients@);
        sort_texts(recipients);
        proof {
            assert forall|x: Seq<char>| texts(recipients@).contains(x) <==> before.contains(x) by {
                assert(texts(recipients@).to_multiset().count(x) == before.to_multiset().count(x));
                texts(recipients@).to_multiset_ensures();
                before.to_multiset_ensures();
            }
        }
        let unique = drop_repeats(recipients);
        *recipients = unique;
        proof {
            if strictly_ascending(before) {
                lemma_ascending_unique(texts(recipients@), before);
            }
        }
        let content = write_lines(recipients);
        (self.recipients_path(), content)
    }
}

/// Whether `tail` is the end of `text`.
pub fn text_ends_with(text: &Vec<char>, tail: &Vec<char>) -> (r: bool)
    ensures
        r == tail@.is_suffix_of(text@),
{
    if tail.len() > text.len() {
        return false;
    }
    let shift = text.len() - tail.len();
    let mut i: usize = 0;
    while i < tail.len()
        invariant
            i <= tail.len(),
            shift + tail.len() == text.len(),
            forall|j: int| 0 <= j < i ==> text@[shift + j] == tail@[j],
        decreases tail.len() - i,
    {
        if text[shift + i] != tail[i] {
            assert(text@.subrange(shift as int, text@.len() as int)[i as int] != tail@[i as int]);
            return false;
        }
        i = i + 1;
    }
    assert(text@.subrange(shift as int, text@.len() as int) =~= tail@);
    true
}

/// Whether `head` is the start of `text`.
pub fn text_starts_with(text: &Vec<char>, head: &Vec<char>) -> (r: bool)
    ensures
        r == head@.is_prefix_of(text@),
{
    if head.len() > text.len() {
        return false;
    }
    let mut i: usize = 0;
    while i < head.len()
        invariant
            i <= head.len(),
            head.len() <= text.len(),
            forall|j: int| 0 <= j < i ==> text@[j] == head@[j],
        decreases head.len() - i,
    {
        if text[i] != head[i] {
            assert(text@.subrange(0, head@.len() as int)[i as int] != head@[i as int]);
            return false;
        }
        i = i + 1;
    }
    assert(text@.subrange(0, head@.len() as int) =~= head@);
    true
}

/// Whether the imported fingerprint ends with one of the ids asked for.
pub open spec fn asked_for(fingerprint: Seq<char>, asked: Seq<Seq<char>>) -> bool {
    exists|i: int| 0 <= i < asked.len() && (#[trigger] asked[i]).is_suffix_of(fingerprint)
}

/// Those of the first `n` imported fingerprints that nobody asked for.
pub open spec fn unasked(imported: Seq<Seq<char>>, asked: Seq<Seq<char>>, n: int) -> Seq<Seq<char>>
    decreases n,
{
    if n <= 0 {
        Seq::empty()
    } else {
        let before = unasked(imported, asked, n - 1);
        if asked_for(imported[n - 1], asked) {
            before
        } else {
            before.push(imported[n - 1])
        }
    }
}

fn is_asked_for(fingerprint: &str, asked: &Vec<String>) -> (r: bool)
    ensures
        r == asked_for(fingerprint@, texts(asked@)),
{
    let text = chars_of(fingerprint);
    let mut i: usize = 0;
    while i < asked.len()
        invariant
            i <= asked.len(),
            text@ == fingerprint@,
            forall|j: int| 0 <= j < i ==> !(#[trigger] texts(asked@)[j]).is_suffix_of(fingerprint@),
        decreases asked.len() - i,
    {
        let tail = chars_of(asked[i].as_str());
        assert(texts(asked@)[i as int] == asked@[i as int]@);
        if text_ends_with(&text, &tail) {
            return true;
        }
        i = i + 1;
    }
    false
}

/// Accepts what an import of key files brought in: every fingerprint must end
/// with one of the ids that were asked for, so that no key file can bring
/// along a key of somebody else.
///
/// At least as many keys as were asked for must have come in.
pub fn check_imported(imported: &Vec<String>, asked: &Vec<String>) -> (r: Result<(), Error>)
    ensures
        imported@.len() < asked@.len() ==> r is Err && r->Err_0 is FewerKeysImported,
        imported@.len() >= asked@.len() ==> {
            let extra = unasked(texts(imported@), texts(asked@), imported@.len() as int);
            if extra.len() == 0 {
                r is Ok
            } else {
                r is Err && r->Err_0 is SneakedKeys && texts(r->Err_0->SneakedKeys_fingerprints@)
                    == extra
            }
        },
{
    if imported.len() < asked.len() {
        return Err(Error::FewerKeysImported);
    }
    let mut extra: Vec<String> = Vec::new();
    let mut i: usize = 0;
    while i < imported.len()
        invariant
            i <= imported.len(),
            texts(extra@) == unasked(texts(imported@), texts(asked@), i as int),
        decreases imported.len() - i,
    {
        assert(texts(imported@)[i as int] == imported@[i as int]@);
        let ghost before = texts(extra@);
        if !is_asked_for(imported[i].as_str(), asked) {
            extra.push(imported[i].clone());
            assert(texts(extra@) =~= before.push(imported@[i as int]@));
        }
        i = i + 1;
    }
    if extra.len() == 0 {
        Ok(())
    } else {
        Err(Error::SneakedKeys { fingerprints: extra })
    }
}

/// A fingerprint that ends with none of the ids asked for is never let in.
pub proof fn lemma_unasked_is_rejected(imported: Seq<Seq<char>>, asked: Seq<Seq<char>>, k: int)
    requires
        0 <= k < imported.len(),
        !asked_for(imported[k], asked),
    ensures
        unasked(imported, asked, imported.len() as int).len() > 0,
{
    lemma_unasked_grows(imported, asked, k + 1, imported.len() as int);
}

proof fn lemma_unasked_grows(imported: Seq<Seq<char>>, asked: Seq<Seq<char>>, n: int, m: int)
    requires
        0 <= n <= m,
    ensures
        unasked(imported, asked, n).len() <= unasked(imported, asked, m).len(),
    decreases m - n,
{
    if n < m {
        lemma_unasked_grows(imported, asked, n, m - 1);
    }
}

/// The recipients that stay when every one of `removed` leaves, in the order
/// they had.
pub open spec fn kept(recipients: Seq<Seq<char>>, removed: Seq<Seq<char>>) -> Seq<Seq<char>>
    decreases recipients.len(),
{
    if recipients.len() == 0 {
        Seq::empty()
    } else {
        let before = kept(recipients.drop_last(), removed);
        if removed.contains(recipients.last()) {
            before
        } else {
            before.push(recipients.last())
        }
    }
}

/// What stays is what was there and did not leave.
pub proof fn lemma_kept_members(recipients: Seq<Seq<char>>, removed: Seq<Seq<char>>)
    ensures
        forall|x: Seq<char>|
            kept(recipients, removed).contains(x) <==> recipients.contains(x) && !removed.contains(x),
    decreases recipients.len(),
{
    if recipients.len() > 0 {
        let init = recipients.drop_last();
        let last = recipients.last();
        lemma_kept_members(init, removed);
        let before = kept(init, removed);
        assert forall|x: Seq<char>|
            kept(recipients, removed).contains(x) <==> recipients.contains(x) && !removed.contains(
                x,
            ) by {
            if recipients.contains(x) {
                let m = choose|m: int| 0 <= m < recipients.len() && recipients[m] == x;
                if m < init.len() {
                    assert(init[m] == x);
                    assert(init.contains(x));
                }
            }
            if init.contains(x) {
                let m = choose|m: int| 0 <= m < init.len() && init[m] == x;
                assert(recipients[m] == x);
            }
            assert(recipients[recipients.len() - 1] == last);
            if removed.contains(last) {
            } else {
                let after = before.push(last);
                assert(after[before.len() as int] == last);
                if after.contains(x) {
                    let k = choose|k: int| 0 <= k < after.len() && after[k] == x;
                    if k < before.len() {
                        assert(before[k] == x);
                        assert(before.contains(x));
                    }
                }
                if before.contains(x) {
                    let k = choose|k: int| 0 <= k < before.len() && before[k] == x;
                    assert(after[k] == x);
                }
            }
        }
    } else {
        assert(kept(recipients, removed).len() == 0);
    }
}

/// What stays of a list in strict order is in strict order.
pub proof fn lemma_kept_ascending(recipients: Seq<Seq<char>>, removed: Seq<Seq<char>>)
    requires
        strictly_ascending(recipients),
    ensures
        strictly_ascending(kept(recipients, removed)),
    decreases recipients.len(),
{
    if recipients.len() > 0 {
        let init = recipients.drop_last();
        let last = recipients.last();
        assert forall|i: int, j: int| 0 <= i < j < init.len() implies text_le(init[i], init[j])
            && init[i] != init[j] by {
            assert(text_le(recipients[i], recipients[j]) && recipients[i] != recipients[j]);
        }
        lemma_kept_ascending(init, removed);
        lemma_kept_members(init, removed);
        let before = kept(init, removed);
        if !removed.contains(last) {
            let after = before.push(last);
            assert forall|i: int, j: int| 0 <= i < j < after.len() implies text_le(after[i], after[j])
                && after[i] != after[j] by {
                if j < before.len() {
                    assert(text_le(before[i], before[j]) && before[i] != before[j]);
                } else {
                    assert(before.contains(before[i]));
                    assert(init.contains(before[i]));
                    let m = choose|m: int| 0 <= m < init.len() && init[m] == before[i];
                    let top = recipients.len() - 1;
                    assert(init[m] == recipients[m]);
                    assert(after[j] == recipients[top]);
                    assert(after[i] == before[i]);
                    assert(0 <= m < top);
                    assert(top < recipients.len());
                    assert(strictly_ascending(recipients));
                    assert(text_le(recipients[m], recipients[top]));
                    assert(recipients[m] != recipients[top]);
                }
            }
        }
    }
}

/// Two lists in strict order that hold the same texts are one list.
pub proof fn lemma_ascending_unique(a: Seq<Seq<char>>, b: Seq<Seq<char>>)
    requires
        strictly_ascending(a),
        strictly_ascending(b),
        same_members(a, b),
    ensures
        a == b,
    decreases a.len(),
{
    if a.len() == 0 {
        if b.len() > 0 {
            assert(b.contains(b[0]));
            assert(a.contains(b[0]));
        }
        assert(a =~= b);
    } else {
        assert(a.contains(a[0]));
        assert(b.contains(a[0]));
        let k = choose|k: int| 0 <= k < b.len() && b[k] == a[0];
        assert(b.contains(b[0]));
        assert(a.contains(b[0]));
        let m = choose|m: int| 0 <= m < a.len() && a[m] == b[0];
        lemma_text_le_reflexive(a[0]);
        if m > 0 {
            assert(text_le(a[0], a[m]));
        }
        if k > 0 {
            assert(text_le(b[0], b[k]));
        }
        lemma_text_le_antisymmetric(a[0], b[0]);
        let ta = a.drop_first();
        let tb = b.drop_first();
        assert forall|i: int, j: int| 0 <= i < j < ta.len() implies text_le(ta[i], ta[j]) && ta[i]
            != ta[j] by {
            assert(text_le(a[i + 1], a[j + 1]) && a[i + 1] != a[j + 1]);
        }
        assert forall|i: int, j: int| 0 <= i < j < tb.len() implies text_le(tb[i], tb[j]) && tb[i]
            != tb[j] by {
            assert(text_le(b[i + 1], b[j + 1]) && b[i + 1] != b[j + 1]);
        }
        assert forall|x: Seq<char>| ta.contains(x) <==> tb.contains(x) by {
            if ta.contains(x) {
                let i = choose|i: int| 0 <= i < ta.len() && ta[i] == x;
                assert(a[i + 1] == x);
                assert(text_le(a[0], a[i + 1]) && a[0] != a[i + 1]);
                assert(a.contains(x));
                assert(b.contains(x));
                let j = choose|j: int| 0 <= j < b.len() && b[j] == x;
                assert(tb[j - 1] == x);
            }
            if tb.contains(x) {
                let i = choose|i: int| 0 <= i < tb.len() && tb[i] == x;
                assert(b[i + 1] == x);
                assert(text_le(b[0], b[i + 1]) && b[0] != b[i + 1]);
                assert(b.contains(x));
                assert(a.contains(x));
                let j = choose|j: int| 0 <= j < a.len() && a[j] == x;
                assert(ta[j - 1] == x);
            }
        }
        lemma_ascending_unique(ta, tb);
        assert(a =~= seq![a[0]] + ta);
        assert(b =~= seq![b[0]] + tb);
    }
}

/// Adding a recipient that was not on the list, and then removing that
/// recipient, leaves the list as it was written before: whatever list in
/// strict order holds the old recipients and the new one, taking the new one
/// out of it gives the old list.
pub proof fn lemma_removal_undoes_add(before: Seq<Seq<char>>, x: Seq<char>, added: Seq<Seq<char>>)
    requires
        strictly_ascending(before),
        !before.contains(x),
        strictly_ascending(added),
        same_members(added, before.push(x)),
    ensures
        kept(added, seq![x]) == before,
{
    let after = kept(added, seq![x]);
    lemma_kept_members(added, seq![x]);
    lemma_kept_ascending(added, seq![x]);
    assert forall|y: Seq<char>| after.contains(y) <==> before.contains(y) by {
        assert(seq![x][0] == x);
        if after.contains(y) {
            assert(added.contains(y) && !seq![x].contains(y));
            assert(before.push(x).contains(y));
            let k = choose|k: int| 0 <= k < before.push(x).len() && before.push(x)[k] == y;
            if k == before.len() {
                assert(seq![x].contains(y));
            } else {
                assert(before[k] == y);
            }
        }
        if before.contains(y) {
            let k = choose|k: int| 0 <= k < before.len() && before[k] == y;
            assert(before.push(x)[k] == y);
            assert(before.push(x).contains(y));
            assert(added.contains(y));
            if seq![x].contains(y) {
                let q = choose|q: int| 0 <= q < seq![x].len() && seq![x][q] == y;
                assert(y == x);
            }
        }
    }
    lemma_ascending_unique(after, before);
}

/// The fingerprints of keys whose fingerprints are all known.
pub open spec fn key_fingerprints(keys: Seq<KeyInfo>) -> Seq<Seq<char>> {
    keys.map_values(|k: KeyInfo| k.fingerprint->Some_0@)
}

/// Those of the first `n` keys that are not on the list, each shown as its
/// user ids with the fingerprint in brackets.
pub open spec fn not_listed(keys: Seq<KeyInfo>, recipients: Seq<Seq<char>>, n: int) -> Seq<
    Seq<char>,
>
    decreases n,
{
    if n <= 0 {
        Seq::empty()
    } else {
        let before = not_listed(keys, recipients, n - 1);
        if recipients.contains(keys[n - 1].fingerprint->Some_0@) {
            before
        } else {
            before.push(keys[n - 1].users_first())
        }
    }
}

/// The first position from `from` on at which nobody is left once the
/// fingerprints up to and with that position have left; the number of
/// fingerprints where somebody always stays.
pub open spec fn first_emptying(recipients: Seq<Seq<char>>, leaving: Seq<Seq<char>>, from: int) -> int
    decreases leaving.len() - from,
{
    if from < 0 || from >= leaving.len() {
        leaving.len() as int
    } else if kept(recipients, leaving.take(from + 1)).len() == 0 {
        from
    } else {
        first_emptying(recipients, leaving, from + 1)
    }
}

/// Taking one more recipient out is the same as taking all out at once.
pub proof fn lemma_kept_stepwise(recipients: Seq<Seq<char>>, removed: Seq<Seq<char>>, f: Seq<char>)
    ensures
        kept(kept(recipients, removed), seq![f]) == kept(recipients, removed.push(f)),
    decreases recipients.len(),
{
    if recipients.len() > 0 {
        let init = recipients.drop_last();
        let last = recipients.last();
        lemma_kept_stepwise(init, removed, f);
        let h = kept(init, removed);
        assert(seq![f][0] == f);
        assert(removed.push(f)[removed.len() as int] == f);
        assert(removed.push(f).contains(last) <==> removed.contains(last) || last == f) by {
            if removed.contains(last) {
                let q = choose|q: int| 0 <= q < removed.len() && removed[q] == last;
                assert(removed.push(f)[q] == last);
            }
            if removed.push(f).contains(last) {
                let q = choose|q: int| 0 <= q < removed.push(f).len() && removed.push(f)[q] == last;
                if q < removed.len() {
                    assert(removed[q] == last);
                }
            }
        }
        assert(seq![f].contains(last) <==> last == f);
        if !removed.contains(last) {
            let hl = h.push(last);
            assert(hl.drop_last() =~= h);
            assert(hl.last() == last);
        }
    }
}

fn contains_text(list: &Vec<String>, x: &str) -> (r: bool)
    ensures
        r == texts(list@).contains(x@),
{
    let mut i: usize = 0;
    while i < list.len()
        invariant
            i <= list.len(),
            forall|j: int| 0 <= j < i ==> texts(list@)[j] != x@,
        decreases list.len() - i,
    {
        assert(texts(list@)[i as int] == list@[i as int]@);
        if crate::text::same_text(list[i].as_str(), x) {
            return true;
        }
        i = i + 1;
    }
    false
}

fn retain_not(list: &Vec<String>, f: &str) -> (r: Vec<String>)
    ensures
        texts(r@) == kept(texts(list@), seq![f@]),
{
    let mut out: Vec<String> = Vec::new();
    let mut i: usize = 0;
    assert(texts(list@).take(0).len() == 0);
    while i < list.len()
        invariant
            i <= list.len(),
            texts(out@) == kept(texts(list@).take(i as int), seq![f@]),
        decreases list.len() - i,
    {
        let ghost before = texts(out@);
        proof {
            let next = texts(list@).take(i + 1);
            assert(next.drop_last() =~= texts(list@).take(i as int));
            assert(next.last() == list@[i as int]@);
            assert(seq![f@][0] == f@);
            assert(seq![f@].contains(list@[i as int]@) <==> list@[i as int]@ == f@);
        }
        if !crate::text::same_text(list[i].as_str(), f) {
            out.push(list[i].clone());
            assert(texts(out@) =~= before.push(list@[i as int]@));
        }
        i = i + 1;
    }
    assert(texts(list@).take(list@.len() as int) =~= texts(list@));
    out
}

/// The recipients that stay when the owners of `keys` leave the list.
///
/// Every key must be on the list. The keys leave one after the other; the one
/// whose leaving would empty the list is refused.
pub fn remaining_recipients(recipients: &Vec<String>, keys: &Vec<KeyInfo>, recipients_path: &str) -> (r:
    Result<Vec<String>, Error>)
    ensures
        !fingerprints_known(keys@, keys@.len() as int) ==> r is Err && r->Err_0 is NoFingerprint,
        fingerprints_known(keys@, keys@.len() as int) ==> {
            let leaving = key_fingerprints(keys@);
            let missing = not_listed(keys@, texts(recipients@), keys@.len() as int);
            let k = first_emptying(texts(recipients@), leaving, 0);
            if missing.len() > 0 {
                r is Err && r->Err_0 is NotRecipients && texts(r->Err_0->NotRecipients_keys@) == missing
            } else if k < leaving.len() {
                r is Err && r->Err_0 is RecipientsWouldBeEmpty
                    && r->Err_0->RecipientsWouldBeEmpty_user@ == keys@[k].users_first()
                    && r->Err_0->RecipientsWouldBeEmpty_path@ == recipients_path@
            } else {
                r is Ok && texts(r->Ok_0@) == kept(texts(recipients@), leaving)
            }
        },
{
    let fprs = match fingerprints_of_keys(keys) {
        Ok(f) => f,
        Err(e) => {
            return Err(e);
        },
    };
    assert(texts(fprs@) =~= key_fingerprints(keys@));
    let mut missing: Vec<String> = Vec::new();
    let mut i: usize = 0;
    while i < keys.len()
        invariant
            i <= keys.len(),
            fprs@.len() == keys@.len(),
            texts(fprs@) == key_fingerprints(keys@),
            texts(missing@) == not_listed(keys@, texts(recipients@), i as int),
        decreases keys.len() - i,
    {
        let ghost before = texts(missing@);
        assert(texts(fprs@)[i as int] == fprs@[i as int]@);
        if !contains_text(recipients, fprs[i].as_str()) {
            missing.push(keys[i].user_id_fingerprint());
            assert(texts(missing@) =~= before.push(keys@[i as int].users_first()));
        }
        i = i + 1;
    }
    if missing.len() > 0 {
        return Err(Error::NotRecipients { keys: missing });
    }
    let mut left: Vec<String> = Vec::new();
    let mut c: usize = 0;
    while c < recipients.len()
        invariant
            c <= recipients.len(),
            left@ == recipients@.take(c as int),
        decreases recipients.len() - c,
    {
        left.push(recipients[c].clone());
        assert(recipients@.take(c + 1) =~= recipients@.take(c as int).push(recipients@[c as int]));
        c = c + 1;
    }
    assert(recipients@.take(recipients@.len() as int) =~= recipients@);
    proof {
        lemma_kept_nothing(texts(recipients@));
        assert(texts(fprs@).take(0) =~= Seq::<Seq<char>>::empty());
    }
    let mut k: usize = 0;
    while k < fprs.len()
        invariant
            k <= fprs.len(),
            fprs@.len() == keys@.len(),
            fingerprints_known(keys@, keys@.len() as int),
            not_listed(keys@, texts(recipients@), keys@.len() as int).len() == 0,
            texts(fprs@) == key_fingerprints(keys@),
            texts(left@) == kept(texts(recipients@), texts(fprs@).take(k as int)),
            first_emptying(texts(recipients@), texts(fprs@), 0) == first_emptying(
                texts(recipients@),
                texts(fprs@),
                k as int,
            ),
        decreases fprs.len() - k,
    {
        proof {
            lemma_kept_stepwise(texts(recipients@), texts(fprs@).take(k as int), fprs@[k as int]@);
            assert(texts(fprs@).take(k + 1) =~= texts(fprs@).take(k as int).push(fprs@[k as int]@));
        }
        left = retain_not(&left, fprs[k].as_str());
        if left.len() == 0 {
            return Err(
                Error::RecipientsWouldBeEmpty {
                    user: keys[k].user_id_fingerprint(),
                    path: recipients_path.to_string(),
                },
            );
        }
        k = k + 1;
    }
    assert(texts(fprs@).take(fprs@.len() as int) =~= texts(fprs@));
    Ok(left)
}

/// Where nobody leaves, everybody stays.
pub proof fn lemma_kept_nothing(recipients: Seq<Seq<char>>)
    ensures
        kept(recipients, Seq::empty()) == recipients,
    decreases recipients.len(),
{
    if recipients.len() > 0 {
        lemma_kept_nothing(recipients.drop_last());
        assert(recipients.drop_last().push(recipients.last()) =~= recipients);
    } else {
        assert(kept(recipients, Seq::empty()) =~= recipients);
    }
}

/// Whether the list holds the fingerprint or a start of it.
pub open spec fn mentions(list: Seq<String>, fingerprint: Seq<char>) -> bool {
    exists|j: int| 0 <= j < list.len() && (#[trigger] list[j])@.is_prefix_of(fingerprint)
}

fn list_mentions(list: &Vec<String>, fingerprint: &Vec<char>) -> (r: bool)
    ensures
        r == mentions(list@, fingerprint@),
{
    let mut j: usize = 0;
    while j < list.len()
        invariant
            j <= list.len(),
            forall|q: int| 0 <= q < j ==> !(#[trigger] list@[q])@.is_prefix_of(fingerprint@),
        decreases list.len() - j,
    {
        let head = chars_of(list[j].as_str());
        if text_starts_with(fingerprint, &head) {
            return true;
        }
        j = j + 1;
    }
    false
}

impl Vault {
    /// Whether a vault of the descriptor other than those with index `skip`
    /// lists the fingerprint, or a start of it, among its recipients.
    /// `lists` holds the recipients of the leader and then of each partition.
    pub open spec fn used_elsewhere(self, fingerprint: Seq<char>, skip: usize, lists: Seq<Vec<String>>) -> bool {
        exists|i: int|
            0 <= i < lists.len() && i < leader_first(self).len() && leader_first(self)[i].index
                != skip && mentions(
                (#[trigger] lists[i])@,
                fingerprint,
            )
    }

    /// Whether the recipient is still needed by another vault of the
    /// descriptor than the one with index `index_to_skip`.
    ///
    /// `lists` holds the recipients lists as they were read: first the
    /// leader's, then one for each partition in their order. A vault whose
    /// list is not among them counts as listing nobody.
    pub fn recipient_used_in_other_partitions(
        &self,
        fpr: &str,
        index_to_skip: usize,
        lists: &Vec<Vec<String>>,
    ) -> (r: bool)
        ensures
            r == self.used_elsewhere(fpr@, index_to_skip, lists@),
    {
        let text = chars_of(fpr);
        assert(leader_first(*self)[0] == *self);
        if lists.len() == 0 {
            return false;
        }
        if self.index != index_to_skip && list_mentions(&lists[0], &text) {
            return true;
        }
        let mut i: usize = 0;
        while i < self.partitions.len() && i < lists.len() - 1
            invariant
                i <= self.partitions.len(),
                i <= lists@.len() - 1,
                text@ == fpr@,
                forall|q: int|
                    0 <= q < i + 1 ==> !(leader_first(*self)[q].index != index_to_skip && mentions(
                        (#[trigger] lists@[q])@,
                        fpr@,
                    )),
            decreases self.partitions.len() - i,
        {
            assert(leader_first(*self)[i + 1] == self.partitions@[i as int]);
            if self.partitions[i].index != index_to_skip && list_mentions(&lists[i + 1], &text) {
                return true;
            }
            i = i + 1;
        }
        false
    }

    /// The key files that leave with the first `n` fingerprints: for each
    /// fingerprint that no other vault uses, the file of that name in `dir`.
    pub open spec fn key_files_upto(
        self,
        leaving: Seq<Seq<char>>,
        skip: usize,
        lists: Seq<Vec<String>>,
        dir: Seq<char>,
        n: int,
    ) -> Seq<Seq<char>>
        decreases n,
    {
        if n <= 0 {
            Seq::empty()
        } else {
            let before = self.key_files_upto(leaving, skip, lists, dir, n - 1);
            if self.used_elsewhere(leaving[n - 1], skip, lists) {
                before
            } else {
                before.push(path_join(dir, leaving[n - 1]))
            }
        }
    }

    /// Names the key files to delete when the fingerprints leave the vault
    /// with index `index`: one for each fingerprint that no other vault of the
    /// descriptor lists, in the key directory `dir`.
    pub fn removable_key_files(
        &self,
        leaving: &Vec<String>,
        index: usize,
        lists: &Vec<Vec<String>>,
        dir: &str,
    ) -> (r: Vec<String>)
        ensures
            texts(r@) == self.key_files_upto(texts(leaving@), index, lists@, dir@, leaving@.len() as int),
    {
        let mut out: Vec<String> = Vec::new();
        let mut i: usize = 0;
        while i < leaving.len()
            invariant
                i <= leaving.len(),
                texts(out@) == self.key_files_upto(texts(leaving@), index, lists@, dir@, i as int),
            decreases leaving.len() - i,
        {
            let ghost before = texts(out@);
            assert(texts(leaving@)[i as int] == leaving@[i as int]@);
            if !self.recipient_used_in_other_partitions(leaving[i].as_str(), index, lists) {
                out.push(join_paths(dir, leaving[i].as_str()));
                assert(texts(out@) =~= before.push(path_join(dir@, leaving@[i as int]@)));
            }
            i = i + 1;
        }
        out
    }
}

/// Whether a secret key may sign for the vault: its fingerprint is on the
/// recipients list, and is the one that was asked for where one was.
pub open spec fn may_sign(key: KeyInfo, recipients: Seq<Seq<char>>, wanted: Option<Seq<char>>) -> bool {
    &&& key.fingerprint is Some
    &&& recipients.contains(key.fingerprint->Some_0@)
    &&& match wanted {
        Some(w) => key.fingerprint->Some_0@ == w,
        None => true,
    }
}

/// The first position from `from` on of a key that may sign; the number of
/// keys where none may.
pub open spec fn first_signer(
    keys: Seq<KeyInfo>,
    recipients: Seq<Seq<char>>,
    wanted: Option<Seq<char>>,
    from: int,
) -> int
    decreases keys.len() - from,
{
    if from < 0 || from >= keys.len() {
        keys.len() as int
    } else if may_sign(keys[from], recipients, wanted) {
        from
    } else {
        first_signer(keys, recipients, wanted, from + 1)
    }
}

/// Those of the first `n` keys that may sign, each shown as its user ids with
/// the fingerprint in brackets.
pub open spec fn signers_shown(
    keys: Seq<KeyInfo>,
    recipients: Seq<Seq<char>>,
    wanted: Option<Seq<char>>,
    n: int,
) -> Seq<Seq<char>>
    decreases n,
{
    if n <= 0 {
        Seq::empty()
    } else {
        let before = signers_shown(keys, recipients, wanted, n - 1);
        if may_sign(keys[n - 1], recipients, wanted) {
            before.push(keys[n - 1].users_first())
        } else {
            before
        }
    }
}

fn can_sign(key: &KeyInfo, recipients: &Vec<String>, wanted: Option<&str>) -> (r: bool)
    ensures
        r == may_sign(
            *key,
            texts(recipients@),
            match wanted {
                Some(w) => Some(w@),
                None => None,
            },
        ),
{
    match &key.fingerprint {
        None => false,
        Some(f) => {
            let asked = match wanted {
                Some(w) => crate::text::same_text(f.as_str(), w),
                None => true,
            };
            asked && contains_text(recipients, f.as_str())
        },
    }
}

/// Picks the key to sign new recipients' keys with among the secret keys.
///
/// The signer has to be on the recipients list, which therefore may not be
/// empty, and has to be the key with the fingerprint `wanted` where one is
/// given. Exactly one secret key must qualify; its position is the result.
pub fn pick_signing_key(recipients: &Vec<String>, secret_keys: &Vec<KeyInfo>, wanted: Option<&str>) -> (r:
    Result<usize, Error>)
    ensures
        ({
            let w = match wanted {
                Some(w) => Some(w@),
                None => None,
            };
            let a = first_signer(secret_keys@, texts(recipients@), w, 0);
            let b = first_signer(secret_keys@, texts(recipients@), w, a + 1);
            if recipients@.len() == 0 {
                r is Err && r->Err_0 is EmptyRecipients
            } else if a == secret_keys@.len() {
                r is Err && r->Err_0 is NoSigningKey
            } else if b == secret_keys@.len() {
                r == Ok::<usize, Error>(a as usize)
            } else {
                r is Err && r->Err_0 is AmbiguousSigningKeys && texts(
                    r->Err_0->AmbiguousSigningKeys_keys@,
                ) == signers_shown(secret_keys@, texts(recipients@), w, secret_keys@.len() as int)
            }
        }),
{
    if recipients.len() == 0 {
        return Err(Error::EmptyRecipients);
    }
    let ghost w = match wanted {
        Some(w) => Some(w@),
        None => None,
    };
    let mut shown: Vec<String> = Vec::new();
    let mut first: usize = secret_keys.len();
    let mut count: usize = 0;
    let mut i: usize = 0;
    while i < secret_keys.len()
        invariant
            i <= secret_keys.len(),
            recipients@.len() > 0,
            w == match wanted {
                Some(w) => Some(w@),
                None => None,
            },
            texts(shown@) == signers_shown(secret_keys@, texts(recipients@), w, i as int),
            count == shown@.len(),
            count <= i,
            count == 0 ==> first == secret_keys@.len() && first_signer(
                secret_keys@,
                texts(recipients@),
                w,
                0,
            ) == first_signer(secret_keys@, texts(recipients@), w, i as int),
            count > 0 ==> first < i && first_signer(secret_keys@, texts(recipients@), w, 0) == first,
            count == 1 ==> first_signer(secret_keys@, texts(recipients@), w, first + 1)
                == first_signer(secret_keys@, texts(recipients@), w, i as int),
            count > 1 ==> first_signer(secret_keys@, texts(recipients@), w, first + 1)
                < secret_keys@.len(),
        decreases secret_keys.len() - i,
    {
        let ghost before = texts(shown@);
        if can_sign(&secret_keys[i], recipients, wanted) {
            shown.push(secret_keys[i].user_id_fingerprint());
            assert(texts(shown@) =~= before.push(secret_keys@[i as int].users_first()));
            if count == 0 {
                first = i;
            }
            count = count + 1;
        }
        i = i + 1;
    }
    if count == 0 {
        Err(Error::NoSigningKey)
    } else if count == 1 {
        Ok(first)
    } else {
        Err(Error::AmbiguousSigningKeys { keys: shown })
    }
}

/// Accepts the secret keys that the keychain listed for the ids given.
///
/// The listing must be complete and hold at least one key, and only one
/// where no id was given to choose by.
pub fn check_secret_keys(keys: &Vec<KeyInfo>, ids_given: usize, truncated: bool) -> (r: Result<(), Error>)
    ensures
        truncated ==> r is Err && r->Err_0 is KeyListTruncated,
        !truncated && keys@.len() == 0 ==> r is Err && r->Err_0 is NoSecretKey,
        !truncated && keys@.len() > 1 && ids_given == 0 ==> r is Err && r->Err_0 is AmbiguousSecretKeys
            && r->Err_0->AmbiguousSecretKeys_count == keys@.len()
            && r->Err_0->AmbiguousSecretKeys_keys@ == crate::keys::keylist_text(keys@),
        !truncated && keys@.len() > 0 && (keys@.len() == 1 || ids_given > 0) ==> r is Ok,
{
    if truncated {
        return Err(Error::KeyListTruncated);
    }
    if keys.len() == 0 {
        return Err(Error::NoSecretKey);
    }
    if keys.len() > 1 && ids_given == 0 {
        return Err(
            Error::AmbiguousSecretKeys { count: keys.len(), keys: crate::keys::keylist_display(keys) },
        );
    }
    Ok(())
}

/// Accepts the keys that the keychain listed for the ids of new recipients:
/// the listing must be complete and hold as many keys as there are ids.
pub fn check_found_keys(keys: &Vec<KeyInfo>, ids_given: usize, truncated: bool) -> (r: Result<(), Error>)
    ensures
        truncated ==> r is Err && r->Err_0 is KeyListTruncated,
        !truncated && keys@.len() != ids_given ==> r is Err && r->Err_0 is KeyCountMismatch
            && r->Err_0->KeyCountMismatch_found == keys@.len() && r->Err_0->KeyCountMismatch_asked
            == ids_given && r->Err_0->KeyCountMismatch_keys@ == crate::keys::keylist_text(keys@),
        !truncated && keys@.len() == ids_given ==> r is Ok,
{
    if truncated {
        return Err(Error::KeyListTruncated);
    }
    if keys.len() != ids_given {
        return Err(
            Error::KeyCountMismatch {
                found: keys.len(),
                keys: crate::keys::keylist_display(keys),
                asked: ids_given,
            },
        );
    }
    Ok(())
}

/// The name pattern of the key file that belongs to a fingerprint of fewer
/// than 40 bytes: anything that ends with it. A full fingerprint names its
/// file itself and needs no pattern.
pub fn key_file_pattern(fpr: &str) -> (r: Option<String>)
    ensures
        byte_len(fpr@) == 40 ==> r is None,
        byte_len(fpr@) != 40 ==> r is Some && r->Some_0@ == "*"@ + fpr@,
{
    if fpr.as_bytes().len() == 40 {
        None
    } else {
        Some(crate::text::concat2("*", fpr))
    }
}

/// Names the key file of a fingerprint in the key directory.
///
/// A fingerprint of 40 bytes names the file; `matches` is then not looked
/// at. For a shorter one `matches` holds the files in the directory that
/// `key_file_pattern` fits, of which there must be exactly one.
pub fn fingerprint_file(fpr: &str, gpg_keys_dir: &str, matches: &Vec<String>) -> (r: Result<String, Error>)
    ensures
        byte_len(fpr@) == 40 ==> r is Ok && r->Ok_0@ == path_join(gpg_keys_dir@, fpr@),
        byte_len(fpr@) != 40 && matches@.len() == 1 ==> r is Ok && r->Ok_0@ == path_join(
            gpg_keys_dir@,
            matches@[0]@,
        ),
        byte_len(fpr@) != 40 && matches@.len() == 0 ==> r is Err && r->Err_0 is KeyFileNotFound
            && r->Err_0->KeyFileNotFound_pattern@ == "*"@ + fpr@ && r->Err_0->KeyFileNotFound_dir@
            == gpg_keys_dir@,
        byte_len(fpr@) != 40 && matches@.len() > 1 ==> r is Err && r->Err_0 is KeyFileAmbiguous
            && r->Err_0->KeyFileAmbiguous_count == matches@.len()
            && r->Err_0->KeyFileAmbiguous_pattern@ == "*"@ + fpr@
            && r->Err_0->KeyFileAmbiguous_dir@ == gpg_keys_dir@,
{
    match key_file_pattern(fpr) {
        None => Ok(join_paths(gpg_keys_dir, fpr)),
        Some(pattern) => {
            if matches.len() == 1 {
                Ok(join_paths(gpg_keys_dir, matches[0].as_str()))
            } else if matches.len() == 0 {
                Err(Error::KeyFileNotFound { pattern, dir: gpg_keys_dir.to_string() })
            } else {
                Err(
                    Error::KeyFileAmbiguous {
                        count: matches.len(),
                        pattern,
                        dir: gpg_keys_dir.to_string(),
                    },
                )
            }
        },
    }
}

/// One line for each key: the fingerprint with the user ids in brackets.
pub open spec fn key_lines(keys: Seq<KeyInfo>) -> Seq<Seq<char>> {
    keys.map_values(|k: KeyInfo| k.fingerprint_first())
}

/// The keys of the vault at position `i`; none where the list ends before.
pub open spec fn keys_at(keys: Seq<Vec<KeyInfo>>, i: int) -> Seq<KeyInfo> {
    if 0 <= i < keys.len() {
        keys[i]@
    } else {
        Seq::empty()
    }
}

/// The listing of the first `n` vaults of the descriptor, the leader first:
/// for each its address and then its recipients.
pub open spec fn blocks_upto(leader: Vault, keys: Seq<Vec<KeyInfo>>, n: int) -> Seq<Seq<char>>
    decreases n,
{
    if n <= 0 {
        Seq::empty()
    } else {
        blocks_upto(leader, keys, n - 1) + seq![leader_first(leader)[n - 1].url_text()] + key_lines(
            keys_at(keys, n - 1),
        )
    }
}

impl Vault {
    /// The lines that list the recipients, one key per line.
    pub fn list_recipients(&self, keys: &Vec<KeyInfo>) -> (r: Vec<String>)
        ensures
            texts(r@) == key_lines(keys@),
    {
        let mut out: Vec<String> = Vec::new();
        let mut i: usize = 0;
        while i < keys.len()
            invariant
                i <= keys.len(),
                out@.len() == i,
                forall|k: int| 0 <= k < i ==> (#[trigger] out@[k])@ == keys@[k].fingerprint_first(),
            decreases keys.len() - i,
        {
            out.push(keys[i].fingerprint_user_id());
            i = i + 1;
        }
        assert(texts(out@) =~= key_lines(keys@));
        out
    }

    /// The lines that list the recipients of the descriptor.
    ///
    /// `keys` holds the recipients' keys of the leader and then of each
    /// partition; a vault whose keys are not among them is listed without
    /// any. A vault without partitions lists its keys only; otherwise each
    /// vault's keys follow the vault's address.
    pub fn print_recipients(&self, keys: &Vec<Vec<KeyInfo>>) -> (r: Vec<String>)
        ensures
            self.partitions@.len() == 0 ==> texts(r@) == key_lines(keys_at(keys@, 0)),
            self.partitions@.len() > 0 ==> texts(r@) == blocks_upto(
                *self,
                keys@,
                self.partitions@.len() as int + 1,
            ),
    {
        let none: Vec<KeyInfo> = Vec::new();
        if self.partitions.len() == 0 {
            if keys.len() > 0 {
                return self.list_recipients(&keys[0]);
            }
            return self.list_recipients(&none);
        }
        let mut out: Vec<String> = Vec::new();
        let first = self.url();
        out.push(first);
        let mut head = if keys.len() > 0 {
            self.list_recipients(&keys[0])
        } else {
            self.list_recipients(&none)
        };
        let ghost url_only = texts(out@);
        let ghost head_lines = texts(head@);
        out.append(&mut head);
        assert(leader_first(*self)[0] == *self);
        assert(texts(out@) =~= url_only + head_lines);
        assert(url_only =~= seq![self.url_text()]);
        assert(blocks_upto(*self, keys@, 0) =~= Seq::<Seq<char>>::empty());
        assert(texts(out@) =~= blocks_upto(*self, keys@, 1));
        let mut i: usize = 0;
        while i < self.partitions.len()
            invariant
                i <= self.partitions.len(),
                none@.len() == 0,
                texts(out@) == blocks_upto(*self, keys@, i + 1),
            decreases self.partitions.len() - i,
        {
            let ghost before = texts(out@);
            let member = &self.partitions[i];
            assert(leader_first(*self)[i + 1] == *member);
            out.push(member.url());
            assert(texts(out@) =~= before + seq![member.url_text()]);
            let ghost with_url = texts(out@);
            let mut block = if keys.len() > 0 && i < keys.len() - 1 {
                self.list_recipients(&keys[i + 1])
            } else {
                self.list_recipients(&none)
            };
            let ghost lines = texts(block@);
            out.append(&mut block);
            assert(texts(out@) =~= with_url + lines);
            i = i + 1;
        }
        out
    }
}

/// The fingerprints of the first `n` keys behind what the list held.
pub open spec fn with_keys(list: Seq<Seq<char>>, keys: Seq<KeyInfo>, n: int) -> Seq<Seq<char>>
    decreases n,
{
    if n <= 0 {
        list
    } else {
        with_keys(list, keys, n - 1).push(keys[n - 1].fingerprint->Some_0@)
    }
}

/// Puts the fingerprints of the keys behind the recipients that the list
/// holds. Every key must have its fingerprint; the list is left as it is
/// where one has none.
pub fn add_fingerprints(recipients: &mut Vec<String>, keys: &Vec<KeyInfo>) -> (r: Result<(), Error>)
    ensures
        fingerprints_known(keys@, keys@.len() as int) ==> r is Ok && texts(final(recipients)@)
            == with_keys(texts(old(recipients)@), keys@, keys@.len() as int),
        !fingerprints_known(keys@, keys@.len() as int) ==> r is Err && r->Err_0 is NoFingerprint
            && final(recipients)@ == old(recipients)@,
{
    let fprs = match fingerprints_of_keys(keys) {
        Ok(f) => f,
        Err(e) => {
            return Err(e);
        },
    };
    let ghost start = texts(recipients@);
    let mut i: usize = 0;
    while i < fprs.len()
        invariant
            i <= fprs.len(),
            fprs@.len() == keys@.len(),
            fingerprints_known(keys@, keys@.len() as int),
            forall|k: int| 0 <= k < keys@.len() ==> (#[trigger] fprs@[k])@ == keys@[k].fingerprint->Some_0@,
            texts(recipients@) == with_keys(start, keys@, i as int),
        decreases fprs.len() - i,
    {
        let ghost before = texts(recipients@);
        recipients.push(fprs[i].clone());
        assert(texts(recipients@) =~= before.push(fprs@[i as int]@));
        i = i + 1;
    }
    Ok(())
}

/// What importing key files one after the other comes to.
///
/// Each import gave the fingerprints it brought in, or the text of its
/// failure. With every import done the fingerprints come in their order.
/// The first failure decides otherwise; every later failure is written in
/// front of what was gathered before, closed by a line feed.
pub open spec fn imports_folded(outcomes: Seq<Result<Vec<String>, String>>, n: int) -> Result<
    Seq<Seq<char>>,
    Seq<char>,
>
    decreases n,
{
    if n <= 0 {
        Ok(Seq::empty())
    } else {
        match (imports_folded(outcomes, n - 1), outcomes[n - 1]) {
            (Ok(all), Ok(more)) => Ok(all + texts(more@)),
            (Ok(_), Err(e)) => Err(e@),
            (Err(f), Ok(_)) => Err(f),
            (Err(f), Err(e)) => Err(e@ + "\n"@ + f),
        }
    }
}

/// Gathers what the imports of key files brought in, or why they failed.
pub fn fold_imports(outcomes: &Vec<Result<Vec<String>, String>>) -> (r: Result<Vec<String>, String>)
    ensures
        match imports_folded(outcomes@, outcomes@.len() as int) {
            Ok(all) => r is Ok && texts(r->Ok_0@) == all,
            Err(f) => r is Err && r->Err_0@ == f,
        },
{
    let mut all: Vec<String> = Vec::new();
    let mut failure: Option<String> = None;
    let mut i: usize = 0;
    while i < outcomes.len()
        invariant
            i <= outcomes.len(),
            match imports_folded(outcomes@, i as int) {
                Ok(a) => failure is None && texts(all@) == a,
                Err(f) => failure is Some && failure->Some_0@ == f,
            },
        decreases outcomes.len() - i,
    {
        match &outcomes[i] {
            Ok(more) => {
                if failure.is_none() {
                    let mut k: usize = 0;
                    let ghost start = texts(all@);
                    while k < more.len()
                        invariant
                            k <= more.len(),
                            texts(all@) == start + texts(more@).take(k as int),
                        decreases more.len() - k,
                    {
                        let ghost before = texts(all@);
                        all.push(more[k].clone());
                        assert(texts(all@) =~= before.push(more@[k as int]@));
                        assert(texts(more@).take(k + 1) =~= texts(more@).take(k as int).push(
                            more@[k as int]@,
                        ));
                        k = k + 1;
                    }
                    assert(texts(more@).take(more@.len() as int) =~= texts(more@));
                }
            },
            Err(e) => {
                failure = match failure {
                    None => Some(e.clone()),
                    Some(f) => Some(crate::text::concat3(e.as_str(), "\n", f.as_str())),
                };
            },
        }
        i = i + 1;
    }
    match failure {
        None => Ok(all),
        Some(f) => Err(f),
    }
}

/// Settles where the key of a fingerprint comes from, once its key file was
/// tried: what the file brought in stands; where the file failed, the key
/// that the keychain already has stands in for it; and where the keychain
/// has none either, the fingerprint is reported as not found, in front of
/// the causes of the file's failure.
pub fn key_from_file_or_keychain(
    imported: Result<Vec<String>, Vec<String>>,
    in_keychain: bool,
    fingerprint: &str,
) -> (r: Result<Vec<String>, Vec<String>>)
    ensures
        imported is Ok ==> r == imported,
        imported is Err && in_keychain ==> r is Ok && texts(r->Ok_0@) == seq![fingerprint@],
        imported is Err && !in_keychain ==> r is Err && texts(r->Err_0@) == seq![
            "Could not find fingerprint '"@ + fingerprint@
                + "', tried local file as well as gpg keychain."@,
        ] + texts(imported->Err_0@),
{
    match imported {
        Ok(fingerprints) => Ok(fingerprints),
        Err(causes) => {
            if in_keychain {
                let mut only: Vec<String> = Vec::new();
                only.push(fingerprint.to_string());
                assert(texts(only@) =~= seq![fingerprint@]);
                Ok(only)
            } else {
                let top = Error::FingerprintNotFound { fingerprint: fingerprint.to_string() };
                let mut all: Vec<String> = Vec::new();
                all.push(top.to_string());
                let ghost head = texts(all@);
                let mut rest = causes;
                let ghost tail = texts(rest@);
                all.append(&mut rest);
                assert(texts(all@) =~= head + tail);
                assert(head =~= seq![top.message_text()]);
                Err(all)
            }
        },
    }
}

} // verus!
