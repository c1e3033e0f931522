//! Resource specs: where a secret comes from and where in the vault it goes,
//! written as `src:dst`.

use crate::error::Error;
use crate::paths::file_name_of;
use crate::paths::has_parent_component;
use crate::paths::has_parent_dir;
use crate::paths::is_absolute;
use crate::paths::join_paths;
use crate::paths::opt_text;
use crate::paths::parent_of;
use crate::paths::path_file_name;
use crate::paths::path_is_absolute;
use crate::paths::path_join;
use crate::paths::path_parent;
use crate::text::chars_of;
use crate::text::concat2;
use crate::text::concat3;
use crate::text::find_char;
use crate::text::first_index_of;
use crate::text::lemma_first_index_of;
use crate::text::slice_text;
use crate::types::Destination;
use vstd::prelude::*;

verus! {

/// Where the content of a resource is read from.
#[derive(Debug, Clone, PartialEq, Eq, PartialOrd, Ord, Hash)]
pub enum SpecSourceType {
    /// Standard input.
    Stdin,
    /// A file at the given path.
    Path(String),
}

/// A source and the destination inside the vault that it is stored at.
#[derive(Debug, Clone, PartialEq, Eq, PartialOrd, Ord, Hash)]
pub struct VaultSpec {
    pub src: SpecSourceType,
    pub dst: String,
}

/// Why a text is no resource spec.
#[derive(Debug, Clone, PartialEq, Eq, PartialOrd, Ord, Hash)]
pub struct VaultSpecError(pub String);

/// A source in contracts.
pub ghost enum SourceText {
    Stdin,
    Path(Seq<char>),
}

/// A resource spec in contracts.
pub ghost struct SpecText {
    pub src: SourceText,
    pub dst: Seq<char>,
}

impl View for SpecSourceType {
    type V = SourceText;

    open spec fn view(&self) -> SourceText {
        match self {
            SpecSourceType::Stdin => SourceText::Stdin,
            SpecSourceType::Path(p) => SourceText::Path(p@),
        }
    }
}

impl View for VaultSpec {
    type V = SpecText;

    open spec fn view(&self) -> SpecText {
        SpecText { src: self.src@, dst: self.dst@ }
    }
}

/// The source that a text before the separator stands for: nothing written
/// means standard input.
pub open spec fn source_of(text: Seq<char>) -> SourceText {
    if text.len() == 0 {
        SourceText::Stdin
    } else {
        SourceText::Path(text)
    }
}

/// The text shown for a source: nothing for standard input.
pub open spec fn source_text(src: SourceText) -> Seq<char> {
    match src {
        SourceText::Stdin => Seq::empty(),
        SourceText::Path(p) => p,
    }
}

/// The spec that a text stands for, or the message that says why it stands
/// for none.
///
/// The first `:` parts source from destination. Without one, the text is both;
/// it must then be relative and free of `..`. A destination left empty is the
/// source; a destination that is written out is taken as it is, but may hold
/// no further `:`.
pub open spec fn parsed(input: Seq<char>) -> Result<SpecText, Seq<char>> {
    let k = first_index_of(input, ':');
    if input.len() == 0 {
        Err("An empty spec is invalid."@)
    } else if k == input.len() {
        if path_is_absolute(input) {
            Err(
                "'"@ + input + "' must not have an absolute destination."@
                    + " Try specifying the destination explicitly."@,
            )
        } else if has_parent_dir(input) {
            Err(
                "Relative parent directories in source '"@ + input
                    + "' need the destination set explicitly."@,
            )
        } else {
            Ok(SpecText { src: source_of(input), dst: input })
        }
    } else {
        let src = input.subrange(0, k);
        let dst = input.subrange(k + 1, input.len() as int);
        if dst.len() == 0 {
            if src.len() == 0 {
                Err("'"@ + input + "' does not contain a destination."@)
            } else {
                Ok(SpecText { src: source_of(src), dst: src })
            }
        } else if dst.contains(':') {
            Err("'"@ + input + "' must not contain more than one colon."@)
        } else {
            Ok(SpecText { src: source_of(src), dst })
        }
    }
}

/// The text a spec is written as: source, `:`, destination.
pub open spec fn rendered(spec: SpecText) -> Seq<char> {
    source_text(spec.src) + seq![':'] + spec.dst
}

/// The path of the ciphertext that belongs to `p`: the file name gets `.gpg`
/// appended; a path without a file name has none.
pub open spec fn gpg_filename(p: Seq<char>) -> Option<Seq<char>> {
    match path_file_name(p) {
        None => None,
        Some(name) => {
            let dir = match path_parent(p) {
                Some(d) => d,
                None => Seq::empty(),
            };
            Some(path_join(dir, name + ".gpg"@))
        },
    }
}

/// Appends `.gpg` to the file name of `path`.
pub fn gpg_output_filename(path: &str) -> (r: Result<String, Error>)
    ensures
        match r {
            Ok(out) => gpg_filename(path@) == Some(out@),
            Err(e) => gpg_filename(path@) is None && e is NoFilename && e->NoFilename_path@
                == path@,
        },
{
    match file_name_of(path) {
        None => Err(Error::NoFilename { path: path.to_string() }),
        Some(name) => {
            let dir = match parent_of(path) {
                Some(d) => d,
                None => String::new(),
            };
            let file = concat2(name.as_str(), ".gpg");
            Ok(join_paths(dir.as_str(), file.as_str()))
        },
    }
}

fn source_from(text: String) -> (r: SpecSourceType)
    ensures
        r@ == source_of(text@),
{
    if text.as_str().unicode_len() == 0 {
        SpecSourceType::Stdin
    } else {
        SpecSourceType::Path(text)
    }
}

impl VaultSpec {
    /// The file to read, where the source is one.
    pub fn source(&self) -> (r: Option<&str>)
        ensures
            match r {
                Some(p) => self.src@ == SourceText::Path(p@),
                None => self.src@ == SourceText::Stdin,
            },
    {
        match &self.src {
            SpecSourceType::Stdin => None,
            SpecSourceType::Path(p) => Some(p.as_str()),
        }
    }

    /// The destination inside the vault.
    pub fn destination(&self) -> (r: &str)
        ensures
            r@ == self.dst@,
    {
        self.dst.as_str()
    }

    /// The file that the spec is written to: below `root` with `.gpg`
    /// appended, or the destination as it stands.
    pub fn output_in(&self, root: &str, dst_mode: Destination) -> (r: Result<String, Error>)
        ensures
            match dst_mode {
                Destination::Unchanged => r is Ok && r->Ok_0@ == self.dst@,
                Destination::ReolveAndAppendGpg => match gpg_filename(self.dst@) {
                    Some(file) => r is Ok && r->Ok_0@ == path_join(root@, file),
                    None => r is Err && r->Err_0 is NoFilename && r->Err_0->NoFilename_path@
                        == self.dst@,
                },
            },
    {
        match dst_mode {
            Destination::ReolveAndAppendGpg => {
                match gpg_output_filename(self.dst.as_str()) {
                    Ok(file) => Ok(join_paths(root, file.as_str())),
                    Err(e) => Err(e),
                }
            },
            Destination::Unchanged => Ok(self.dst.clone()),
        }
    }

    /// Reads a spec written as `src:dst`.
    pub fn try_from(input: &str) -> (r: Result<VaultSpec, VaultSpecError>)
        ensures
            match r {
                Ok(spec) => parsed(input@) == Ok::<SpecText, Seq<char>>(spec@),
                Err(e) => parsed(input@) == Err::<SpecText, Seq<char>>(e.0@),
            },
    {
        let chars = chars_of(input);
        let n = chars.len();
        if n == 0 {
            return Err(VaultSpecError("An empty spec is invalid.".to_string()));
        }
        let k = find_char(&chars, ':');
        if k == n {
            if is_absolute(input) {
                let head = concat3("'", input, "' must not have an absolute destination.");
                return Err(
                    VaultSpecError(
                        concat2(head.as_str(), " Try specifying the destination explicitly."),
                    ),
                );
            }
            if has_parent_component(input) {
                return Err(
                    VaultSpecError(
                        concat3(
                            "Relative parent directories in source '",
                            input,
                            "' need the destination set explicitly.",
                        ),
                    ),
                );
            }
            return Ok(VaultSpec { src: source_from(input.to_string()), dst: input.to_string() });
        }
        let src = slice_text(input, 0, k);
        let dst = slice_text(input, k + 1, n);
        if n - (k + 1) == 0 {
            if k == 0 {
                return Err(VaultSpecError(concat3("'", input, "' does not contain a destination.")));
            }
            return Ok(VaultSpec { src: source_from(src.clone()), dst: src });
        }
        let dst_chars = chars_of(dst.as_str());
        let colon = find_char(&dst_chars, ':');
        proof {
            lemma_first_index_of(dst@, ':');
        }
        if colon < dst_chars.len() {
            return Err(
                VaultSpecError(concat3("'", input, "' must not contain more than one colon.")),
            );
        }
        Ok(VaultSpec { src: source_from(src), dst })
    }

    /// Writes the spec as `src:dst`, with nothing for standard input.
    pub fn to_string(&self) -> (r: String)
        ensures
            r@ == rendered(self@),
    {
        proof {
            reveal_strlit(":");
            assert(":"@ =~= seq![':']);
        }
        match &self.src {
            SpecSourceType::Stdin => {
                let r = concat2(":", self.dst.as_str());
                assert(r@ =~= rendered(self@));
                r
            },
            SpecSourceType::Path(p) => concat3(p.as_str(), ":", self.dst.as_str()),
        }
    }
}

/// A separator behind a text that holds none is the first one.
pub proof fn lemma_first_index_after_prefix(a: Seq<char>, c: char, b: Seq<char>)
    requires
        !a.contains(c),
    ensures
        first_index_of(a + seq![c] + b, c) == a.len(),
    decreases a.len(),
{
    let whole = a + seq![c] + b;
    if a.len() == 0 {
        assert(whole[0] == c);
    } else {
        assert(whole[0] == a[0]);
        assert(a.contains(a[0]));
        let rest = a.drop_first();
        assert(whole.drop_first() =~= rest + seq![c] + b);
        assert forall|j: int| 0 <= j < rest.len() implies rest[j] != c by {
            assert(a.contains(a[j + 1]));
        }
        lemma_first_index_after_prefix(rest, c, b);
    }
}

/// Reading a spec, writing it and reading it again gives the spec that was
/// read first: every text that is a spec stands for the same spec as the text
/// that this spec is written as.
pub proof fn lemma_spec_round_trip(input: Seq<char>)
    requires
        parsed(input) is Ok,
    ensures
        parsed(rendered(parsed(input)->Ok_0)) == parsed(input),
{
    let spec = parsed(input)->Ok_0;
    let k = first_index_of(input, ':');
    lemma_first_index_of(input, ':');
    let src = source_text(spec.src);
    let dst = spec.dst;
    let again = rendered(spec);
    assert(!src.contains(':') && dst.len() > 0 && !dst.contains(':') && spec.src == source_of(src)) by {
        if k == input.len() {
            assert(src == input);
        } else {
            let head = input.subrange(0, k);
            assert forall|j: int| 0 <= j < head.len() implies head[j] != ':' by {
                assert(head[j] == input[j]);
            }
        }
    }
    lemma_first_index_after_prefix(src, ':', dst);
    assert(again.len() == src.len() + 1 + dst.len());
    assert(again.subrange(0, src.len() as int) =~= src);
    assert(again.subrange(src.len() as int + 1, again.len() as int) =~= dst);
}

} // verus!
