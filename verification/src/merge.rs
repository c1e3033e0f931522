//! Merging structured values: the commands, the modes and the handling of
//! keys that clash.

use crate::error::Error;
use crate::text::chars_of;
use crate::text::join_texts;
use crate::text::joined;
use crate::text::same_text;
use crate::text::slice_text;
use crate::text::texts;
use vstd::prelude::*;

verus! {

/// Whether a value that is there already gives way to a new one.
#[derive(Debug, Clone, Copy, PartialEq, Eq)]
pub enum MergeMode {
    Overwrite,
    NoOverwrite,
}

impl Default for MergeMode {
    fn default() -> (r: Self)
        ensures
            r is NoOverwrite,
    {
        MergeMode::NoOverwrite
    }
}

/// The format that the merged value is written in.
#[derive(Debug, Clone, Copy, PartialEq, Eq)]
pub enum OutputMode {
    Json,
    Yaml,
}

impl Default for OutputMode {
    fn default() -> (r: Self)
        ensures
            r is Json,
    {
        OutputMode::Json
    }
}

/// A text in lower case, as `str::to_lowercase` gives it.
pub uninterp spec fn lowercased(s: Seq<char>) -> Seq<char>;

/// Calls `str::to_lowercase`. The contract only names the result.
#[verifier::external_body]
fn to_lowercase(s: &str) -> (r: String)
    ensures
        r@ == lowercased(s@),
{
    s.to_lowercase()
}

impl OutputMode {
    /// Reads an output mode by its name in any case: `json` or `yaml`.
    pub fn from_str(s: &str) -> (r: Result<OutputMode, Error>)
        ensures
            lowercased(s@) == "json"@ ==> r == Ok::<OutputMode, Error>(OutputMode::Json),
            lowercased(s@) != "json"@ && lowercased(s@) == "yaml"@ ==> r == Ok::<OutputMode, Error>(
                OutputMode::Yaml,
            ),
            lowercased(s@) != "json"@ && lowercased(s@) != "yaml"@ ==> r is Err && r->Err_0
                is InvalidOutputMode && r->Err_0->InvalidOutputMode_name@ == s@,
    {
        let lower = to_lowercase(s);
        if same_text(lower.as_str(), "json") {
            Ok(OutputMode::Json)
        } else if same_text(lower.as_str(), "yaml") {
            Ok(OutputMode::Yaml)
        } else {
            Err(Error::InvalidOutputMode { name: s.to_string() })
        }
    }
}

/// One step of a merge.
#[derive(Debug, Clone, PartialEq, Eq)]
pub enum Command {
    /// Merge a value given as text at a pointer.
    MergeValue(String, String),
    /// Put the next merged value at this pointer.
    InsertNextMergeAt(String),
    /// Take the next value to merge from this pointer inside it.
    SelectNextMergeAt(String),
    /// Put what is at this pointer of the merged value aside.
    SelectToBuffer(String),
    /// Merge what standard input holds.
    MergeStdin,
    /// Merge what the file holds.
    MergePath(String),
    /// Merge the environment variables whose names fit the pattern.
    MergeEnvironment(String),
    /// Change how clashes are handled.
    SetMergeMode(MergeMode),
    /// Write the merged value.
    Serialize,
    /// Write what was put aside.
    SerializeBuffer,
    /// Change the format to write in.
    SetOutputMode(OutputMode),
}

/// How many of the first `n` commands merge standard input.
pub open spec fn stdin_merges(cmds: Seq<Command>, n: int) -> nat
    decreases n,
{
    if n <= 0 {
        0
    } else {
        stdin_merges(cmds, n - 1) + if cmds[n - 1] is MergeStdin {
            1nat
        } else {
            0nat
        }
    }
}

/// Accepts the commands of one call: standard input can be merged once.
pub fn validate(cmds: &Vec<Command>) -> (r: Result<(), Error>)
    ensures
        stdin_merges(cmds@, cmds@.len() as int) <= 1 ==> r is Ok,
        stdin_merges(cmds@, cmds@.len() as int) > 1 ==> r is Err && r->Err_0 is ManyStdinMerges
            && r->Err_0->ManyStdinMerges_count == stdin_merges(cmds@, cmds@.len() as int),
{
    let mut count: usize = 0;
    let mut i: usize = 0;
    while i < cmds.len()
        invariant
            i <= cmds.len(),
            count == stdin_merges(cmds@, i as int),
            count <= i,
        decreases cmds.len() - i,
    {
        match &cmds[i] {
            Command::MergeStdin => {
                count = count + 1;
            },
            _ => {},
        }
        i = i + 1;
    }
    if count > 1 {
        Err(Error::ManyStdinMerges { count })
    } else {
        Ok(())
    }
}

/// The pointer that a text stands for: a text without `/` has its `.`
/// turned into `/`, and every pointer starts with `/`.
pub open spec fn pointer_text(p: Seq<char>) -> Seq<char> {
    let slashed = if p.contains('/') {
        p
    } else {
        p.map_values(
            |c: char|
                if c == '.' {
                    '/'
                } else {
                    c
                },
        )
    };
    if slashed.len() > 0 && slashed[0] == '/' {
        slashed
    } else {
        seq!['/'] + slashed
    }
}

/// Turns a dotted or slashed path into a pointer.
pub fn into_pointer(p: String) -> (r: String)
    ensures
        r@ == pointer_text(p@),
{
    proof {
        reveal_strlit("/");
        assert("/"@ =~= seq!['/']);
    }
    let chars = chars_of(p.as_str());
    let slash = crate::text::find_char(&chars, '/');
    proof {
        crate::text::lemma_first_index_of(chars@, '/');
    }
    let slashed = if slash < chars.len() {
        p
    } else {
        let mut out = String::new();
        let mut i: usize = 0;
        while i < chars.len()
            invariant
                i <= chars.len(),
                chars@ == p@,
                "/"@ == seq!['/'],
                out@ == p@.take(i as int).map_values(
                    |c: char|
                        if c == '.' {
                            '/'
                        } else {
                            c
                        },
                ),
            decreases chars.len() - i,
        {
            let ghost before = out@;
            if chars[i] == '.' {
                out.append("/");
            } else {
                let one = slice_text(p.as_str(), i, i + 1);
                assert(one@ =~= seq![p@[i as int]]);
                out.append(one.as_str());
            }
            assert(p@.take(i + 1) =~= p@.take(i as int).push(p@[i as int]));
            assert(out@ =~= p@.take(i + 1).map_values(
                |c: char|
                    if c == '.' {
                        '/'
                    } else {
                        c
                    },
            ));
            i = i + 1;
        }
        assert(p@.take(p@.len() as int) =~= p@);
        out
    };
    let first = chars_of(slashed.as_str());
    if first.len() > 0 && first[0] == '/' {
        slashed
    } else {
        crate::text::concat2("/", slashed.as_str())
    }
}

/// Remembers the keys that clashed in a merge, and never lets a value go.
#[derive(Debug, Clone, PartialEq, Eq)]
pub struct NeverDrop {
    pub mode: MergeMode,
    pub clashed_keys: Vec<String>,
}

/// Which of two values that clash stays.
#[derive(Debug, Clone, Copy, PartialEq, Eq)]
pub enum Kept {
    Old,
    New,
}

/// The first `n` keys, each on a line of its own that an empty line follows.
pub open spec fn clash_lines(keys: Seq<Seq<char>>, n: int) -> Seq<char>
    decreases n,
{
    if n <= 0 {
        Seq::empty()
    } else {
        clash_lines(keys, n - 1) + keys[n - 1] + "\n\n"@
    }
}

impl NeverDrop {
    /// A filter for the mode, with no clash seen yet.
    pub fn with_mode(mode: &MergeMode) -> (r: NeverDrop)
        ensures
            r.mode == *mode,
            r.clashed_keys@.len() == 0,
    {
        NeverDrop { mode: *mode, clashed_keys: Vec::new() }
    }

    /// Decides between an old and a new value at the place that `keys` lead
    /// to: the new one stays where overwriting is allowed; otherwise the old
    /// one stays and the place, its keys joined by `.`, is remembered as a
    /// clash.
    pub fn resolve_conflict(&mut self, keys: &Vec<String>) -> (r: Kept)
        ensures
            final(self).mode == old(self).mode,
            old(self).mode is Overwrite ==> r is New && final(self).clashed_keys@ == old(
                self,
            ).clashed_keys@,
            old(self).mode is NoOverwrite ==> r is Old && final(self).clashed_keys@.len() == old(
                self,
            ).clashed_keys@.len() + 1 && final(self).clashed_keys@.drop_last() == old(
                self,
            ).clashed_keys@ && final(self).clashed_keys@.last()@ == joined(texts(keys@), "."@),
    {
        match self.mode {
            MergeMode::NoOverwrite => {
                let ghost before = self.clashed_keys@;
                self.clashed_keys.push(join_texts(keys, "."));
                assert(self.clashed_keys@.drop_last() =~= before);
                Kept::Old
            },
            MergeMode::Overwrite => Kept::New,
        }
    }

    /// The report of the clashes in contracts.
    pub open spec fn report_text(self) -> Seq<char> {
        "Refusing to merge due to the following clashing keys:\n"@ + clash_lines(
            texts(self.clashed_keys@),
            self.clashed_keys@.len() as int,
        )
    }

    /// The report of the clashes that were seen.
    pub fn to_string(&self) -> (r: String)
        ensures
            r@ == self.report_text(),
    {
        let mut out = "Refusing to merge due to the following clashing keys:\n".to_string();
        let ghost head = out@;
        let mut i: usize = 0;
        while i < self.clashed_keys.len()
            invariant
                i <= self.clashed_keys.len(),
                out@ == head + clash_lines(texts(self.clashed_keys@), i as int),
            decreases self.clashed_keys.len() - i,
        {
            assert(texts(self.clashed_keys@)[i as int] == self.clashed_keys@[i as int]@);
            out.append(self.clashed_keys[i].as_str());
            out.append("\n\n");
            assert(out@ =~= head + (clash_lines(texts(self.clashed_keys@), i as int)
                + self.clashed_keys@[i as int]@ + "\n\n"@));
            i = i + 1;
        }
        out
    }
}

} // verus!
