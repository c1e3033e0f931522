//! Template specs: where a template is read from and where its output goes,
//! written as `src:dst`, with nothing standing for a stream.

use crate::error::Error;
use crate::paths::file_stem_of;
use crate::paths::path_file_stem;
use crate::text::chars_of;
use crate::text::concat2;
use crate::text::concat3;
use crate::text::find_char;
use crate::text::first_index_of;
use crate::text::lemma_first_index_of;
use crate::text::same_text;
use crate::text::slice_text;
use vstd::prelude::*;

verus! {

/// Standard input or output, or a file.
#[derive(Debug, Clone, PartialEq, Eq, PartialOrd, Ord, Hash)]
pub enum StreamOrPath {
    Stream,
    Path(String),
}

/// A stream or a path in contracts.
pub ghost enum StreamOrText {
    Stream,
    Path(Seq<char>),
}

impl View for StreamOrPath {
    type V = StreamOrText;

    open spec fn view(&self) -> StreamOrText {
        match self {
            StreamOrPath::Stream => StreamOrText::Stream,
            StreamOrPath::Path(p) => StreamOrText::Path(p@),
        }
    }
}

/// What a text stands for: a stream where it is empty, else a path.
pub open spec fn stream_or(text: Seq<char>) -> StreamOrText {
    if text.len() == 0 {
        StreamOrText::Stream
    } else {
        StreamOrText::Path(text)
    }
}

/// The text that stands for a stream or a path.
pub open spec fn stream_text(s: StreamOrText) -> Seq<char> {
    match s {
        StreamOrText::Stream => Seq::empty(),
        StreamOrText::Path(p) => p,
    }
}

impl StreamOrPath {
    /// Reads a stream or path: nothing stands for the stream.
    pub fn from(s: &str) -> (r: StreamOrPath)
        ensures
            r@ == stream_or(s@),
    {
        if s.unicode_len() == 0 {
            StreamOrPath::Stream
        } else {
            StreamOrPath::Path(s.to_string())
        }
    }

    /// Whether this is the stream.
    pub fn is_stream(&self) -> (r: bool)
        ensures
            r == (self@ is Stream),
    {
        match self {
            StreamOrPath::Stream => true,
            StreamOrPath::Path(_) => false,
        }
    }

    /// The name to show: `stream`, or the path.
    pub fn name(&self) -> (r: &str)
        ensures
            match self@ {
                StreamOrText::Stream => r@ == "stream"@,
                StreamOrText::Path(p) => r@ == p,
            },
    {
        match self {
            StreamOrPath::Stream => "stream",
            StreamOrPath::Path(p) => p.as_str(),
        }
    }

    /// The short name to show: `stream`, or the file name of the path without
    /// its extension, or a note that the path has none.
    pub fn short_name(&self) -> (r: String)
        ensures
            match self@ {
                StreamOrText::Stream => r@ == "stream"@,
                StreamOrText::Path(p) => match path_file_stem(p) {
                    Some(stem) => r@ == stem,
                    None => r@ == "<invalid-file-stem>"@,
                },
            },
    {
        match self {
            StreamOrPath::Stream => "stream".to_string(),
            StreamOrPath::Path(p) => match file_stem_of(p.as_str()) {
                Some(stem) => stem,
                None => "<invalid-file-stem>".to_string(),
            },
        }
    }

    /// The text that stands for this: nothing for the stream.
    pub fn to_string(&self) -> (r: String)
        ensures
            r@ == stream_text(self@),
    {
        match self {
            StreamOrPath::Stream => String::new(),
            StreamOrPath::Path(p) => p.clone(),
        }
    }
}

/// A template and the place its output goes to.
#[derive(Debug, Clone, PartialEq, Eq, PartialOrd, Ord, Hash)]
pub struct Spec {
    pub src: StreamOrPath,
    pub dst: StreamOrPath,
}

/// Why a text is no template spec.
#[derive(Debug, Clone, PartialEq, Eq, PartialOrd, Ord, Hash)]
pub struct SpecError(pub String);

/// The spec that a text stands for: what is before the first `:` is the
/// source, what is behind it the destination, and a text without `:` is a
/// source whose output goes to the stream.
pub open spec fn parsed_template(text: Seq<char>) -> (StreamOrText, StreamOrText) {
    let k = first_index_of(text, ':');
    if k == text.len() {
        (stream_or(text), StreamOrText::Stream)
    } else {
        (stream_or(text.subrange(0, k)), stream_or(text.subrange(k + 1, text.len() as int)))
    }
}

/// The text that a spec is written as: the source alone where the output
/// goes to the stream, and source, `:` and destination in every other case.
pub open spec fn rendered_template(src: StreamOrText, dst: StreamOrText) -> Seq<char> {
    match (src, dst) {
        (StreamOrText::Stream, StreamOrText::Stream) => seq![':'],
        (StreamOrText::Path(p), StreamOrText::Stream) => p,
        (StreamOrText::Stream, StreamOrText::Path(p)) => seq![':'] + p,
        (StreamOrText::Path(p1), StreamOrText::Path(p2)) => p1 + seq![':'] + p2,
    }
}

impl Spec {
    /// The character that parts source from destination.
    pub fn sep() -> (r: char)
        ensures
            r == ':',
    {
        ':'
    }

    /// Reads a spec written as `src:dst`.
    pub fn from(src: &str) -> (r: Spec)
        ensures
            (r.src@, r.dst@) == parsed_template(src@),
    {
        let chars = chars_of(src);
        let k = find_char(&chars, Spec::sep());
        if k == chars.len() {
            Spec { src: StreamOrPath::from(src), dst: StreamOrPath::Stream }
        } else {
            let head = slice_text(src, 0, k);
            let tail = slice_text(src, k + 1, chars.len());
            Spec { src: StreamOrPath::from(head.as_str()), dst: StreamOrPath::from(tail.as_str()) }
        }
    }

    /// Reads a spec written as `src:dst`; every text is one.
    pub fn try_from(src: &str) -> (r: Result<Spec, SpecError>)
        ensures
            r is Ok,
            (r->Ok_0.src@, r->Ok_0.dst@) == parsed_template(src@),
    {
        Ok(Spec::from(src))
    }

    /// Writes the spec as `src:dst`.
    pub fn to_string(&self) -> (r: String)
        ensures
            r@ == rendered_template(self.src@, self.dst@),
    {
        proof {
            reveal_strlit(":");
            assert(":"@ =~= seq![':']);
        }
        match (&self.src, &self.dst) {
            (StreamOrPath::Stream, StreamOrPath::Stream) => ":".to_string(),
            (StreamOrPath::Path(p), StreamOrPath::Stream) => p.clone(),
            (StreamOrPath::Stream, StreamOrPath::Path(p)) => concat2(":", p.as_str()),
            (StreamOrPath::Path(p1), StreamOrPath::Path(p2)) => concat3(p1.as_str(), ":", p2.as_str()),
        }
    }
}

/// Reading a template spec, writing it and reading it again gives the spec
/// that was read first.
pub proof fn lemma_template_round_trip(text: Seq<char>)
    ensures
        parsed_template(rendered_template(parsed_template(text).0, parsed_template(text).1))
            == parsed_template(text),
{
    let (src, dst) = parsed_template(text);
    let k = first_index_of(text, ':');
    lemma_first_index_of(text, ':');
    let s = stream_text(src);
    let d = stream_text(dst);
    assert(!s.contains(':')) by {
        if k == text.len() {
        } else {
            let head = text.subrange(0, k);
            assert forall|j: int| 0 <= j < head.len() implies head[j] != ':' by {
                assert(head[j] == text[j]);
            }
        }
        if s.contains(':') {
            let j = choose|j: int| 0 <= j < s.len() && s[j] == ':';
            if k == text.len() {
                assert(text.contains(':'));
            }
        }
    }
    let again = rendered_template(src, dst);
    lemma_first_index_of(again, ':');
    if dst is Stream && src is Path {
        assert(again == s);
    } else {
        assert(again =~= s + seq![':'] + d);
        crate::spec::lemma_first_index_after_prefix(s, ':', d);
        assert(again.subrange(0, s.len() as int) =~= s);
        assert(again.subrange(s.len() as int + 1, again.len() as int) =~= d);
    }
}

/// The engine that fills in the templates.
#[derive(Debug, Clone, Copy, PartialEq, Eq, PartialOrd, Ord, Hash)]
pub enum Engine {
    Handlebars,
    Liquid,
}

impl Engine {
    /// Reads an engine by its name: `liquid` or `handlebars`.
    pub fn from_str(s: &str) -> (r: Result<Engine, Error>)
        ensures
            s@ == "liquid"@ ==> r == Ok::<Engine, Error>(Engine::Liquid),
            s@ != "liquid"@ && s@ == "handlebars"@ ==> r == Ok::<Engine, Error>(Engine::Handlebars),
            s@ != "liquid"@ && s@ != "handlebars"@ ==> r is Err && r->Err_0 is UnknownEngine
                && r->Err_0->UnknownEngine_name@ == s@,
    {
        if same_text(s, "liquid") {
            Ok(Engine::Liquid)
        } else if same_text(s, "handlebars") {
            Ok(Engine::Handlebars)
        } else {
            Err(Error::UnknownEngine { name: s.to_string() })
        }
    }
}

/// How many of the first `n` specs read their template from the stream.
pub open spec fn stream_sources(specs: Seq<Spec>, n: int) -> nat
    decreases n,
{
    if n <= 0 {
        0
    } else {
        stream_sources(specs, n - 1) + if specs[n - 1].src@ is Stream {
            1nat
        } else {
            0nat
        }
    }
}

/// The first position from `from` on of a spec that is marked as writing to
/// the file it reads; the number of specs where there is none.
pub open spec fn first_overwrite(specs: Seq<Spec>, same_file: Seq<bool>, from: int) -> int
    decreases specs.len() - from,
{
    if from < 0 || from >= specs.len() {
        specs.len() as int
    } else if specs[from].src@ is Path && specs[from].dst@ is Path && from < same_file.len()
        && same_file[from] {
        from
    } else {
        first_overwrite(specs, same_file, from + 1)
    }
}

/// Accepts the specs of one call together with the source of the data.
///
/// There must be a spec; the stream can be read only once, by the data or by
/// one template; and no template may be written over by its own output.
/// `same_file` says for each spec whether source and destination are one
/// file on disk; a spec that it says nothing of counts as writing elsewhere.
pub fn validate(data: &StreamOrPath, specs: &Vec<Spec>, same_file: &Vec<bool>) -> (r: Result<(), Error>)
    ensures
        ({
            let n = stream_sources(specs@, specs@.len() as int);
            let k = first_overwrite(specs@, same_file@, 0);
            if specs@.len() == 0 {
                r is Err && r->Err_0 is NoSpecs
            } else if n > 1 {
                r is Err && r->Err_0 is ManyStdinSpecs
            } else if data@ is Stream && n == 1 {
                r is Err && r->Err_0 is DataAndTemplateFromStdin
            } else if k < specs@.len() {
                r is Err && r->Err_0 is OverwritesInput && r->Err_0->OverwritesInput_src@
                    == stream_text(specs@[k].src@)
            } else {
                r is Ok
            }
        }),
{
    if specs.len() == 0 {
        return Err(Error::NoSpecs);
    }
    let mut count: usize = 0;
    let mut i: usize = 0;
    while i < specs.len()
        invariant
            i <= specs.len(),
            count == stream_sources(specs@, i as int),
            count <= i,
        decreases specs.len() - i,
    {
        if specs[i].src.is_stream() {
            count = count + 1;
        }
        i = i + 1;
    }
    if count > 1 {
        return Err(Error::ManyStdinSpecs);
    }
    if data.is_stream() && count == 1 {
        return Err(Error::DataAndTemplateFromStdin);
    }
    let mut k: usize = 0;
    while k < specs.len()
        invariant
            k <= specs.len(),
            specs@.len() > 0,
            count == stream_sources(specs@, specs@.len() as int),
            count <= 1,
            !(data@ is Stream && count == 1),
            first_overwrite(specs@, same_file@, 0) == first_overwrite(specs@, same_file@, k as int),
        decreases specs.len() - k,
    {
        let spec = &specs[k];
        if !spec.src.is_stream() && !spec.dst.is_stream() && k < same_file.len() && same_file[k] {
            return Err(Error::OverwritesInput { src: spec.src.to_string() });
        }
        k = k + 1;
    }
    Ok(())
}

} // verus!
