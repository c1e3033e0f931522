//! Small operations on text that the rest of the crate is written with.

use vstd::prelude::*;

verus! {

/// The characters of a text, one by one.
pub fn chars_of(s: &str) -> (r: Vec<char>)
    ensures
        r@ == s@,
{
    let mut out: Vec<char> = Vec::new();
    for c in it: s.chars()
        invariant
            out@ == s@.take(it.index() as int),
            it.seq() == s@,
    {
        proof {
            assert(s@.take(it.index() + 1) =~= s@.take(it.index() as int).push(c));
        }
        out.push(c);
    }
    assert(s@.take(s@.len() as int) =~= s@);
    out
}

/// The position of the first `c` in `s`, or the length of `s` where there is none.
pub open spec fn first_index_of(s: Seq<char>, c: char) -> int
    decreases s.len(),
{
    if s.len() == 0 {
        0
    } else if s[0] == c {
        0
    } else {
        1 + first_index_of(s.drop_first(), c)
    }
}

/// The first `c` lies inside the text or at its end, is a `c` where it lies
/// inside, has no `c` before it, and lies at the end exactly where the text
/// holds no `c`.
pub proof fn lemma_first_index_of(s: Seq<char>, c: char)
    ensures
        0 <= first_index_of(s, c) <= s.len(),
        forall|j: int| 0 <= j < first_index_of(s, c) ==> s[j] != c,
        first_index_of(s, c) < s.len() ==> s[first_index_of(s, c)] == c,
        first_index_of(s, c) == s.len() <==> !s.contains(c),
    decreases s.len(),
{
    if s.len() == 0 {
    } else if s[0] == c {
        assert(s.contains(c));
    } else {
        let t = s.drop_first();
        lemma_first_index_of(t, c);
        assert forall|j: int| 0 <= j < first_index_of(s, c) implies s[j] != c by {
            if j > 0 {
                assert(s[j] == t[j - 1]);
            }
        }
        if first_index_of(t, c) < t.len() {
            assert(s[first_index_of(s, c)] == t[first_index_of(t, c)]);
            assert(s.contains(c));
        } else {
            if s.contains(c) {
                let k = choose|k: int| 0 <= k < s.len() && s[k] == c;
                assert(t[k - 1] == c);
                assert(t.contains(c));
            }
        }
    }
}

/// Finds the first `c` among `chars`; the length where there is none.
pub fn find_char(chars: &Vec<char>, c: char) -> (r: usize)
    ensures
        r == first_index_of(chars@, c),
        r <= chars.len(),
{
    let mut i: usize = 0;
    while i < chars.len()
        invariant
            i <= chars.len(),
            forall|j: int| 0 <= j < i ==> chars@[j] != c,
        decreases chars.len() - i,
    {
        if chars[i] == c {
            proof {
                lemma_first_index_of(chars@, c);
                let f = first_index_of(chars@, c);
                if f < i {
                    assert(chars@[f] == c);
                }
                if f > i {
                    assert(chars@[i as int] != c);
                }
            }
            return i;
        }
        i = i + 1;
    }
    proof {
        lemma_first_index_of(chars@, c);
        let f = first_index_of(chars@, c);
        if f < chars@.len() {
            assert(chars@[f] == c);
        }
    }
    i
}

/// The part of `s` from character `from` up to, not including, character `to`.
pub fn slice_text(s: &str, from: usize, to: usize) -> (r: String)
    requires
        from <= to <= s@.len(),
    ensures
        r@ == s@.subrange(from as int, to as int),
{
    s.substring_char(from, to).to_string()
}

/// `a` followed by `b`.
pub fn concat2(a: &str, b: &str) -> (r: String)
    ensures
        r@ == a@ + b@,
{
    let mut out = a.to_string();
    out.append(b);
    out
}

/// Whether two texts hold the same characters.
pub fn same_text(a: &str, b: &str) -> (r: bool)
    ensures
        r == (a@ == b@),
{
    let x = a.to_string();
    let y = b.to_string();
    x == y
}

/// `a`, `b` and `c` in a row.
pub fn concat3(a: &str, b: &str, c: &str) -> (r: String)
    ensures
        r@ == a@ + b@ + c@,
{
    let mut out = a.to_string();
    out.append(b);
    out.append(c);
    out
}

/// The decimal digit that stands for `d`.
pub open spec fn digit_char(d: nat) -> char {
    if d == 0 {
        '0'
    } else if d == 1 {
        '1'
    } else if d == 2 {
        '2'
    } else if d == 3 {
        '3'
    } else if d == 4 {
        '4'
    } else if d == 5 {
        '5'
    } else if d == 6 {
        '6'
    } else if d == 7 {
        '7'
    } else if d == 8 {
        '8'
    } else {
        '9'
    }
}

/// A number written in decimal, without leading zeros.
pub open spec fn decimal_text(n: nat) -> Seq<char>
    decreases n,
{
    if n < 10 {
        seq![digit_char(n)]
    } else {
        decimal_text(n / 10) + seq![digit_char(n % 10)]
    }
}

fn digit_text(d: usize) -> (r: &'static str)
    requires
        d < 10,
    ensures
        r@ == seq![digit_char(d as nat)],
{
    proof {
        reveal_strlit("0");
        reveal_strlit("1");
        reveal_strlit("2");
        reveal_strlit("3");
        reveal_strlit("4");
        reveal_strlit("5");
        reveal_strlit("6");
        reveal_strlit("7");
        reveal_strlit("8");
        reveal_strlit("9");
    }
    let r = if d == 0 {
        "0"
    } else if d == 1 {
        "1"
    } else if d == 2 {
        "2"
    } else if d == 3 {
        "3"
    } else if d == 4 {
        "4"
    } else if d == 5 {
        "5"
    } else if d == 6 {
        "6"
    } else if d == 7 {
        "7"
    } else if d == 8 {
        "8"
    } else {
        "9"
    };
    assert(r@ =~= seq![digit_char(d as nat)]);
    r
}

/// Writes a number in decimal.
pub fn decimal(n: usize) -> (r: String)
    ensures
        r@ == decimal_text(n as nat),
    decreases n,
{
    if n < 10 {
        digit_text(n).to_string()
    } else {
        let head = decimal(n / 10);
        concat2(head.as_str(), digit_text(n % 10))
    }
}

/// Whether `c` is one of the digits `0` to `9`.
pub open spec fn is_digit(c: char) -> bool {
    '0' <= c <= '9'
}

/// The number that a row of digits stands for.
pub open spec fn digits_number(s: Seq<char>) -> nat
    decreases s.len(),
{
    if s.len() == 0 {
        0
    } else {
        (digits_number(s.drop_last()) * 10 + (s.last() as u32 - '0' as u32)) as nat
    }
}

/// The digits of a number written with an optional `+` in front.
pub open spec fn unsigned_body(s: Seq<char>) -> Seq<char> {
    if s.len() > 0 && s[0] == '+' {
        s.drop_first()
    } else {
        s
    }
}

/// The index that a text stands for: decimal digits, at least one, with an
/// optional `+` in front, and a value that fits the machine's word. Any other
/// text stands for none.
pub open spec fn parsed_index(s: Seq<char>) -> Option<usize> {
    let body = unsigned_body(s);
    if body.len() > 0 && (forall|i: int| 0 <= i < body.len() ==> is_digit(#[trigger] body[i]))
        && digits_number(body) <= usize::MAX {
        Some(digits_number(body) as usize)
    } else {
        None
    }
}

proof fn lemma_number_grows(s: Seq<char>, n: int)
    requires
        0 <= n <= s.len(),
        forall|i: int| 0 <= i < s.len() ==> is_digit(#[trigger] s[i]),
    ensures
        digits_number(s.take(n)) <= digits_number(s),
    decreases s.len() - n,
{
    if n == s.len() {
        assert(s.take(n) =~= s);
    } else {
        lemma_number_grows(s, n + 1);
        let t = s.take(n + 1);
        assert(t.drop_last() =~= s.take(n));
        assert(is_digit(s[n]));
        assert(t.last() == s[n]);
    }
}

/// Reads an index as `parsed_index` describes it.
pub fn parse_index(s: &str) -> (r: Option<usize>)
    ensures
        r == parsed_index(s@),
{
    let chars = chars_of(s);
    let start: usize = if chars.len() > 0 && chars[0] == '+' {
        1
    } else {
        0
    };
    let ghost body = unsigned_body(s@);
    assert(body =~= chars@.subrange(start as int, chars@.len() as int));
    if chars.len() == start {
        return None;
    }
    let mut acc: usize = 0;
    let mut i: usize = start;
    while i < chars.len()
        invariant
            start <= i <= chars.len(),
            body == unsigned_body(s@),
            body == chars@.subrange(start as int, chars@.len() as int),
            forall|j: int| 0 <= j < i - start ==> is_digit(#[trigger] body[j]),
            acc == digits_number(body.take(i - start)),
        decreases chars.len() - i,
    {
        let c = chars[i];
        assert(body[i - start] == c);
        if c < '0' || c > '9' {
            return None;
        }
        let d = (c as u32 - '0' as u32) as usize;
        proof {
            let t = body.take(i - start + 1);
            assert(t.drop_last() =~= body.take(i - start));
            assert(t.last() == c);
            assert(digits_number(t) == acc * 10 + d);
        }
        if acc > (usize::MAX - d) / 10 {
            proof {
                if forall|j: int| 0 <= j < body.len() ==> is_digit(#[trigger] body[j]) {
                    lemma_number_grows(body, i - start + 1);
                }
            }
            return None;
        }
        acc = acc * 10 + d;
        i = i + 1;
    }
    assert(body.take(i - start) =~= body);
    Some(acc)
}

/// The views of a list of texts.
pub open spec fn texts(items: Seq<String>) -> Seq<Seq<char>> {
    items.map_values(|s: String| s@)
}

/// The first `n` of `items` in a row, with `sep` between neighbours.
pub open spec fn joined_upto(items: Seq<Seq<char>>, sep: Seq<char>, n: int) -> Seq<char>
    decreases n,
{
    if n <= 0 {
        Seq::empty()
    } else if n == 1 {
        items[0]
    } else {
        joined_upto(items, sep, n - 1) + sep + items[n - 1]
    }
}

/// All of `items` in a row, with `sep` between neighbours.
pub open spec fn joined(items: Seq<Seq<char>>, sep: Seq<char>) -> Seq<char> {
    joined_upto(items, sep, items.len() as int)
}

/// Writes the items in a row, with `sep` between neighbours.
pub fn join_texts(items: &Vec<String>, sep: &str) -> (r: String)
    ensures
        r@ == joined(texts(items@), sep@),
{
    let mut out = String::new();
    let mut i: usize = 0;
    while i < items.len()
        invariant
            i <= items.len(),
            out@ == joined_upto(texts(items@), sep@, i as int),
        decreases items.len() - i,
    {
        assert(texts(items@)[i as int] == items@[i as int]@);
        if i > 0 {
            out.append(sep);
        } else {
            assert(out@ + items@[0]@ =~= items@[0]@);
        }
        out.append(items[i].as_str());
        i = i + 1;
    }
    out
}

/// The first `n` of `lines`, each closed by a line feed.
pub open spec fn lines_upto(lines: Seq<Seq<char>>, n: int) -> Seq<char>
    decreases n,
{
    if n <= 0 {
        Seq::empty()
    } else {
        lines_upto(lines, n - 1) + lines[n - 1] + seq!['\n']
    }
}

/// The content of a file that holds the lines, each closed by a line feed.
pub open spec fn as_lines(lines: Seq<Seq<char>>) -> Seq<char> {
    lines_upto(lines, lines.len() as int)
}

/// Writes each line followed by a line feed.
pub fn write_lines(lines: &Vec<String>) -> (r: String)
    ensures
        r@ == as_lines(texts(lines@)),
{
    proof {
        reveal_strlit("\n");
        assert("\n"@ =~= seq!['\n']);
    }
    let mut out = String::new();
    let mut i: usize = 0;
    while i < lines.len()
        invariant
            i <= lines.len(),
            "\n"@ == seq!['\n'],
            out@ == lines_upto(texts(lines@), i as int),
        decreases lines.len() - i,
    {
        assert(texts(lines@)[i as int] == lines@[i as int]@);
        out.append(lines[i].as_str());
        out.append("\n");
        i = i + 1;
    }
    out
}

} // verus!
