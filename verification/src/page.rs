//! Page splitting: a page source is a metadata block terminated by a line
//! holding exactly `+++` (up to surrounding whitespace), followed by the
//! page body. Splitting finds the first such line and hands back what
//! stands before and after it.

use vstd::prelude::*;

verus! {

/// Splitting can only fail by never meeting the terminator line.
#[derive(Debug, Clone, PartialEq, Eq)]
pub enum SplitError {
    MissingMetadataTerminator,
}

/// A failure reported by the Markdown parser, carried as plain text.
#[derive(Debug, Clone, PartialEq, Eq)]
pub struct MdParseError {
    message: String,
}

impl MdParseError {
    /// The parser's message, abstractly.
    pub closed spec fn message_spec(&self) -> Seq<char> {
        self.message@
    }

    /// Wraps a parser message.
    pub fn new(message: String) -> (r: Self)
        ensures
            r.message_spec() == message@,
    {
        MdParseError { message }
    }

    /// The parser's message.
    pub fn message(&self) -> (r: &String)
        ensures
            r@ == self.message_spec(),
    {
        &self.message
    }
}

/// A page's parsed metadata: its template layout and its title.
#[derive(Debug, Clone, PartialEq, Eq)]
pub struct Metadata {
    pub layout: String,
    pub title: String,
}

impl Metadata {
    /// The layout a page gets when its metadata names none.
    pub fn default_layout() -> (r: String)
        ensures
            r@ == "default.html"@,
    {
        String::from_str("default.html")
    }

    /// Metadata from a title and an optional layout, defaulting the
    /// layout when none is given.
    pub fn new(title: String, layout: Option<String>) -> (r: Self)
        ensures
            r.title@ == title@,
            match layout {
                Some(l) => r.layout@ == l@,
                None => r.layout@ == "default.html"@,
            },
    {
        let layout = match layout {
            Some(l) => l,
            None => Metadata::default_layout(),
        };
        Metadata { layout, title }
    }
}

/// The raw halves of a page source: the metadata text and the body text.
#[derive(Debug, Clone, PartialEq, Eq)]
pub struct RawPageParts {
    pub metadata: String,
    pub content: String,
}

/// Whitespace in the sense of the Unicode `White_Space` property, the set
/// `str::trim` strips.
pub open spec fn is_ws(c: char) -> bool {
    ||| c == ' '
    ||| c == '\t'
    ||| c == '\n'
    ||| c == '\u{b}'
    ||| c == '\u{c}'
    ||| c == '\r'
    ||| c == '\u{85}'
    ||| c == '\u{a0}'
    ||| c == '\u{1680}'
    ||| (0x2000 <= (c as u32) && (c as u32) <= 0x200a)
    ||| c == '\u{2028}'
    ||| c == '\u{2029}'
    ||| c == '\u{202f}'
    ||| c == '\u{205f}'
    ||| c == '\u{3000}'
}

/// Whether one character is whitespace.
pub fn char_is_ws(c: char) -> (b: bool)
    ensures
        b == is_ws(c),
{
    let v = c as u32;
    v == 0x20 || v == 0x9 || v == 0xa || v == 0xb || v == 0xc || v == 0xd || v == 0x85
        || v == 0xa0 || v == 0x1680 || (0x2000 <= v && v <= 0x200a) || v == 0x2028
        || v == 0x2029 || v == 0x202f || v == 0x205f || v == 0x3000
}

/// How many whitespace characters the sequence begins with.
pub open spec fn leading_ws_count(s: Seq<char>) -> nat
    decreases s.len(),
{
    if s.len() == 0 {
        0
    } else if is_ws(s[0]) {
        1 + leading_ws_count(s.drop_first())
    } else {
        0
    }
}

/// How many whitespace characters the sequence ends with.
pub open spec fn trailing_ws_count(s: Seq<char>) -> nat
    decreases s.len(),
{
    if s.len() == 0 {
        0
    } else if is_ws(s.last()) {
        1 + trailing_ws_count(s.drop_last())
    } else {
        0
    }
}

/// The sequence with leading and trailing whitespace removed.
pub open spec fn trim_spec(s: Seq<char>) -> Seq<char> {
    if leading_ws_count(s) == s.len() {
        Seq::empty()
    } else {
        s.subrange(leading_ws_count(s) as int, s.len() - trailing_ws_count(s))
    }
}

/// The leading count is maximal: everything before it is whitespace and
/// the character at it, if any, is not.
proof fn lemma_leading_ws(s: Seq<char>)
    ensures
        leading_ws_count(s) <= s.len(),
        forall|k: int| 0 <= k < leading_ws_count(s) ==> is_ws(s[k]),
        leading_ws_count(s) < s.len() ==> !is_ws(s[leading_ws_count(s) as int]),
    decreases s.len(),
{
    if s.len() > 0 && is_ws(s[0]) {
        lemma_leading_ws(s.drop_first());
        assert(forall|k: int| 1 <= k < s.len() ==> s[k] == s.drop_first()[k - 1]);
    }
}

/// The trailing count is maximal, mirrored at the end.
proof fn lemma_trailing_ws(s: Seq<char>)
    ensures
        trailing_ws_count(s) <= s.len(),
        forall|k: int| s.len() - trailing_ws_count(s) <= k < s.len() ==> is_ws(s[k]),
        trailing_ws_count(s) < s.len() ==> !is_ws(s[s.len() - trailing_ws_count(s) - 1]),
    decreases s.len(),
{
    if s.len() > 0 && is_ws(s.last()) {
        lemma_trailing_ws(s.drop_last());
        assert(forall|k: int| 0 <= k < s.len() - 1 ==> s[k] == s.drop_last()[k]);
    }
}

/// A non-whitespace character bounds the whitespace suffix away from it.
proof fn lemma_trailing_ws_bound(s: Seq<char>, k: int)
    requires
        0 <= k < s.len(),
        !is_ws(s[k]),
    ensures
        trailing_ws_count(s) <= s.len() - k - 1,
    decreases s.len(),
{
    if s.len() > 0 && is_ws(s.last()) {
        assert(s.drop_last()[k] == s[k]);
        lemma_trailing_ws_bound(s.drop_last(), k);
    }
}

/// The input with leading and trailing whitespace removed.
pub fn trim_str(s: &str) -> (r: String)
    ensures
        r@ == trim_spec(s@),
{
    proof {
        lemma_leading_ws(s@);
        lemma_trailing_ws(s@);
    }
    let n = s.unicode_len();
    let mut a: usize = 0;
    while a < n && char_is_ws(s.get_char(a))
        invariant
            a <= n,
            n == s@.len(),
            forall|k: int| 0 <= k < a ==> is_ws(s@[k]),
        decreases n - a,
    {
        a = a + 1;
    }
    assert(a == leading_ws_count(s@)) by {
        lemma_leading_ws(s@);
    }
    if a == n {
        return String::new();
    }
    proof {
        lemma_trailing_ws_bound(s@, a as int);
    }
    let mut b: usize = n;
    while b > a + 1 && char_is_ws(s.get_char(b - 1))
        invariant
            a < b <= n,
            n == s@.len(),
            forall|k: int| b <= k < n ==> is_ws(s@[k]),
        decreases b,
    {
        b = b - 1;
    }
    assert(n - b == trailing_ws_count(s@)) by {
        lemma_trailing_ws(s@);
        lemma_trailing_ws_bound(s@, a as int);
        if b > a + 1 {
            assert(!is_ws(s@[b - 1]));
        } else {
            assert(b == a + 1);
            assert(!is_ws(s@[a as int]));
        }
    }
    String::from_str(s.substring_char(a, b))
}

/// The index just past the line that begins at `i`: past the first
/// newline at or after `i`, or the end of the text when none remains.
pub open spec fn line_end(s: Seq<char>, i: int) -> int
    decreases s.len() - i,
    when 0 <= i
{
    if i >= s.len() {
        s.len() as int
    } else if s[i] == '\n' {
        i + 1
    } else {
        line_end(s, i + 1)
    }
}

/// A line runs from its start to at most the end of the text, and is
/// never empty while text remains.
pub proof fn lemma_line_end(s: Seq<char>, i: int)
    requires
        0 <= i,
    ensures
        line_end(s, i) <= s.len(),
        i >= s.len() ==> line_end(s, i) == s.len(),
        i < s.len() ==> i < line_end(s, i),
    decreases s.len() - i,
{
    if i < s.len() && s[i] != '\n' {
        lemma_line_end(s, i + 1);
    }
}

/// The start and end of the first line whose trimmed text is exactly
/// `+++`, searching line by line from `start`.
pub open spec fn find_terminator(s: Seq<char>, start: int) -> Option<(int, int)>
    decreases s.len() - start,
    when 0 <= start
    via find_terminator_decreases
{
    if start >= s.len() {
        None
    } else if trim_spec(s.subrange(start, line_end(s, start))) == "+++"@ {
        Some((start, line_end(s, start)))
    } else {
        find_terminator(s, line_end(s, start))
    }
}

#[via_fn]
proof fn find_terminator_decreases(s: Seq<char>, start: int) {
    if 0 <= start && start < s.len() {
        lemma_line_end(s, start);
    }
}

/// What splitting a page source yields: the text before the first
/// terminator line and the text after it, or a failure when no line of
/// the source is a terminator.
pub open spec fn split_spec(s: Seq<char>) -> Result<(Seq<char>, Seq<char>), SplitError> {
    match find_terminator(s, 0) {
        None => Err(SplitError::MissingMetadataTerminator),
        Some((ls, le)) => Ok((s.take(ls), s.skip(le))),
    }
}

impl RawPageParts {
    /// Splits a page source at the first line holding exactly `+++` up to
    /// whitespace: the metadata text before that line and the body after
    /// it.
    pub fn split(code: &str) -> (r: Result<RawPageParts, SplitError>)
        ensures
            match split_spec(code@) {
                Ok(p) => r matches Ok(parts) && parts.metadata@ == p.0 && parts.content@
                    == p.1,
                Err(e) => r matches Err(err) && err == e,
            },
    {
        let ghost s = code@;
        let n = code.unicode_len();
        let terminator = String::from_str("+++");
        let mut start: usize = 0;
        while start < n
            invariant
                start <= n,
                n == s.len(),
                s == code@,
                terminator@ == "+++"@,
                find_terminator(s, 0) == find_terminator(s, start as int),
            decreases n - start,
        {
            let mut j: usize = start;
            while j < n && code.get_char(j) != '\n'
                invariant
                    start <= j <= n,
                    n == s.len(),
                    s == code@,
                    line_end(s, start as int) == line_end(s, j as int),
                decreases n - j,
            {
                j = j + 1;
            }
            let end = if j < n {
                j + 1
            } else {
                n
            };
            assert(end == line_end(s, start as int));
            let line = code.substring_char(start, end);
            let trimmed = trim_str(line);
            if trimmed == terminator {
                let metadata = String::from_str(code.substring_char(0, start));
                let content = String::from_str(code.substring_char(end, n));
                proof {
                    assert(s.subrange(0, start as int) =~= s.take(start as int));
                    assert(s.subrange(end as int, n as int) =~= s.skip(end as int));
                }
                return Ok(RawPageParts { metadata, content });
            }
            start = end;
        }
        Err(SplitError::MissingMetadataTerminator)
    }
}

} // verus!
