//! HTML emission bookkeeping: the context that numbers list nestings,
//! tracks open sections and hands out unique heading slugs, and the text
//! expander that escapes prose while passing `{{ ... }}` template blocks
//! through untouched.

use vstd::prelude::*;

verus! {

use crate::append_str;
use crate::push_char;
use crate::slugify::SlugifyError;

/// The ways HTML emission can fail.
#[derive(Debug, Clone, PartialEq, Eq)]
pub enum ToHtmlError {
    /// Slug extraction refused a value.
    Slugify(SlugifyError),
    /// The named kind of value cannot be rendered.
    Unsupported(String),
    /// A `{{ ... }}` template block was never closed; carries the text
    /// from the block's paragraph position on.
    UnclosedBlock(String),
}

/// A value that can render itself as HTML into a buffer, under a shared
/// emission context.
pub trait ToHtml {
    /// Appends this value's HTML to `buf`.
    fn to_html(&self, buf: &mut String, context: &mut ToHtmlCtx) -> Result<(), ToHtmlError>;
}

/// Ghost snapshot of an emission context.
pub struct CtxModel {
    /// How often each slug base has been handed out.
    pub slugs: Seq<(Seq<char>, usize)>,
    /// The slug text of the sections currently open, outermost first.
    pub sections: Seq<Seq<char>>,
    /// How many ordered lists are open.
    pub ord_list_depth: nat,
    /// How many unordered lists are open.
    pub unord_list_depth: nat,
}

/// View of an owned slug-counter list.
pub open spec fn slug_counters_view(v: Seq<(String, usize)>) -> Seq<(Seq<char>, usize)> {
    v.map_values(|p: (String, usize)| (p.0@, p.1))
}

/// The position of the first counter for `key`, if any.
pub open spec fn slug_index(sl: Seq<(Seq<char>, usize)>, key: Seq<char>) -> Option<int>
    decreases sl.len(),
{
    if sl.len() == 0 {
        None
    } else if sl[0].0 == key {
        Some(0)
    } else {
        match slug_index(sl.drop_first(), key) {
            None => None,
            Some(i) => Some(i + 1),
        }
    }
}

/// A counter bumped by one, stopping at the largest representable value.
pub open spec fn bump(c: usize) -> usize {
    if c == usize::MAX {
        c
    } else {
        (c + 1) as usize
    }
}

/// The count a slug base reaches when handed out once more: one for a
/// base never seen, its counter bumped otherwise.
pub open spec fn count_after(sl: Seq<(Seq<char>, usize)>, key: Seq<char>) -> usize {
    match slug_index(sl, key) {
        None => 1,
        Some(i) => bump(sl[i].1),
    }
}

/// The counter list after handing out `key` once more.
pub open spec fn bump_slugs(
    sl: Seq<(Seq<char>, usize)>,
    key: Seq<char>,
) -> Seq<(Seq<char>, usize)> {
    match slug_index(sl, key) {
        None => sl.push((key, 1)),
        Some(i) => sl.update(i, (key, bump(sl[i].1))),
    }
}

/// The found index carries the key, and nothing before it does; when none
/// is found, nothing carries the key at all.
proof fn lemma_slug_index(sl: Seq<(Seq<char>, usize)>, key: Seq<char>)
    ensures
        match slug_index(sl, key) {
            None => forall|k: int| 0 <= k < sl.len() ==> sl[k].0 != key,
            Some(i) => 0 <= i < sl.len() && sl[i].0 == key && forall|k: int|
                0 <= k < i ==> sl[k].0 != key,
        },
    decreases sl.len(),
{
    if sl.len() > 0 && sl[0].0 != key {
        lemma_slug_index(sl.drop_first(), key);
        assert(forall|k: int| 1 <= k < sl.len() ==> sl[k] == sl.drop_first()[k - 1]);
    }
}

/// The decimal digit character for one value below ten.
pub open spec fn digit_char(d: int) -> char {
    if d == 0 {
        '0'
    } else if d == 1 {
        '1'
    } else if d == 2 {
        '2'
    } else if d == 3 {
        '3'
    } else if d == 4 {
        '4'
    } else if d == 5 {
        '5'
    } else if d == 6 {
        '6'
    } else if d == 7 {
        '7'
    } else if d == 8 {
        '8'
    } else {
        '9'
    }
}

/// The decimal digits of a number, most significant first.
pub open spec fn dec_digits(n: nat) -> Seq<char>
    decreases n,
{
    if n < 10 {
        seq![digit_char(n as int)]
    } else {
        dec_digits(n / 10).push(digit_char((n % 10) as int))
    }
}

/// Appends the decimal rendering of `n`.
pub fn push_dec(n: usize, out: &mut String)
    ensures
        final(out)@ == old(out)@ + dec_digits(n as nat),
    decreases n,
{
    if n >= 10 {
        push_dec(n / 10, out);
    }
    let d = n % 10;
    let c: char = if d == 0 {
        '0'
    } else if d == 1 {
        '1'
    } else if d == 2 {
        '2'
    } else if d == 3 {
        '3'
    } else if d == 4 {
        '4'
    } else if d == 5 {
        '5'
    } else if d == 6 {
        '6'
    } else if d == 7 {
        '7'
    } else if d == 8 {
        '8'
    } else {
        '9'
    };
    push_char(out, c);
    proof {
        if n >= 10 {
            assert(old(out)@ + dec_digits((n / 10) as nat).push(digit_char((n % 10) as int))
                =~= (old(out)@ + dec_digits((n / 10) as nat)).push(digit_char(
                (n % 10) as int,
            )));
        } else {
            assert(old(out)@ + seq![digit_char(n as int)] =~= old(out)@.push(digit_char(
                n as int,
            )));
        }
    }
}

/// An ASCII upper-case letter mapped to lower case; everything else kept.
pub open spec fn lower_char(c: char) -> char {
    if c == 'A' {
        'a'
    } else if c == 'B' {
        'b'
    } else if c == 'C' {
        'c'
    } else if c == 'D' {
        'd'
    } else if c == 'E' {
        'e'
    } else if c == 'F' {
        'f'
    } else if c == 'G' {
        'g'
    } else if c == 'H' {
        'h'
    } else if c == 'I' {
        'i'
    } else if c == 'J' {
        'j'
    } else if c == 'K' {
        'k'
    } else if c == 'L' {
        'l'
    } else if c == 'M' {
        'm'
    } else if c == 'N' {
        'n'
    } else if c == 'O' {
        'o'
    } else if c == 'P' {
        'p'
    } else if c == 'Q' {
        'q'
    } else if c == 'R' {
        'r'
    } else if c == 'S' {
        's'
    } else if c == 'T' {
        't'
    } else if c == 'U' {
        'u'
    } else if c == 'V' {
        'v'
    } else if c == 'W' {
        'w'
    } else if c == 'X' {
        'x'
    } else if c == 'Y' {
        'y'
    } else if c == 'Z' {
        'z'
    } else {
        c
    }
}

/// A character sequence lowered pointwise.
pub open spec fn lower_seq(s: Seq<char>) -> Seq<char> {
    s.map_values(|c: char| lower_char(c))
}

/// Lowers one character.
pub fn to_lower_char(c: char) -> (r: char)
    ensures
        r == lower_char(c),
{
    match c {
        'A' => 'a',
        'B' => 'b',
        'C' => 'c',
        'D' => 'd',
        'E' => 'e',
        'F' => 'f',
        'G' => 'g',
        'H' => 'h',
        'I' => 'i',
        'J' => 'j',
        'K' => 'k',
        'L' => 'l',
        'M' => 'm',
        'N' => 'n',
        'O' => 'o',
        'P' => 'p',
        'Q' => 'q',
        'R' => 'r',
        'S' => 's',
        'T' => 't',
        'U' => 'u',
        'V' => 'v',
        'W' => 'w',
        'X' => 'x',
        'Y' => 'y',
        'Z' => 'z',
        _ => c,
    }
}

/// Appends the lowered characters of `s`.
#[verifier::loop_isolation(false)]
fn push_lower(s: &str, out: &mut String)
    ensures
        final(out)@ == old(out)@ + lower_seq(s@),
{
    let n = s.unicode_len();
    let mut i: usize = 0;
    while i < n
        invariant
            i <= n,
            n == s@.len(),
            out@ == old(out)@ + lower_seq(s@.take(i as int)),
        decreases n - i,
    {
        let c = to_lower_char(s.get_char(i));
        push_char(out, c);
        proof {
            assert(lower_seq(s@.take(i as int + 1)) =~= lower_seq(s@.take(i as int)).push(
                lower_char(s@[i as int]),
            ));
            assert(old(out)@ + lower_seq(s@.take(i as int)).push(lower_char(s@[i as int]))
                =~= (old(out)@ + lower_seq(s@.take(i as int))).push(lower_char(s@[i as int])));
        }
        i = i + 1;
    }
    proof {
        assert(s@.take(n as int) =~= s@);
    }
}

/// The slug base of the open sections from position `i` on: each
/// section's text lowered, separated by dashes.
pub open spec fn slug_base_from(ss: Seq<Seq<char>>, i: int) -> Seq<char>
    decreases ss.len() - i,
    when 0 <= i
{
    if i >= ss.len() {
        Seq::empty()
    } else if i > 0 {
        seq!['-'] + lower_seq(ss[i]) + slug_base_from(ss, i + 1)
    } else {
        lower_seq(ss[i]) + slug_base_from(ss, i + 1)
    }
}

/// The slug base of the open sections: their texts lowered and joined
/// with dashes.
pub open spec fn slug_base(ss: Seq<Seq<char>>) -> Seq<char> {
    slug_base_from(ss, 0)
}

/// Appends the slug base of the sections from position `i` on.
fn push_slug_base(sections: &Vec<String>, i: usize, out: &mut String)
    requires
        i <= sections@.len(),
    ensures
        final(out)@ == old(out)@ + slug_base_from(sections.deep_view(), i as int),
    decreases sections@.len() - i,
{
    if i < sections.len() {
        if i > 0 {
            push_char(out, '-');
        }
        push_lower(sections[i].as_str(), out);
        push_slug_base(sections, i + 1, out);
        proof {
            assert(sections.deep_view()[i as int] == sections@[i as int]@);
            if i > 0 {
                assert(old(out)@ + (seq!['-'] + lower_seq(sections@[i as int]@)
                    + slug_base_from(sections.deep_view(), i as int + 1)) =~= ((old(out)@
                    + seq!['-']) + lower_seq(sections@[i as int]@)) + slug_base_from(
                    sections.deep_view(),
                    i as int + 1,
                ));
                assert(old(out)@ + seq!['-'] =~= old(out)@.push('-'));
            } else {
                assert(old(out)@ + (lower_seq(sections@[i as int]@) + slug_base_from(
                    sections.deep_view(),
                    i as int + 1,
                )) =~= (old(out)@ + lower_seq(sections@[i as int]@)) + slug_base_from(
                    sections.deep_view(),
                    i as int + 1,
                ));
            }
        }
    } else {
        proof {
            assert(old(out)@ + slug_base_from(sections.deep_view(), i as int) =~= old(out)@);
        }
    }
}

/// `</div>` repeated `n` times.
pub open spec fn close_divs(n: nat) -> Seq<char>
    decreases n,
{
    if n == 0 {
        Seq::empty()
    } else {
        "</div>"@ + close_divs((n - 1) as nat)
    }
}

/// The sections left open after closing down to heading depth `depth`:
/// everything from depth `depth - 1` on is closed; a context with fewer
/// open sections than the depth asks for is left as it is.
pub open spec fn prepared_sections(ss: Seq<Seq<char>>, depth: nat) -> Seq<Seq<char>> {
    if ss.len() >= depth {
        if depth >= 1 {
            ss.take(depth - 1)
        } else {
            ss.take(0)
        }
    } else {
        ss
    }
}

/// How many `</div>` closings reaching heading depth `depth` emits.
pub open spec fn close_count(ss: Seq<Seq<char>>, depth: nat) -> nat {
    if ss.len() >= depth {
        (ss.len() - depth + 1) as nat
    } else {
        0
    }
}

/// The emission context: slug counters, open sections, and list
/// nesting depths.
#[derive(Debug, Clone)]
pub struct ToHtmlCtx {
    slugs: Vec<(String, usize)>,
    sections: Vec<String>,
    ord_list_depth: usize,
    unord_list_depth: usize,
}

impl View for ToHtmlCtx {
    type V = CtxModel;

    closed spec fn view(&self) -> CtxModel {
        CtxModel {
            slugs: slug_counters_view(self.slugs@),
            sections: self.sections.deep_view(),
            ord_list_depth: self.ord_list_depth as nat,
            unord_list_depth: self.unord_list_depth as nat,
        }
    }
}

impl ToHtmlCtx {
    /// How many ordered lists are open.
    pub fn ord_list_depth(&self) -> (r: usize)
        ensures
            r == self@.ord_list_depth,
    {
        self.ord_list_depth
    }

    /// How many unordered lists are open.
    pub fn unord_list_depth(&self) -> (r: usize)
        ensures
            r == self@.unord_list_depth,
    {
        self.unord_list_depth
    }

    /// How many sections are open.
    pub fn section_depth(&self) -> (r: usize)
        ensures
            r == self@.sections.len(),
    {
        self.sections.len()
    }

    /// Opens one ordered list, handing back the depth it nests at.
    pub fn enter_ord_list(&mut self) -> (r: usize)
        requires
            old(self)@.ord_list_depth < usize::MAX,
        ensures
            r == old(self)@.ord_list_depth,
            final(self)@.ord_list_depth == old(self)@.ord_list_depth + 1,
            final(self)@.unord_list_depth == old(self)@.unord_list_depth,
            final(self)@.slugs == old(self)@.slugs,
            final(self)@.sections == old(self)@.sections,
    {
        let depth = self.ord_list_depth;
        self.ord_list_depth = self.ord_list_depth + 1;
        depth
    }

    /// Opens one unordered list, handing back the depth it nests at.
    pub fn enter_unord_list(&mut self) -> (r: usize)
        requires
            old(self)@.unord_list_depth < usize::MAX,
        ensures
            r == old(self)@.unord_list_depth,
            final(self)@.unord_list_depth == old(self)@.unord_list_depth + 1,
            final(self)@.ord_list_depth == old(self)@.ord_list_depth,
            final(self)@.slugs == old(self)@.slugs,
            final(self)@.sections == old(self)@.sections,
    {
        let depth = self.unord_list_depth;
        self.unord_list_depth = self.unord_list_depth + 1;
        depth
    }

    /// Closes one ordered list; closing below none is ignored.
    pub fn leave_ord_list(&mut self)
        ensures
            final(self)@.ord_list_depth == if old(self)@.ord_list_depth > 0 {
                (old(self)@.ord_list_depth - 1) as nat
            } else {
                0
            },
            final(self)@.unord_list_depth == old(self)@.unord_list_depth,
            final(self)@.slugs == old(self)@.slugs,
            final(self)@.sections == old(self)@.sections,
    {
        if self.ord_list_depth > 0 {
            self.ord_list_depth = self.ord_list_depth - 1;
        }
    }

    /// Closes one unordered list; closing below none is ignored.
    pub fn leave_unord_list(&mut self)
        ensures
            final(self)@.unord_list_depth == if old(self)@.unord_list_depth > 0 {
                (old(self)@.unord_list_depth - 1) as nat
            } else {
                0
            },
            final(self)@.ord_list_depth == old(self)@.ord_list_depth,
            final(self)@.slugs == old(self)@.slugs,
            final(self)@.sections == old(self)@.sections,
    {
        if self.unord_list_depth > 0 {
            self.unord_list_depth = self.unord_list_depth - 1;
        }
    }

    /// Emits the `</div>` closings that bring the open sections down to
    /// heading depth `depth`.
    fn prepare_section_level(&mut self, new_depth: u8, buf: &mut String) -> (r: Result<
        (),
        ToHtmlError,
    >)
        ensures
            r is Ok,
            final(self)@.sections == prepared_sections(old(self)@.sections, new_depth as nat),
            final(buf)@ == old(buf)@ + close_divs(
                close_count(old(self)@.sections, new_depth as nat),
            ),
            final(self)@.slugs == old(self)@.slugs,
            final(self)@.ord_list_depth == old(self)@.ord_list_depth,
            final(self)@.unord_list_depth == old(self)@.unord_list_depth,
    {
        let depth = new_depth as usize;
        let len = self.sections.len();
        if len >= depth {
            let close_last = len - depth;
            let ghost ss0 = self@.sections;
            let ghost buf0 = buf@;
            let mut k: usize = 0;
            while k < close_last
                invariant
                    k <= close_last,
                    close_last == ss0.len() - depth,
                    depth <= ss0.len(),
                    ss0 == old(self)@.sections,
                    buf0 == old(buf)@,
                    self@.sections == ss0.take(ss0.len() - k),
                    buf@ == buf0 + close_divs(k as nat),
                    self@.slugs == old(self)@.slugs,
                    self@.ord_list_depth == old(self)@.ord_list_depth,
                    self@.unord_list_depth == old(self)@.unord_list_depth,
                decreases close_last - k,
            {
                let ghost secs = self@.sections;
                let _ = self.sections.pop();
                append_str(buf, "</div>");
                proof {
                    assert(secs.len() == ss0.len() - k > 0);
                    assert(self@.sections =~= secs.drop_last());
                    assert(ss0.take(ss0.len() - k).drop_last() =~= ss0.take(
                        ss0.len() - (k + 1),
                    ));
                    assert(buf0 + close_divs(k as nat) + "</div>"@ =~= buf0 + close_divs(
                        (k + 1) as nat,
                    )) by {
                        lemma_close_divs_snoc(k as nat);
                    }
                }
                k = k + 1;
            }
            let ghost secs = self@.sections;
            let _ = self.sections.pop();
            append_str(buf, "</div>");
            proof {
                if secs.len() > 0 {
                    assert(self@.sections =~= secs.drop_last());
                    assert(ss0.take(ss0.len() - close_last).drop_last() =~= ss0.take(
                        ss0.len() - (close_last + 1),
                    ));
                } else {
                    assert(depth == 0);
                    assert(self@.sections =~= secs);
                    assert(secs =~= ss0.take(0));
                }
                assert(buf0 + close_divs(close_last as nat) + "</div>"@ =~= buf0
                    + close_divs((close_last + 1) as nat)) by {
                    lemma_close_divs_snoc(close_last as nat);
                }
                assert(close_count(ss0, depth as nat) == close_last + 1);
                assert(self@.sections =~= prepared_sections(ss0, depth as nat));
            }
        } else {
            proof {
                assert(old(buf)@ + close_divs(0) =~= old(buf)@);
            }
        }
        Ok(())
    }

    /// The unique slug for the sections now open: their base, suffixed
    /// with a counter from the second occurrence of the same base on.
    fn make_slug(&mut self) -> (r: String)
        ensures
            final(self)@.slugs == bump_slugs(old(self)@.slugs, slug_base(old(self)@.sections)),
            final(self)@.sections == old(self)@.sections,
            final(self)@.ord_list_depth == old(self)@.ord_list_depth,
            final(self)@.unord_list_depth == old(self)@.unord_list_depth,
            r@ == ({
                let base = slug_base(old(self)@.sections);
                let c = count_after(old(self)@.slugs, base);
                if c > 1 {
                    base + seq!['-'] + dec_digits(c as nat)
                } else {
                    base
                }
            }),
    {
        let mut base = String::new();
        push_slug_base(&self.sections, 0, &mut base);
        proof {
            assert(Seq::<char>::empty() + slug_base(self@.sections) =~= slug_base(
                self@.sections,
            ));
            lemma_slug_index(self@.slugs, base@);
        }
        let ghost sl0 = self@.slugs;
        let mut j: usize = 0;
        let mut found: Option<usize> = None;
        while j < self.slugs.len() && found.is_none()
            invariant
                j <= self.slugs@.len(),
                sl0 == self@.slugs,
                sl0 == slug_counters_view(self.slugs@),
                match found {
                    None => forall|k: int| 0 <= k < j ==> sl0[k].0 != base@,
                    Some(i) => slug_index(sl0, base@) == Some(i as int),
                },
            decreases self.slugs@.len() - j,
        {
            proof {
                assert(sl0[j as int] == (self.slugs@[j as int].0@, self.slugs@[j as int].1));
            }
            if self.slugs[j].0 == base {
                found = Some(j);
                proof {
                    lemma_slug_index(sl0, base@);
                    match slug_index(sl0, base@) {
                        None => {
                            assert(false);
                        },
                        Some(i) => {
                            assert(!(i < j) && !(j < i));
                        },
                    }
                }
            }
            j = j + 1;
        }
        proof {
            lemma_slug_index(sl0, base@);
        }
        match found {
            Some(i) => {
                let c_old = self.slugs[i].1;
                let c = if c_old == usize::MAX {
                    c_old
                } else {
                    c_old + 1
                };
                let replaced = (base.clone(), c);
                self.slugs.set(i, replaced);
                proof {
                    assert(slug_counters_view(self.slugs@) =~= bump_slugs(sl0, base@));
                }
                if c > 1 {
                    let mut out = base;
                    push_char(&mut out, '-');
                    push_dec(c, &mut out);
                    proof {
                        let b = slug_base(old(self)@.sections);
                        assert(b.push('-') + dec_digits(c as nat) =~= b + seq!['-']
                            + dec_digits(c as nat));
                    }
                    out
                } else {
                    base
                }
            },
            None => {
                let entry = (base.clone(), 1usize);
                self.slugs.push(entry);
                proof {
                    assert(slug_counters_view(self.slugs@) =~= bump_slugs(sl0, base@));
                }
                base
            },
        }
    }

    /// Closes sections down to heading depth `depth`, opens a section
    /// with the given slug text, and hands back the unique slug of the
    /// sections then open.
    pub fn enter_section(&mut self, depth: u8, title_slug: String, buf: &mut String) -> (r:
        Result<String, ToHtmlError>)
        ensures
            ({
                let pref = prepared_sections(old(self)@.sections, depth as nat);
                let secs = pref.push(title_slug@);
                let base = slug_base(secs);
                &&& final(self)@.sections == secs
                &&& final(self)@.slugs == bump_slugs(old(self)@.slugs, base)
                &&& final(self)@.ord_list_depth == old(self)@.ord_list_depth
                &&& final(self)@.unord_list_depth == old(self)@.unord_list_depth
                &&& final(buf)@ == old(buf)@ + close_divs(
                    close_count(old(self)@.sections, depth as nat),
                )
                &&& r matches Ok(slug) && slug@ == ({
                    let c = count_after(old(self)@.slugs, base);
                    if c > 1 {
                        base + seq!['-'] + dec_digits(c as nat)
                    } else {
                        base
                    }
                })
            }),
    {
        match self.prepare_section_level(depth, buf) {
            Ok(()) => {},
            Err(e) => {
                return Err(e);
            },
        }
        self.sections.push(title_slug);
        proof {
            assert(self@.sections =~= prepared_sections(old(self)@.sections, depth as nat)
                .push(self.sections@.last()@));
        }
        Ok(self.make_slug())
    }

    /// Closes sections down to heading depth `depth`.
    pub fn leave_section(&mut self, depth: u8, buf: &mut String) -> (r: Result<
        (),
        ToHtmlError,
    >)
        ensures
            r is Ok,
            final(self)@.sections == prepared_sections(old(self)@.sections, depth as nat),
            final(buf)@ == old(buf)@ + close_divs(
                close_count(old(self)@.sections, depth as nat),
            ),
            final(self)@.slugs == old(self)@.slugs,
            final(self)@.ord_list_depth == old(self)@.ord_list_depth,
            final(self)@.unord_list_depth == old(self)@.unord_list_depth,
    {
        self.prepare_section_level(depth, buf)
    }
}

impl Default for ToHtmlCtx {
    /// A fresh context: no slugs handed out, no sections or lists open.
    fn default() -> (r: Self)
        ensures
            r@.slugs == Seq::<(Seq<char>, usize)>::empty(),
            r@.sections == Seq::<Seq<char>>::empty(),
            r@.ord_list_depth == 0,
            r@.unord_list_depth == 0,
    {
        let r = ToHtmlCtx {
            slugs: Vec::new(),
            sections: Vec::new(),
            ord_list_depth: 0,
            unord_list_depth: 0,
        };
        proof {
            assert(r@.slugs =~= Seq::<(Seq<char>, usize)>::empty());
            assert(r@.sections =~= Seq::<Seq<char>>::empty());
        }
        r
    }
}

/// One more closing appended at the end.
proof fn lemma_close_divs_snoc(n: nat)
    ensures
        close_divs(n) + "</div>"@ == close_divs(n + 1),
    decreases n,
{
    if n == 0 {
        assert(close_divs(0) + "</div>"@ =~= "</div>"@ + close_divs(0));
    } else {
        lemma_close_divs_snoc((n - 1) as nat);
        assert(("</div>"@ + close_divs((n - 1) as nat)) + "</div>"@ =~= "</div>"@ + (
        close_divs((n - 1) as nat) + "</div>"@));
    }
}

/// One character HTML-escaped: the six characters significant in HTML
/// become entities, everything else is kept.
pub open spec fn escape_char(c: char) -> Seq<char> {
    if c == '&' {
        "&amp;"@
    } else if c == '<' {
        "&lt;"@
    } else if c == '>' {
        "&gt;"@
    } else if c == '"' {
        "&quot;"@
    } else if c == '\'' {
        "&#x27;"@
    } else if c == '/' {
        "&#x2F;"@
    } else {
        seq![c]
    }
}

/// A character sequence HTML-escaped character by character.
pub open spec fn escape_seq(s: Seq<char>) -> Seq<char>
    decreases s.len(),
{
    if s.len() == 0 {
        Seq::empty()
    } else {
        escape_char(s[0]) + escape_seq(s.drop_first())
    }
}

/// Relies on tera::escape_html: each of `& < > " ' /` becomes its HTML
/// entity and every other character is copied through.
#[verifier::external_body]
fn escape_html(input: &str) -> (r: String)
    ensures
        r@ == escape_seq(input@),
{
    tera::escape_html(input)
}

/// Where the scanner stands inside a `{{ ... }}` template block.
#[derive(Debug, Clone, Copy, PartialEq, Eq, Structural)]
pub enum ExpandState {
    /// At block level, watching for the closing braces.
    BlockRoot,
    /// Inside a string literal, where closing braces do not count.
    StringLiteral,
    /// Right after a backslash inside a string literal.
    Escaping,
}

/// The position of the first `{{` at or after `p`, if any.
pub open spec fn find_open(v: Seq<char>, p: int) -> Option<int>
    decreases v.len() - p,
    when 0 <= p
{
    if p + 2 > v.len() {
        None
    } else if v[p] == '{' && v[p + 1] == '{' {
        Some(p)
    } else {
        find_open(v, p + 1)
    }
}

/// A found opening stands at or after the search start and leaves room
/// for its two braces.
proof fn lemma_find_open(v: Seq<char>, p: int)
    requires
        0 <= p,
    ensures
        match find_open(v, p) {
            Some(q) => p <= q && q + 2 <= v.len(),
            None => true,
        },
    decreases v.len() - p,
{
    if p + 2 <= v.len() && !(v[p] == '{' && v[p + 1] == '{') {
        lemma_find_open(v, p + 1);
    }
}

/// The position just past the `}}` that closes a block, scanning from
/// `i` in state `st`; `None` when the text ends first.
pub open spec fn scan_block(v: Seq<char>, i: int, st: ExpandState) -> Option<int>
    decreases v.len() - i,
    when 0 <= i
{
    if i >= v.len() {
        None
    } else {
        match st {
            ExpandState::BlockRoot => {
                if v[i] == '}' && i + 1 < v.len() && v[i + 1] == '}' {
                    Some(i + 2)
                } else if v[i] == '"' {
                    scan_block(v, i + 1, ExpandState::StringLiteral)
                } else {
                    scan_block(v, i + 1, ExpandState::BlockRoot)
                }
            },
            ExpandState::StringLiteral => {
                if v[i] == '"' {
                    scan_block(v, i + 1, ExpandState::BlockRoot)
                } else if v[i] == '\\' {
                    scan_block(v, i + 1, ExpandState::Escaping)
                } else {
                    scan_block(v, i + 1, ExpandState::StringLiteral)
                }
            },
            ExpandState::Escaping => scan_block(v, i + 1, ExpandState::StringLiteral),
        }
    }
}

/// A found block end lies past where scanning began and within the text.
proof fn lemma_scan_block(v: Seq<char>, i: int, st: ExpandState)
    requires
        0 <= i,
    ensures
        match scan_block(v, i, st) {
            Some(e) => i < e <= v.len(),
            None => true,
        },
    decreases v.len() - i,
{
    if i < v.len() {
        lemma_scan_block(v, i + 1, ExpandState::BlockRoot);
        lemma_scan_block(v, i + 1, ExpandState::StringLiteral);
        lemma_scan_block(v, i + 1, ExpandState::Escaping);
    }
}

/// What expanding a text from position `p` onto `acc` yields: prose up
/// to each `{{` escaped, each whole `{{ ... }}` block copied through
/// raw; an unclosed block stops expansion, handing back what was
/// emitted and the text from the block's position in the current slice.
pub open spec fn expand_text(v: Seq<char>, p: int, acc: Seq<char>) -> Result<
    Seq<char>,
    (Seq<char>, Seq<char>),
>
    decreases v.len() - p,
    when 0 <= p <= v.len()
    via expand_text_decreases
{
    match find_open(v, p) {
        None => Ok(acc + escape_seq(v.skip(p))),
        Some(q) => match scan_block(v, q + 2, ExpandState::BlockRoot) {
            None => Err((acc + escape_seq(v.subrange(p, q)), v.skip(p))),
            Some(e) => expand_text(v, e, acc + escape_seq(v.subrange(p, q)) + v.subrange(q, e)),
        },
    }
}

#[via_fn]
proof fn expand_text_decreases(v: Seq<char>, p: int, acc: Seq<char>) {
    if 0 <= p <= v.len() {
        lemma_find_open(v, p);
        match find_open(v, p) {
            None => {},
            Some(q) => {
                lemma_scan_block(v, q + 2, ExpandState::BlockRoot);
            },
        }
    }
}

/// Scans for the `}}` that closes a template block, starting at `start`
/// in the block-level state.
fn scan_block_exec(value: &str, start: usize) -> (r: Option<usize>)
    requires
        start <= value@.len(),
    ensures
        match scan_block(value@, start as int, ExpandState::BlockRoot) {
            Some(e) => r matches Some(x) && x == e && start < e <= value@.len(),
            None => r is None,
        },
{
    let ghost v = value@;
    let n = value.unicode_len();
    let mut i = start;
    let mut st = ExpandState::BlockRoot;
    proof {
        lemma_scan_block(v, start as int, ExpandState::BlockRoot);
    }
    while i < n
        invariant
            start <= i <= n,
            n == v.len(),
            v == value@,
            scan_block(v, start as int, ExpandState::BlockRoot) == scan_block(
                v,
                i as int,
                st,
            ),
        decreases n - i,
    {
        let ch = value.get_char(i);
        match st {
            ExpandState::BlockRoot => {
                if ch == '}' && n - i > 1 && value.get_char(i + 1) == '}' {
                    return Some(i + 2);
                } else if ch == '"' {
                    st = ExpandState::StringLiteral;
                }
            },
            ExpandState::StringLiteral => {
                if ch == '"' {
                    st = ExpandState::BlockRoot;
                } else if ch == '\\' {
                    st = ExpandState::Escaping;
                }
            },
            ExpandState::Escaping => {
                st = ExpandState::StringLiteral;
            },
        }
        i = i + 1;
    }
    None
}

/// Appends prose as escaped HTML while copying `{{ ... }}` template
/// blocks through untouched, so the template engine still sees them; a
/// block that is never closed stops expansion with the text from its
/// paragraph position on.
#[verifier::loop_isolation(false)]
pub fn text_to_html(value: &str, buf: &mut String) -> (r: Result<(), ToHtmlError>)
    ensures
        match expand_text(value@, 0, Seq::empty()) {
            Ok(o) => r is Ok && final(buf)@ == old(buf)@ + o,
            Err(pair) => final(buf)@ == old(buf)@ + pair.0 && (r matches Err(
                ToHtmlError::UnclosedBlock(m),
            ) && m@ == pair.1),
        },
{
    let ghost v = value@;
    let n = value.unicode_len();
    let mut p: usize = 0;
    let ghost mut acc: Seq<char> = Seq::empty();
    loop
        invariant
            p <= n,
            n == v.len(),
            buf@ == old(buf)@ + acc,
            expand_text(v, 0, Seq::empty()) == expand_text(v, p as int, acc),
        decreases n - p,
    {
        let mut q = p;
        while n - q > 1 && !(value.get_char(q) == '{' && value.get_char(q + 1) == '{')
            invariant
                p <= q <= n,
                find_open(v, p as int) == find_open(v, q as int),
            decreases n - q,
        {
            q = q + 1;
        }
        if n - q > 1 {
            assert(find_open(v, p as int) == Some(q as int));
            let prefix = escape_html(value.substring_char(p, q));
            append_str(buf, prefix.as_str());
            proof {
                acc = acc + escape_seq(v.subrange(p as int, q as int));
            }
            match scan_block_exec(value, q + 2) {
                Some(e) => {
                    let block = value.substring_char(q, e);
                    append_str(buf, block);
                    proof {
                        acc = acc + v.subrange(q as int, e as int);
                        assert((old(buf)@ + (acc)) =~= buf@);
                    }
                    p = e;
                },
                None => {
                    let rest = String::from_str(value.substring_char(p, n));
                    proof {
                        assert(v.subrange(p as int, n as int) =~= v.skip(p as int));
                    }
                    return Err(ToHtmlError::UnclosedBlock(rest));
                },
            }
        } else {
            assert(find_open(v, p as int) is None);
            let tail = escape_html(value.substring_char(p, n));
            append_str(buf, tail.as_str());
            proof {
                assert(v.subrange(p as int, n as int) =~= v.skip(p as int));
            }
            return Ok(());
        }
    }
}

} // verus!
