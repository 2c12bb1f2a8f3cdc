//! The symbol table: a bidirectional mapping between short ASCII codes and
//! single Unicode phonetic symbols, built from a fixed source list and
//! validated to be a bijection (no code and no symbol appears twice).

use vstd::prelude::*;

verus! {

use crate::utf8_len;

/// The two ways building the symbol table can fail: the same code or the
/// same symbol appearing twice in the source list.
#[derive(Debug, Clone, PartialEq, Eq)]
pub enum TableInitError {
    DuplicatedCode(String),
    DuplicatedChar(String),
}

/// Ghost mirror of [`TableInitError`] over character sequences.
pub enum TableInitErrorView {
    DuplicatedCode(Seq<char>),
    DuplicatedChar(Seq<char>),
}

impl View for TableInitError {
    type V = TableInitErrorView;

    open spec fn view(&self) -> TableInitErrorView {
        match self {
            TableInitError::DuplicatedCode(c) => TableInitErrorView::DuplicatedCode(c@),
            TableInitError::DuplicatedChar(s) => TableInitErrorView::DuplicatedChar(s@),
        }
    }
}

impl TableInitError {
    /// Human-readable description of the failure.
    pub fn describe(&self) -> (r: String)
        ensures
            self is DuplicatedCode ==> r@ == "duplicated character code in table"@,
            self is DuplicatedChar ==> r@ == "duplicated character in table"@,
    {
        match self {
            TableInitError::DuplicatedCode(_) => String::from_str("duplicated character code in table"),
            TableInitError::DuplicatedChar(_) => String::from_str("duplicated character in table"),
        }
    }
}

/// View of one owned `(code, symbol)` pair.
pub open spec fn pair_view(p: (String, String)) -> (Seq<char>, Seq<char>) {
    (p.0@, p.1@)
}

/// View of an owned pair list as a sequence of `(code, symbol)` pairs of
/// character sequences.
pub open spec fn pairs_view(v: Seq<(String, String)>) -> Seq<(Seq<char>, Seq<char>)> {
    v.map_values(|p: (String, String)| pair_view(p))
}

/// The symbol a code maps to: the first pair whose code matches, if any.
pub open spec fn lookup_code(t: Seq<(Seq<char>, Seq<char>)>, code: Seq<char>) -> Option<Seq<char>>
    decreases t.len(),
{
    if t.len() == 0 {
        None
    } else if t[0].0 == code {
        Some(t[0].1)
    } else {
        lookup_code(t.drop_first(), code)
    }
}

/// The code a symbol maps to: the first pair whose symbol matches, if any.
pub open spec fn lookup_symbol(t: Seq<(Seq<char>, Seq<char>)>, sym: Seq<char>) -> Option<Seq<char>>
    decreases t.len(),
{
    if t.len() == 0 {
        None
    } else if t[0].1 == sym {
        Some(t[0].0)
    } else {
        lookup_symbol(t.drop_first(), sym)
    }
}

/// Byte length of the longest code in the table.
pub open spec fn table_max_len(t: Seq<(Seq<char>, Seq<char>)>) -> nat
    decreases t.len(),
{
    if t.len() == 0 {
        0
    } else if utf8_len(t[0].0) > table_max_len(t.drop_first()) {
        utf8_len(t[0].0)
    } else {
        table_max_len(t.drop_first())
    }
}

/// No code occurs twice.
pub open spec fn distinct_codes(t: Seq<(Seq<char>, Seq<char>)>) -> bool {
    forall|i: int, j: int| 0 <= i < j < t.len() ==> t[i].0 != t[j].0
}

/// No symbol occurs twice.
pub open spec fn distinct_symbols(t: Seq<(Seq<char>, Seq<char>)>) -> bool {
    forall|i: int, j: int| 0 <= i < j < t.len() ==> t[i].1 != t[j].1
}

/// One validation pass over the source list, left to right: a pair whose
/// code is already present fails first on the code, then a pair whose
/// symbol is already present fails on the symbol; otherwise the pair is
/// appended to the accumulated table.
pub open spec fn build_pairs(
    src: Seq<(Seq<char>, Seq<char>)>,
    acc: Seq<(Seq<char>, Seq<char>)>,
) -> Result<Seq<(Seq<char>, Seq<char>)>, TableInitErrorView>
    decreases src.len(),
{
    if src.len() == 0 {
        Ok(acc)
    } else if lookup_code(acc, src[0].0) is Some {
        Err(TableInitErrorView::DuplicatedCode(src[0].0))
    } else if lookup_symbol(acc, src[0].1) is Some {
        Err(TableInitErrorView::DuplicatedChar(src[0].1))
    } else {
        build_pairs(src.drop_first(), acc.push(src[0]))
    }
}

/// What validating a whole source list yields: the list itself when it is
/// a bijection, the first duplicate otherwise.
pub open spec fn build_table(
    src: Seq<(Seq<char>, Seq<char>)>,
) -> Result<Seq<(Seq<char>, Seq<char>)>, TableInitErrorView> {
    build_pairs(src, Seq::empty())
}

/// A code is absent exactly when no pair carries it.
proof fn lemma_lookup_code_none(t: Seq<(Seq<char>, Seq<char>)>, code: Seq<char>)
    ensures
        lookup_code(t, code) is None <==> forall|k: int| 0 <= k < t.len() ==> t[k].0 != code,
    decreases t.len(),
{
    if t.len() > 0 {
        lemma_lookup_code_none(t.drop_first(), code);
        assert(forall|k: int| 1 <= k < t.len() ==> t[k] == t.drop_first()[k - 1]);
    }
}

/// A symbol is absent exactly when no pair carries it.
proof fn lemma_lookup_symbol_none(t: Seq<(Seq<char>, Seq<char>)>, sym: Seq<char>)
    ensures
        lookup_symbol(t, sym) is None <==> forall|k: int| 0 <= k < t.len() ==> t[k].1 != sym,
    decreases t.len(),
{
    if t.len() > 0 {
        lemma_lookup_symbol_none(t.drop_first(), sym);
        assert(forall|k: int| 1 <= k < t.len() ==> t[k] == t.drop_first()[k - 1]);
    }
}

/// Validation from a duplicate-free accumulator succeeds only by
/// appending the whole source, still duplicate-free.
proof fn lemma_build_pairs_ok(src: Seq<(Seq<char>, Seq<char>)>, acc: Seq<(Seq<char>, Seq<char>)>)
    requires
        distinct_codes(acc),
        distinct_symbols(acc),
    ensures
        build_pairs(src, acc) matches Ok(t) ==> t == acc + src && distinct_codes(acc + src)
            && distinct_symbols(acc + src),
    decreases src.len(),
{
    if src.len() == 0 {
        assert(acc + src =~= acc);
    } else if lookup_code(acc, src[0].0) is None && lookup_symbol(acc, src[0].1) is None {
        lemma_lookup_code_none(acc, src[0].0);
        lemma_lookup_symbol_none(acc, src[0].1);
        let acc2 = acc.push(src[0]);
        assert(distinct_codes(acc2)) by {
            assert(forall|i: int| 0 <= i < acc.len() ==> acc2[i] == acc[i]);
        }
        assert(distinct_symbols(acc2)) by {
            assert(forall|i: int| 0 <= i < acc.len() ==> acc2[i] == acc[i]);
        }
        lemma_build_pairs_ok(src.drop_first(), acc2);
        assert(acc2 + src.drop_first() =~= acc + src);
    }
}

/// A source list that validates is kept as it is, and holds no duplicate
/// code and no duplicate symbol.
pub proof fn lemma_build_table_ok(src: Seq<(Seq<char>, Seq<char>)>)
    ensures
        build_table(src) matches Ok(t) ==> t == src && distinct_codes(src) && distinct_symbols(
            src,
        ),
{
    lemma_build_pairs_ok(src, Seq::empty());
    assert(Seq::empty() + src =~= src);
}

/// In a table without duplicate codes, every pair is found by looking
/// its code up.
pub proof fn lemma_lookup_of_entry(t: Seq<(Seq<char>, Seq<char>)>, k: int)
    requires
        distinct_codes(t),
        0 <= k < t.len(),
    ensures
        lookup_code(t, t[k].0) == Some(t[k].1),
    decreases t.len(),
{
    if k > 0 {
        assert(t[0].0 != t[k].0);
        lemma_lookup_of_entry(t.drop_first(), k - 1);
        assert(t.drop_first()[k - 1] == t[k]);
        assert(forall|i: int, j: int|
            0 <= i < j < t.drop_first().len() ==> t.drop_first()[i] == t[i + 1]
                && t.drop_first()[j] == t[j + 1]);
    }
}


/// Validating past a duplicate-free prefix is validating the remainder
/// from that prefix.
proof fn lemma_build_pairs_prefix(src: Seq<(Seq<char>, Seq<char>)>, k: int)
    requires
        0 <= k <= src.len(),
        distinct_codes(src.take(k)),
        distinct_symbols(src.take(k)),
    ensures
        build_table(src) == build_pairs(src.skip(k), src.take(k)),
    decreases k,
{
    if k == 0 {
        assert(src.skip(0) =~= src);
        assert(src.take(0) =~= Seq::empty());
    } else {
        assert(forall|i: int| 0 <= i < k ==> src.take(k)[i] == src[i]);
        assert(forall|i: int| 0 <= i < k - 1 ==> src.take(k - 1)[i] == src[i]);
        assert(distinct_codes(src.take(k - 1)));
        assert(distinct_symbols(src.take(k - 1)));
        lemma_build_pairs_prefix(src, k - 1);
        assert(src.skip(k - 1)[0] == src[k - 1]);
        lemma_lookup_code_none(src.take(k - 1), src[k - 1].0);
        lemma_lookup_symbol_none(src.take(k - 1), src[k - 1].1);
        assert(forall|i: int|
            0 <= i < k - 1 ==> (#[trigger] src.take(k - 1)[i]).0 != src[k - 1].0);
        assert(forall|i: int|
            0 <= i < k - 1 ==> (#[trigger] src.take(k - 1)[i]).1 != src[k - 1].1);
        assert(src.skip(k - 1).drop_first() =~= src.skip(k));
        assert(src.take(k - 1).push(src[k - 1]) =~= src.take(k));
    }
}

/// The first pair whose code already occurred decides the failure: when
/// codes and symbols are both duplicate-free before position `j`, and
/// the code at `j` occurred earlier, construction fails with exactly
/// that code — independent of the symbols involved.
pub proof fn lemma_build_first_duplicate_code(src: Seq<(Seq<char>, Seq<char>)>, j: int)
    requires
        0 <= j < src.len(),
        distinct_codes(src.take(j)),
        distinct_symbols(src.take(j)),
        exists|i: int| 0 <= i < j && src[i].0 == src[j].0,
    ensures
        build_table(src) == Err::<Seq<(Seq<char>, Seq<char>)>, TableInitErrorView>(
            TableInitErrorView::DuplicatedCode(src[j].0),
        ),
{
    lemma_build_pairs_prefix(src, j);
    assert(src.skip(j)[0] == src[j]);
    let i = choose|i: int| 0 <= i < j && src[i].0 == src[j].0;
    assert(src.take(j)[i] == src[i]);
    lemma_lookup_code_none(src.take(j), src[j].0);
    assert(lookup_code(src.take(j), src[j].0) is Some);
}

/// The first pair whose symbol already occurred decides the failure: when
/// codes are duplicate-free up to and including position `j` and symbols
/// are duplicate-free before it, a symbol at `j` that occurred earlier
/// fails construction with exactly that symbol.
pub proof fn lemma_build_first_duplicate_symbol(src: Seq<(Seq<char>, Seq<char>)>, j: int)
    requires
        0 <= j < src.len(),
        distinct_codes(src.take(j + 1)),
        distinct_symbols(src.take(j)),
        exists|i: int| 0 <= i < j && src[i].1 == src[j].1,
    ensures
        build_table(src) == Err::<Seq<(Seq<char>, Seq<char>)>, TableInitErrorView>(
            TableInitErrorView::DuplicatedChar(src[j].1),
        ),
{
    assert(forall|i: int| 0 <= i < j + 1 ==> src.take(j + 1)[i] == src[i]);
    assert(forall|i: int| 0 <= i < j ==> src.take(j)[i] == src[i]);
    assert(distinct_codes(src.take(j)));
    lemma_build_pairs_prefix(src, j);
    assert(src.skip(j)[0] == src[j]);
    lemma_lookup_code_none(src.take(j), src[j].0);
    assert(forall|i: int| 0 <= i < j ==> (#[trigger] src.take(j)[i]).0 != src[j].0) by {
        assert(forall|i: int|
            0 <= i < j ==> (#[trigger] src.take(j + 1)[i]).0 != src.take(j + 1)[j].0);
    }
    let i = choose|i: int| 0 <= i < j && src[i].1 == src[j].1;
    assert(src.take(j)[i] == src[i]);
    lemma_lookup_symbol_none(src.take(j), src[j].1);
    assert(lookup_symbol(src.take(j), src[j].1) is Some);
}

/// Table construction fails whenever some code repeats in the source.
pub proof fn lemma_build_table_duplicate_code(src: Seq<(Seq<char>, Seq<char>)>)
    requires
        !distinct_codes(src),
    ensures
        build_table(src) is Err,
{
    lemma_build_table_ok(src);
}

/// Table construction fails whenever some symbol repeats in the source.
pub proof fn lemma_build_table_duplicate_symbol(src: Seq<(Seq<char>, Seq<char>)>)
    requires
        !distinct_symbols(src),
    ensures
        build_table(src) is Err,
{
    lemma_build_table_ok(src);
}

/// Appending a pair extends the maximum code length pointwise.
proof fn lemma_table_max_len_push(t: Seq<(Seq<char>, Seq<char>)>, p: (Seq<char>, Seq<char>))
    ensures
        table_max_len(t.push(p)) == if utf8_len(p.0) > table_max_len(t) {
            utf8_len(p.0)
        } else {
            table_max_len(t)
        },
    decreases t.len(),
{
    if t.len() == 0 {
        assert(t.push(p)[0] == p);
        assert(t.push(p).drop_first() =~= Seq::empty());
        assert(table_max_len(t.push(p).drop_first()) == 0);
    } else {
        assert(t.push(p)[0] == t[0]);
        assert(t.push(p).drop_first() =~= t.drop_first().push(p));
        lemma_table_max_len_push(t.drop_first(), p);
    }
}

/// The bidirectional code/symbol table with its lookahead bound.
#[derive(Debug)]
pub struct Table {
    entries: Vec<(String, String)>,
    max_code_len: usize,
}

impl View for Table {
    type V = Seq<(Seq<char>, Seq<char>)>;

    closed spec fn view(&self) -> Seq<(Seq<char>, Seq<char>)> {
        pairs_view(self.entries@)
    }
}

impl Table {
    /// Every table is a validated bijection with a correct lookahead bound.
    #[verifier::type_invariant]
    spec fn wf(self) -> bool {
        &&& self.max_code_len == table_max_len(self@)
        &&& distinct_codes(self@)
        &&& distinct_symbols(self@)
    }

    /// Byte length of the longest code: the bound on lookahead buffering
    /// during encoding.
    pub fn max_code_len(&self) -> (r: usize)
        ensures
            r == table_max_len(self@),
    {
        proof {
            use_type_invariant(self);
        }
        self.max_code_len
    }

    /// The symbol for `input`, by exact, case-sensitive match; `None` when
    /// the code is not in the table.
    pub fn code_to_char(&self, input: &str) -> (r: Option<String>)
        ensures
            match lookup_code(self@, input@) {
                Some(s) => r matches Some(v) && v@ == s,
                None => r is None,
            },
    {
        let key = String::from_str(input);
        find_code(&self.entries, &key)
    }

    /// The code for `input`, by exact match on the symbol; `None` when the
    /// symbol is not in the table.
    pub fn char_to_code(&self, input: &str) -> (r: Option<String>)
        ensures
            match lookup_symbol(self@, input@) {
                Some(c) => r matches Some(v) && v@ == c,
                None => r is None,
            },
    {
        let key = String::from_str(input);
        find_symbol(&self.entries, &key)
    }

    /// Validates an arbitrary `(code, symbol)` list into a table, failing
    /// on the first duplicated code or symbol.
    pub fn from_pairs(pairs: Vec<(String, String)>) -> (r: Result<Table, TableInitError>)
        ensures
            match build_table(pairs_view(pairs@)) {
                Ok(t) => r matches Ok(table) && table@ == t,
                Err(e) => r matches Err(actual) && actual@ == e,
            },
    {
        let ghost src = pairs_view(pairs@);
        let mut entries: Vec<(String, String)> = Vec::new();
        let mut max_code_len: usize = 0;
        let mut i: usize = 0;
        proof {
            assert(src.skip(0) =~= src);
            assert(pairs_view(entries@) =~= Seq::empty());
        }
        while i < pairs.len()
            invariant
                i <= pairs@.len(),
                src == pairs_view(pairs@),
                pairs_view(entries@).len() == i,
                build_pairs(src, Seq::empty()) == build_pairs(src.skip(i as int), pairs_view(entries@)),
                max_code_len == table_max_len(pairs_view(entries@)),
                distinct_codes(pairs_view(entries@)),
                distinct_symbols(pairs_view(entries@)),
            decreases pairs@.len() - i,
        {
            let ghost acc = pairs_view(entries@);
            let ghost rest = src.skip(i as int);
            proof {
                assert(rest[0] == src[i as int]);
                assert(rest.drop_first() =~= src.skip(i as int + 1));
            }
            let code = pairs[i].0.clone();
            let symbol = pairs[i].1.clone();
            assert(code@ == src[i as int].0 && symbol@ == src[i as int].1);
            let code_len = crate::str_byte_len(code.as_str());
            if code_len > max_code_len {
                max_code_len = code_len;
            }
            if find_code(&entries, &code).is_some() {
                return Err(TableInitError::DuplicatedCode(code));
            }
            if find_symbol(&entries, &symbol).is_some() {
                return Err(TableInitError::DuplicatedChar(symbol));
            }
            proof {
                lemma_lookup_code_none(acc, code@);
                lemma_lookup_symbol_none(acc, symbol@);
                lemma_table_max_len_push(acc, (code@, symbol@));
            }
            entries.push((code, symbol));
            proof {
                assert(pairs_view(entries@) =~= acc.push((code@, symbol@)));
            }
            i = i + 1;
        }
        proof {
            assert(src.skip(i as int) =~= Seq::empty());
        }
        Ok(Table { entries, max_code_len })
    }

    /// Builds the canonical table from the fixed source list, validating
    /// it as a bijection.
    pub fn load() -> (r: Result<Table, TableInitError>)
        ensures
            match build_table(crate::raw::raw_table_spec()) {
                Ok(t) => r matches Ok(table) && table@ == t,
                Err(e) => r matches Err(actual) && actual@ == e,
            },
    {
        Table::from_pairs(crate::raw::raw_pairs())
    }
}

/// Linear scan for a code among the accumulated pairs.
fn find_code(entries: &Vec<(String, String)>, code: &String) -> (r: Option<String>)
    ensures
        match lookup_code(pairs_view(entries@), code@) {
            Some(s) => r matches Some(v) && v@ == s,
            None => r is None,
        },
{
    let ghost t = pairs_view(entries@);
    let mut j: usize = 0;
    proof {
        assert(t.skip(0) =~= t);
    }
    while j < entries.len()
        invariant
            j <= entries@.len(),
            t == pairs_view(entries@),
            lookup_code(t, code@) == lookup_code(t.skip(j as int), code@),
        decreases entries@.len() - j,
    {
        proof {
            assert(t.skip(j as int)[0] == t[j as int]);
            assert(t.skip(j as int).drop_first() =~= t.skip(j as int + 1));
        }
        if entries[j].0 == *code {
            return Some(entries[j].1.clone());
        }
        j = j + 1;
    }
    proof {
        assert(t.skip(j as int) =~= Seq::empty());
    }
    None
}

/// Linear scan for a symbol among the accumulated pairs.
fn find_symbol(entries: &Vec<(String, String)>, sym: &String) -> (r: Option<String>)
    ensures
        match lookup_symbol(pairs_view(entries@), sym@) {
            Some(c) => r matches Some(v) && v@ == c,
            None => r is None,
        },
{
    let ghost t = pairs_view(entries@);
    let mut j: usize = 0;
    proof {
        assert(t.skip(0) =~= t);
    }
    while j < entries.len()
        invariant
            j <= entries@.len(),
            t == pairs_view(entries@),
            lookup_symbol(t, sym@) == lookup_symbol(t.skip(j as int), sym@),
        decreases entries@.len() - j,
    {
        proof {
            assert(t.skip(j as int)[0] == t[j as int]);
            assert(t.skip(j as int).drop_first() =~= t.skip(j as int + 1));
        }
        if entries[j].1 == *sym {
            return Some(entries[j].0.clone());
        }
        j = j + 1;
    }
    proof {
        assert(t.skip(j as int) =~= Seq::empty());
    }
    None
}

} // verus!
