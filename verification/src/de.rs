//! The decoder: the inverse direction. Each grapheme cluster of the input
//! is either replaced by its ASCII code from the symbol table or passed
//! through unchanged when the table does not know it.

use unicode_segmentation::UnicodeSegmentation;
use vstd::prelude::*;

verus! {

use crate::append_str;
use crate::table::{build_table, lookup_symbol, Table, TableInitError, TableInitErrorView};

/// The only way decoding can fail: a table that failed to build.
#[derive(Debug, PartialEq, Eq)]
pub enum DecodingError {
    TableInit(TableInitError),
}

/// Ghost mirror of [`DecodingError`].
pub enum DecodingErrorView {
    TableInit(TableInitErrorView),
}

impl View for DecodingError {
    type V = DecodingErrorView;

    open spec fn view(&self) -> DecodingErrorView {
        match self {
            DecodingError::TableInit(e) => DecodingErrorView::TableInit(e@),
        }
    }
}

/// What one grapheme decodes to against table `t`: its code when the
/// table knows the grapheme as a symbol, the grapheme itself otherwise.
pub open spec fn decode_grapheme(t: Seq<(Seq<char>, Seq<char>)>, g: Seq<char>) -> Seq<char> {
    match lookup_symbol(t, g) {
        Some(code) => code,
        None => g,
    }
}

/// What a sequence of graphemes decodes to: each grapheme's decoding, in
/// order.
pub open spec fn decode_run(t: Seq<(Seq<char>, Seq<char>)>, gs: Seq<Seq<char>>) -> Seq<char>
    decreases gs.len(),
{
    if gs.len() == 0 {
        Seq::empty()
    } else {
        decode_grapheme(t, gs[0]) + decode_run(t, gs.drop_first())
    }
}

/// The extended grapheme clusters of a character sequence, in order.
pub uninterp spec fn graphemes_of(s: Seq<char>) -> Seq<Seq<char>>;

/// Relies on unicode_segmentation's `UnicodeSegmentation::graphemes` with
/// extended clusters: the returned pieces are consecutive substrings of
/// the input and concatenate back to exactly the input.
#[verifier::external_body]
fn split_graphemes(s: &str) -> (r: Vec<String>)
    ensures
        r.deep_view() == graphemes_of(s@),
        r.deep_view().flatten() == s@,
        s@.len() == 0 ==> r@.len() == 0,
{
    s.graphemes(true).map(|g| g.to_owned()).collect()
}

/// The grapheme-by-grapheme decoder, bound to an owned output string.
#[derive(Debug)]
pub struct Decoder {
    table: Table,
    target: String,
}

impl View for Decoder {
    type V = Seq<char>;

    closed spec fn view(&self) -> Seq<char> {
        self.target@
    }
}

impl Decoder {
    /// The table this decoder resolves symbols against.
    pub closed spec fn table_spec(&self) -> Seq<(Seq<char>, Seq<char>)> {
        self.table@
    }

    /// Binds a freshly built symbol table to the given output sink; fails
    /// when the table fails to build.
    pub fn new(target: String) -> (r: Result<Decoder, DecodingError>)
        ensures
            match build_table(crate::raw::raw_table_spec()) {
                Ok(t) => r matches Ok(dec) && dec.table_spec() == t && dec@ == target@,
                Err(e) => r matches Err(err) && err@ == DecodingErrorView::TableInit(e),
            },
    {
        match Table::load() {
            Ok(table) => Ok(Decoder { table, target }),
            Err(e) => Err(DecodingError::TableInit(e)),
        }
    }

    /// Emits the code for one grapheme, or the grapheme itself when the
    /// table does not know it.
    pub fn push(&mut self, grapheme: &str) -> (r: Result<(), DecodingError>)
        ensures
            r is Ok,
            final(self).table_spec() == old(self).table_spec(),
            final(self)@ == old(self)@ + decode_grapheme(old(self).table_spec(), grapheme@),
    {
        match self.table.char_to_code(grapheme) {
            Some(code) => append_str(&mut self.target, code.as_str()),
            None => append_str(&mut self.target, grapheme),
        }
        Ok(())
    }

    /// Splits the input into extended grapheme clusters and pushes each in
    /// order.
    #[verifier::loop_isolation(false)]
    pub fn push_str(&mut self, content: &str) -> (r: Result<(), DecodingError>)
        ensures
            r is Ok,
            final(self).table_spec() == old(self).table_spec(),
            final(self)@ == old(self)@ + decode_run(
                old(self).table_spec(),
                graphemes_of(content@),
            ),
    {
        let ghost t = self.table_spec();
        let ghost out0 = self@;
        let graphemes = split_graphemes(content);
        let ghost gs = graphemes.deep_view();
        let mut i: usize = 0;
        proof {
            assert(gs.skip(0) =~= gs);
        }
        while i < graphemes.len()
            invariant
                i <= graphemes@.len(),
                self.table_spec() == t,
                out0 + decode_run(t, gs) == self@ + decode_run(t, gs.skip(i as int)),
            decreases graphemes@.len() - i,
        {
            proof {
                assert(gs.skip(i as int)[0] == gs[i as int]);
                assert(gs.skip(i as int).drop_first() =~= gs.skip(i as int + 1));
                assert(gs[i as int] == graphemes@[i as int]@);
            }
            let ghost pre = self@;
            match self.push(graphemes[i].as_str()) {
                Ok(()) => {},
                Err(e) => {
                    return Err(e);
                },
            }
            proof {
                assert(pre + (decode_grapheme(t, gs[i as int]) + decode_run(
                    t,
                    gs.skip(i as int + 1),
                )) =~= self@ + decode_run(t, gs.skip(i as int + 1)));
            }
            i = i + 1;
        }
        proof {
            assert(gs.skip(i as int) =~= Seq::empty());
            assert(out0 + decode_run(t, gs) =~= self@);
        }
        Ok(())
    }

    /// Consumes the decoder and hands back its output sink.
    pub fn into_target(self) -> (r: String)
        ensures
            r@ == self@,
    {
        self.target
    }
}

} // verus!
