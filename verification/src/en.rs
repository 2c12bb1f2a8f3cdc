//! The encoder: a push-based state machine that copies ordinary characters
//! through to its output, resolves `{code}` blocks against the symbol
//! table, and treats `{{` and `}}` as escapes for literal braces.

use vstd::prelude::*;

verus! {

use crate::char_utf8_len;
use crate::push_char;
use crate::utf8_len;
use crate::table::{
    build_table, lookup_code, table_max_len, Table, TableInitError, TableInitErrorView,
};

/// The ways encoding can fail, besides a table that failed to build.
#[derive(Debug, PartialEq, Eq)]
pub enum EncodingError {
    /// The symbol table could not be built.
    TableInit(TableInitError),
    /// Input ended while a code block was still open.
    UnmatchedOpen,
    /// A stray `}` that escapes no literal brace.
    UnmatchedClose,
    /// An accumulated code grew past the longest code in the table.
    CodeTooBig(String),
    /// A well-formed `{...}` block naming no code in the table.
    UnknownCode(String),
}

/// Ghost mirror of [`EncodingError`] over character sequences.
pub enum EncodingErrorView {
    TableInit(TableInitErrorView),
    UnmatchedOpen,
    UnmatchedClose,
    CodeTooBig(Seq<char>),
    UnknownCode(Seq<char>),
}

impl View for EncodingError {
    type V = EncodingErrorView;

    open spec fn view(&self) -> EncodingErrorView {
        match self {
            EncodingError::TableInit(e) => EncodingErrorView::TableInit(e@),
            EncodingError::UnmatchedOpen => EncodingErrorView::UnmatchedOpen,
            EncodingError::UnmatchedClose => EncodingErrorView::UnmatchedClose,
            EncodingError::CodeTooBig(c) => EncodingErrorView::CodeTooBig(c@),
            EncodingError::UnknownCode(c) => EncodingErrorView::UnknownCode(c@),
        }
    }
}

/// The scanner's three states: copying input through, accumulating a code
/// after `{`, and checking for a literal `}}` escape after `}`.
#[derive(Debug, Clone, Copy, PartialEq, Eq, Structural)]
pub enum EncoderState {
    Default,
    Opening,
    Closing,
}

impl Default for EncoderState {
    fn default() -> (r: Self)
        ensures
            r == EncoderState::Default,
    {
        EncoderState::Default
    }
}

/// Ghost snapshot of an encoder: its state, its accumulated code
/// characters, and everything written to its output so far.
pub struct EncoderModel {
    pub state: EncoderState,
    pub buf: Seq<char>,
    pub out: Seq<char>,
}

/// One transition of the scanner on one input character, against table
/// `t`: either the successor snapshot or the error that stops it.
pub open spec fn encode_step(
    t: Seq<(Seq<char>, Seq<char>)>,
    m: EncoderModel,
    ch: char,
) -> Result<EncoderModel, EncodingErrorView> {
    match m.state {
        EncoderState::Default => {
            if ch == '{' {
                Ok(EncoderModel { state: EncoderState::Opening, ..m })
            } else if ch == '}' {
                Ok(EncoderModel { state: EncoderState::Closing, ..m })
            } else {
                Ok(EncoderModel { out: m.out.push(ch), ..m })
            }
        },
        EncoderState::Opening => {
            if m.buf.len() == 0 && ch == '{' {
                Ok(EncoderModel { state: EncoderState::Default, out: m.out.push('{'), ..m })
            } else if ch == '}' {
                match lookup_code(t, m.buf) {
                    Some(sym) => Ok(
                        EncoderModel {
                            state: EncoderState::Default,
                            buf: Seq::empty(),
                            out: m.out + sym,
                        },
                    ),
                    None => Err(EncodingErrorView::UnknownCode(m.buf)),
                }
            } else if utf8_len(m.buf) + char_utf8_len(ch) > table_max_len(t) {
                Err(EncodingErrorView::CodeTooBig(m.buf.push(ch)))
            } else {
                Ok(EncoderModel { buf: m.buf.push(ch), ..m })
            }
        },
        EncoderState::Closing => {
            if m.buf.len() == 0 && ch == '}' {
                Ok(EncoderModel { state: EncoderState::Default, out: m.out.push('}'), ..m })
            } else {
                Err(EncodingErrorView::UnmatchedClose)
            }
        },
    }
}

/// Running the scanner over a whole character sequence: the snapshot after
/// the longest prefix that steps without error, and the error that stopped
/// it, if any.
pub open spec fn encode_run(
    t: Seq<(Seq<char>, Seq<char>)>,
    m: EncoderModel,
    s: Seq<char>,
) -> (EncoderModel, Option<EncodingErrorView>)
    decreases s.len(),
{
    if s.len() == 0 {
        (m, None)
    } else {
        match encode_step(t, m, s[0]) {
            Ok(m2) => encode_run(t, m2, s.drop_first()),
            Err(e) => (m, Some(e)),
        }
    }
}

/// What completing the stream in snapshot `m` yields: an error for a code
/// block left open or a pending `}`.
pub open spec fn finish_state(m: EncoderModel) -> Option<EncodingErrorView> {
    match m.state {
        EncoderState::Default => None,
        EncoderState::Opening => Some(EncodingErrorView::UnmatchedOpen),
        EncoderState::Closing => Some(EncodingErrorView::UnmatchedClose),
    }
}

/// A fresh snapshot over output `out`.
pub open spec fn initial_model(out: Seq<char>) -> EncoderModel {
    EncoderModel { state: EncoderState::Default, buf: Seq::empty(), out }
}

/// Encoding a whole stream from scratch against table `t`: the output on
/// success, the first error otherwise.
pub open spec fn encode_full(
    t: Seq<(Seq<char>, Seq<char>)>,
    s: Seq<char>,
) -> Result<Seq<char>, EncodingErrorView> {
    let r = encode_run(t, initial_model(Seq::empty()), s);
    match r.1 {
        Some(e) => Err(e),
        None => match finish_state(r.0) {
            Some(e) => Err(e),
            None => Ok(r.0.out),
        },
    }
}

/// The push-based encoder, bound to an owned output string.
#[derive(Debug)]
pub struct Encoder {
    table: Table,
    buf: String,
    state: EncoderState,
    target: String,
}

impl View for Encoder {
    type V = EncoderModel;

    closed spec fn view(&self) -> EncoderModel {
        EncoderModel { state: self.state, buf: self.buf@, out: self.target@ }
    }
}

impl Encoder {
    /// The table this encoder resolves codes against.
    pub closed spec fn table_spec(&self) -> Seq<(Seq<char>, Seq<char>)> {
        self.table@
    }

    /// Binds a freshly built symbol table and an empty scanner to the
    /// given output sink; fails when the table fails to build.
    pub fn new(target: String) -> (r: Result<Encoder, EncodingError>)
        ensures
            match build_table(crate::raw::raw_table_spec()) {
                Ok(t) => r matches Ok(enc) && enc.table_spec() == t && enc@ == initial_model(
                    target@,
                ),
                Err(e) => r matches Err(err) && err@ == EncodingErrorView::TableInit(e),
            },
    {
        match Table::load() {
            Ok(table) => Ok(
                Encoder { table, buf: String::new(), state: EncoderState::Default, target },
            ),
            Err(e) => Err(EncodingError::TableInit(e)),
        }
    }

    /// Feeds one character through the scanner; on an error the encoder is
    /// left exactly as it was.
    pub fn push(&mut self, ch: char) -> (r: Result<(), EncodingError>)
        ensures
            final(self).table_spec() == old(self).table_spec(),
            match encode_step(old(self).table_spec(), old(self)@, ch) {
                Ok(m) => r is Ok && final(self)@ == m,
                Err(e) => r matches Err(err) && err@ == e && final(self)@ == old(self)@,
            },
    {
        match self.state {
            EncoderState::Default => {
                if ch == '{' {
                    self.state = EncoderState::Opening;
                } else if ch == '}' {
                    self.state = EncoderState::Closing;
                } else {
                    push_char(&mut self.target, ch);
                }
                Ok(())
            },
            EncoderState::Opening => {
                if self.buf.as_str().is_empty() && ch == '{' {
                    push_char(&mut self.target, ch);
                    self.state = EncoderState::Default;
                    Ok(())
                } else if ch == '}' {
                    match self.table.code_to_char(self.buf.as_str()) {
                        Some(encoded) => {
                            crate::append_str(&mut self.target, encoded.as_str());
                            self.buf = String::new();
                            self.state = EncoderState::Default;
                            Ok(())
                        },
                        None => Err(EncodingError::UnknownCode(self.buf.clone())),
                    }
                } else {
                    let buf_len = crate::str_byte_len(self.buf.as_str());
                    let ch_len = crate::char_len_utf8(ch);
                    let max_len = self.table.max_code_len();
                    if buf_len > max_len || ch_len > max_len - buf_len {
                        let mut code = self.buf.clone();
                        push_char(&mut code, ch);
                        Err(EncodingError::CodeTooBig(code))
                    } else {
                        push_char(&mut self.buf, ch);
                        Ok(())
                    }
                }
            },
            EncoderState::Closing => {
                if self.buf.as_str().is_empty() && ch == '}' {
                    push_char(&mut self.target, ch);
                    self.state = EncoderState::Default;
                    Ok(())
                } else {
                    Err(EncodingError::UnmatchedClose)
                }
            },
        }
    }

    /// Feeds a string's characters through [`Encoder::push`] in order,
    /// stopping at the first failure and leaving the encoder at the point
    /// the failure was found.
    #[verifier::loop_isolation(false)]
    pub fn push_str(&mut self, content: &str) -> (r: Result<(), EncodingError>)
        ensures
            final(self).table_spec() == old(self).table_spec(),
            ({
                let run = encode_run(old(self).table_spec(), old(self)@, content@);
                final(self)@ == run.0 && match run.1 {
                    None => r is Ok,
                    Some(e) => r matches Err(err) && err@ == e,
                }
            }),
    {
        let ghost t = self.table_spec();
        let ghost m0 = self@;
        let ghost full = content@;
        let n = content.unicode_len();
        let mut i: usize = 0;
        proof {
            assert(full.skip(0) =~= full);
        }
        while i < n
            invariant
                i <= n,
                n == full.len(),
                self.table_spec() == t,
                encode_run(t, m0, full) == encode_run(t, self@, full.skip(i as int)),
            decreases n - i,
        {
            let ch = content.get_char(i);
            proof {
                assert(full.skip(i as int)[0] == full[i as int]);
                assert(full.skip(i as int).drop_first() =~= full.skip(i as int + 1));
            }
            match self.push(ch) {
                Ok(()) => {},
                Err(e) => {
                    return Err(e);
                },
            }
            i = i + 1;
        }
        proof {
            assert(full.skip(n as int) =~= Seq::empty());
        }
        Ok(())
    }

    /// Lets a value render itself into this encoder under the given
    /// format; what is written is up to the value's [`Encode`] impl.
    pub fn encode<T, F>(&mut self, target: T, format: F) -> Result<(), EncodingError> where
        F: Copy,
        T: Encode<F>,
    {
        target.encode(format, self)
    }

    /// Validates that no code block is left open once all input has been
    /// pushed; the encoder itself is left unchanged.
    pub fn finish(&mut self) -> (r: Result<(), EncodingError>)
        ensures
            *final(self) == *old(self),
            match finish_state(old(self)@) {
                None => r is Ok,
                Some(e) => r matches Err(err) && err@ == e,
            },
    {
        match self.state {
            EncoderState::Default => Ok(()),
            EncoderState::Opening => Err(EncodingError::UnmatchedOpen),
            EncoderState::Closing => Err(EncodingError::UnmatchedClose),
        }
    }

    /// Consumes the encoder and hands back its output sink.
    pub fn into_target(self) -> (r: String)
        ensures
            r@ == self@.out,
    {
        self.target
    }
}

/// A value that can render itself into an encoder under a format tag.
pub trait Encode<F> where F: Copy {
    /// Writes this value into `encoder` under `format`.
    fn encode(&self, format: F, encoder: &mut Encoder) -> Result<(), EncodingError>;

    /// Renders this value through a fresh encoder into a new string,
    /// validating that it left no code block open. What the string holds
    /// is up to the value's [`Encode::encode`] impl; a failed table build
    /// is reported as such, and only a built table yields a rendering.
    fn render_encoded(&self, format: F) -> (r: Result<String, EncodingError>)
        ensures
            build_table(crate::raw::raw_table_spec()) matches Err(e) ==> (r matches Err(err)
                && err@ == EncodingErrorView::TableInit(e)),
            r is Ok ==> build_table(crate::raw::raw_table_spec()) is Ok,
    {
        let mut encoder = match Encoder::new(String::new()) {
            Ok(enc) => enc,
            Err(e) => {
                return Err(e);
            },
        };
        match self.encode(format, &mut encoder) {
            Ok(()) => {},
            Err(e) => {
                return Err(e);
            },
        }
        match encoder.finish() {
            Ok(()) => {},
            Err(e) => {
                return Err(e);
            },
        }
        Ok(encoder.into_target())
    }
}

/// Format tag for plain display rendering.
#[derive(Debug, Clone, Copy)]
pub struct DisplayFormat;

/// Wraps a plain text value so it renders by pushing its characters.
#[derive(Debug, Clone, Copy)]
pub struct Display<T>(pub T);

impl<'a> Encode<DisplayFormat> for Display<&'a str> {
    /// Pushes the wrapped text through the scanner, character by
    /// character.
    fn encode(&self, _format: DisplayFormat, encoder: &mut Encoder) -> (r: Result<
        (),
        EncodingError,
    >)
        ensures
            final(encoder).table_spec() == old(encoder).table_spec(),
            ({
                let run = encode_run(old(encoder).table_spec(), old(encoder)@, self.0@);
                final(encoder)@ == run.0 && match run.1 {
                    None => r is Ok,
                    Some(e) => r matches Err(err) && err@ == e,
                }
            }),
    {
        encoder.push_str(self.0)
    }
}

impl Encode<DisplayFormat> for Display<String> {
    /// Pushes the wrapped text through the scanner, character by
    /// character.
    fn encode(&self, _format: DisplayFormat, encoder: &mut Encoder) -> (r: Result<
        (),
        EncodingError,
    >)
        ensures
            final(encoder).table_spec() == old(encoder).table_spec(),
            ({
                let run = encode_run(old(encoder).table_spec(), old(encoder)@, self.0@);
                final(encoder)@ == run.0 && match run.1 {
                    None => r is Ok,
                    Some(e) => r matches Err(err) && err@ == e,
                }
            }),
    {
        encoder.push_str(self.0.as_str())
    }
}

/// Adapts a value encodable under some format so it can stand where a
/// display-format value is expected.
pub struct DisplayAdapter<T, F>(pub T, pub F);

impl<T, F> Encode<DisplayFormat> for DisplayAdapter<T, F> where F: Copy, T: Encode<F> {
    fn encode(&self, _format: DisplayFormat, encoder: &mut Encoder) -> Result<
        (),
        EncodingError,
    > {
        self.0.encode(self.1, encoder)
    }
}

} // verus!
