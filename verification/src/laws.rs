//! Laws of the transcoder, proved against the specification state machine
//! for every table: pass-through of brace-free text, resolution of table
//! codes, failure on unknown or unterminated codes, purity of one-shot
//! encoding, and pass-through of unknown graphemes when decoding.

use vstd::prelude::*;

verus! {

use crate::char_utf8_len;
use crate::utf8_len;
use crate::de::{decode_grapheme, decode_run};
use crate::en::{
    encode_full, encode_run, encode_step, finish_state, initial_model, EncoderModel,
    EncoderState, EncodingErrorView,
};
use crate::encode_text_spec;
use crate::table::{lookup_code, lookup_symbol, table_max_len};

/// A found code is carried by some pair of the table.
proof fn lemma_lookup_code_some(t: Seq<(Seq<char>, Seq<char>)>, code: Seq<char>)
    requires
        lookup_code(t, code) is Some,
    ensures
        exists|k: int|
            0 <= k < t.len() && t[k].0 == code && t[k].1 == lookup_code(t, code).unwrap(),
    decreases t.len(),
{
    if t.len() > 0 {
        if t[0].0 == code {
            assert(t[0].0 == code && t[0].1 == lookup_code(t, code).unwrap());
        } else {
            lemma_lookup_code_some(t.drop_first(), code);
            let k = choose|k: int|
                0 <= k < t.drop_first().len() && t.drop_first()[k].0 == code
                    && t.drop_first()[k].1 == lookup_code(t.drop_first(), code).unwrap();
            assert(t[k + 1].0 == code && t[k + 1].1 == lookup_code(t, code).unwrap());
        }
    }
}

/// No code in the table is longer than the table's maximum code length.
proof fn lemma_table_max_len_bound(t: Seq<(Seq<char>, Seq<char>)>, k: int)
    requires
        0 <= k < t.len(),
    ensures
        utf8_len(t[k].0) <= table_max_len(t),
    decreases t.len(),
{
    if k > 0 {
        lemma_table_max_len_bound(t.drop_first(), k - 1);
        assert(t.drop_first()[k - 1] == t[k]);
    }
}

/// Running over a concatenation: the first part runs to completion or to
/// its error; on completion the second part continues from where the
/// first left off.
pub proof fn lemma_run_app(
    t: Seq<(Seq<char>, Seq<char>)>,
    m: EncoderModel,
    a: Seq<char>,
    b: Seq<char>,
)
    ensures
        ({
            let ra = encode_run(t, m, a);
            encode_run(t, m, a + b) == if ra.1 is Some {
                ra
            } else {
                encode_run(t, ra.0, b)
            }
        }),
    decreases a.len(),
{
    if a.len() == 0 {
        assert(a + b =~= b);
    } else {
        assert((a + b)[0] == a[0]);
        assert((a + b).len() > 0);
        match encode_step(t, m, a[0]) {
            Ok(m2) => {
                assert((a + b).drop_first() =~= a.drop_first() + b);
                lemma_run_app(t, m2, a.drop_first(), b);
            },
            Err(_) => {},
        }
    }
}

/// In the copy-through state, brace-free text is emitted verbatim and the
/// scanner stays where it is.
proof fn lemma_run_default(t: Seq<(Seq<char>, Seq<char>)>, m: EncoderModel, s: Seq<char>)
    requires
        m.state is Default,
        forall|i: int| 0 <= i < s.len() ==> s[i] != '{' && s[i] != '}',
    ensures
        ({
            let r = encode_run(t, m, s);
            r.1 is None && r.0.state == m.state && r.0.buf == m.buf && r.0.out == m.out + s
        }),
    decreases s.len(),
{
    if s.len() == 0 {
        assert(m.out + s =~= m.out);
    } else {
        let m2 = EncoderModel { out: m.out.push(s[0]), ..m };
        assert(encode_step(t, m, s[0]) == Ok::<EncoderModel, EncodingErrorView>(m2));
        lemma_run_default(t, m2, s.drop_first());
        assert(m.out.push(s[0]) + s.drop_first() =~= m.out + s);
    }
}

/// While a code block is open, brace-free characters that keep the code
/// within the table's maximum length are accumulated, emitting nothing.
proof fn lemma_run_opening(t: Seq<(Seq<char>, Seq<char>)>, m: EncoderModel, cs: Seq<char>)
    requires
        m.state is Opening,
        forall|i: int| 0 <= i < cs.len() ==> cs[i] != '{' && cs[i] != '}',
        utf8_len(m.buf) + utf8_len(cs) <= table_max_len(t),
    ensures
        ({
            let r = encode_run(t, m, cs);
            r.1 is None && r.0.state == m.state && r.0.buf == m.buf + cs && r.0.out == m.out
        }),
    decreases cs.len(),
{
    if cs.len() == 0 {
        assert(m.buf + cs =~= m.buf);
    } else {
        assert(utf8_len(cs) == char_utf8_len(cs[0]) + utf8_len(cs.drop_first()));
        let m2 = EncoderModel { buf: m.buf.push(cs[0]), ..m };
        assert(encode_step(t, m, cs[0]) == Ok::<EncoderModel, EncodingErrorView>(m2));
        crate::lemma_utf8_len_push(m.buf, cs[0]);
        lemma_run_opening(t, m2, cs.drop_first());
        assert(m.buf.push(cs[0]) + cs.drop_first() =~= m.buf + cs);
    }
}

/// Pass-through identity: against any table, text without braces encodes
/// to itself.
pub proof fn lemma_encode_passthrough(t: Seq<(Seq<char>, Seq<char>)>, s: Seq<char>)
    requires
        forall|i: int| 0 <= i < s.len() ==> s[i] != '{' && s[i] != '}',
    ensures
        encode_full(t, s) == Ok::<Seq<char>, EncodingErrorView>(s),
{
    lemma_run_default(t, initial_model(Seq::empty()), s);
    let r = encode_run(t, initial_model(Seq::empty()), s);
    assert(Seq::empty() + s =~= s);
    assert(finish_state(r.0) is None);
}

/// The scanner's position after consuming `{` and the brace-free body of
/// a code that fits the table's bound: an open block holding the body.
proof fn lemma_run_open_code(t: Seq<(Seq<char>, Seq<char>)>, c: Seq<char>)
    requires
        forall|i: int| 0 <= i < c.len() ==> c[i] != '{' && c[i] != '}',
        utf8_len(c) <= table_max_len(t),
    ensures
        ({
            let r = encode_run(t, initial_model(Seq::empty()), seq!['{'] + c);
            r.1 is None && r.0.state is Opening && r.0.buf == c && r.0.out == Seq::<
                char,
            >::empty()
        }),
{
    let m0 = initial_model(Seq::empty());
    let open = seq!['{'];
    let m1 = EncoderModel { state: EncoderState::Opening, ..m0 };
    assert(encode_step(t, m0, open[0]) == Ok::<EncoderModel, EncodingErrorView>(m1));
    assert(open.drop_first() =~= Seq::<char>::empty());
    assert(encode_run(t, m1, Seq::<char>::empty()) == (m1, Option::<EncodingErrorView>::None));
    assert(encode_run(t, m0, open) == (m1, Option::<EncodingErrorView>::None));
    lemma_run_app(t, m0, open, c);
    assert(utf8_len(m1.buf) == 0);
    lemma_run_opening(t, m1, c);
    assert(m1.buf + c =~= c);
}

/// Encoding a code from the table: against any duplicate-free table,
/// `{c}` encodes to exactly the symbol the table gives for `c`.
pub proof fn lemma_encode_code(t: Seq<(Seq<char>, Seq<char>)>, c: Seq<char>, s: Seq<char>)
    requires
        lookup_code(t, c) == Some(s),
        forall|i: int| 0 <= i < c.len() ==> c[i] != '{' && c[i] != '}',
    ensures
        encode_full(t, seq!['{'] + c + seq!['}']) == Ok::<Seq<char>, EncodingErrorView>(s),
{
    lemma_lookup_code_some(t, c);
    let k = choose|k: int| 0 <= k < t.len() && t[k].0 == c && t[k].1 == s;
    lemma_table_max_len_bound(t, k);
    lemma_run_open_code(t, c);
    let m2 = encode_run(t, initial_model(Seq::empty()), seq!['{'] + c).0;
    lemma_run_app(t, initial_model(Seq::empty()), seq!['{'] + c, seq!['}']);
    assert(seq!['{'] + c + seq!['}'] =~= (seq!['{'] + c) + seq!['}']);
    let close = seq!['}'];
    let m3 = EncoderModel {
        state: EncoderState::Default,
        buf: Seq::empty(),
        out: m2.out + s,
    };
    assert(encode_step(t, m2, close[0]) == Ok::<EncoderModel, EncodingErrorView>(m3));
    assert(close.drop_first() =~= Seq::<char>::empty());
    assert(encode_run(t, m3, Seq::<char>::empty()) == (m3, Option::<EncodingErrorView>::None));
    assert(encode_run(t, m2, close) == (m3, Option::<EncodingErrorView>::None));
    assert(Seq::<char>::empty() + s =~= s);
}

/// Every entry of a duplicate-free table is honoured: for a pair
/// `(c, s)` of the table whose code is brace-free, `{c}` encodes to `s`.
pub proof fn lemma_encode_table_entry(t: Seq<(Seq<char>, Seq<char>)>, k: int)
    requires
        crate::table::distinct_codes(t),
        0 <= k < t.len(),
        forall|i: int| 0 <= i < t[k].0.len() ==> t[k].0[i] != '{' && t[k].0[i] != '}',
    ensures
        encode_full(t, seq!['{'] + t[k].0 + seq!['}']) == Ok::<Seq<char>, EncodingErrorView>(
            t[k].1,
        ),
{
    crate::table::lemma_lookup_of_entry(t, k);
    lemma_encode_code(t, t[k].0, t[k].1);
}

/// Encoding an unknown code: a well-formed `{c}` block whose code the
/// table does not know, and which fits the table's length bound, fails
/// with exactly that unknown code.
pub proof fn lemma_encode_unknown_code(t: Seq<(Seq<char>, Seq<char>)>, c: Seq<char>)
    requires
        lookup_code(t, c) is None,
        forall|i: int| 0 <= i < c.len() ==> c[i] != '{' && c[i] != '}',
        utf8_len(c) <= table_max_len(t),
    ensures
        encode_full(t, seq!['{'] + c + seq!['}']) == Err::<Seq<char>, EncodingErrorView>(
            EncodingErrorView::UnknownCode(c),
        ),
{
    lemma_run_open_code(t, c);
    let m2 = encode_run(t, initial_model(Seq::empty()), seq!['{'] + c).0;
    lemma_run_app(t, initial_model(Seq::empty()), seq!['{'] + c, seq!['}']);
    assert(seq!['{'] + c + seq!['}'] =~= (seq!['{'] + c) + seq!['}']);
    let close = seq!['}'];
    assert(encode_step(t, m2, close[0]) == Err::<EncoderModel, EncodingErrorView>(
        EncodingErrorView::UnknownCode(c),
    ));
}

/// Encoding an input that ends mid-code: `{` followed only by the
/// brace-free body of a code that fits the table's bound fails as an
/// unmatched opening brace.
pub proof fn lemma_encode_unmatched_open(t: Seq<(Seq<char>, Seq<char>)>, c: Seq<char>)
    requires
        forall|i: int| 0 <= i < c.len() ==> c[i] != '{' && c[i] != '}',
        utf8_len(c) <= table_max_len(t),
    ensures
        encode_full(t, seq!['{'] + c) == Err::<Seq<char>, EncodingErrorView>(
            EncodingErrorView::UnmatchedOpen,
        ),
{
    lemma_run_open_code(t, c);
}

/// A stray closing brace that escapes no literal fails as an unmatched
/// closing brace, whether the input ends there or continues with
/// anything but a second brace.
pub proof fn lemma_encode_unmatched_close(t: Seq<(Seq<char>, Seq<char>)>, s: Seq<char>)
    requires
        s.len() == 0 || s[0] != '}',
    ensures
        encode_full(t, seq!['}'] + s) == Err::<Seq<char>, EncodingErrorView>(
            EncodingErrorView::UnmatchedClose,
        ),
{
    let m0 = initial_model(Seq::empty());
    let m1 = EncoderModel { state: EncoderState::Closing, ..m0 };
    let close = seq!['}'];
    assert(encode_step(t, m0, close[0]) == Ok::<EncoderModel, EncodingErrorView>(m1));
    assert(close.drop_first() =~= Seq::<char>::empty());
    assert(encode_run(t, m1, Seq::<char>::empty()) == (m1, Option::<EncodingErrorView>::None));
    assert(encode_run(t, m0, close) == (m1, Option::<EncodingErrorView>::None));
    lemma_run_app(t, m0, close, s);
    if s.len() == 0 {
        assert(close + s =~= close);
    } else {
        assert(encode_step(t, m1, s[0]) == Err::<EncoderModel, EncodingErrorView>(
            EncodingErrorView::UnmatchedClose,
        ));
    }
}

/// One-shot encoding is a pure function of the input and the fixed
/// table: any two results for the same input are the same.
pub proof fn lemma_encode_pure(
    input: Seq<char>,
    r1: Result<Seq<char>, EncodingErrorView>,
    r2: Result<Seq<char>, EncodingErrorView>,
)
    requires
        r1 == encode_text_spec(input),
        r2 == encode_text_spec(input),
    ensures
        r1 == r2,
{
}

/// Decoding a grapheme the table does not know hands it back unchanged.
pub proof fn lemma_decode_unknown_grapheme(t: Seq<(Seq<char>, Seq<char>)>, g: Seq<char>)
    requires
        lookup_symbol(t, g) is None,
    ensures
        decode_run(t, seq![g]) == g,
{
    assert(seq![g].drop_first() =~= Seq::<Seq<char>>::empty());
    assert(decode_run(t, Seq::<Seq<char>>::empty()) == Seq::<char>::empty());
    assert(g + Seq::<char>::empty() =~= g);
}

/// Decoding a grapheme the table knows as a symbol yields its code.
pub proof fn lemma_decode_known_grapheme(
    t: Seq<(Seq<char>, Seq<char>)>,
    c: Seq<char>,
    g: Seq<char>,
)
    requires
        lookup_symbol(t, g) == Some(c),
    ensures
        decode_run(t, seq![g]) == c,
{
    assert(seq![g].drop_first() =~= Seq::<Seq<char>>::empty());
    assert(decode_run(t, Seq::<Seq<char>>::empty()) == Seq::<char>::empty());
    assert(c + Seq::<char>::empty() =~= c);
}

/// Text none of whose graphemes the table knows decodes to itself.
pub proof fn lemma_decode_passthrough(t: Seq<(Seq<char>, Seq<char>)>, gs: Seq<Seq<char>>)
    requires
        forall|i: int| 0 <= i < gs.len() ==> lookup_symbol(t, #[trigger] gs[i]) is None,
    ensures
        decode_run(t, gs) == gs.flatten(),
    decreases gs.len(),
{
    if gs.len() == 0 {
        assert(gs.flatten() =~= Seq::<char>::empty());
    } else {
        assert(decode_grapheme(t, gs[0]) == gs[0]);
        lemma_decode_passthrough(t, gs.drop_first());
        assert(gs.flatten() =~= gs[0] + gs.drop_first().flatten());
    }
}

} // verus!
