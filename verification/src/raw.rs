//! The fixed source list of `(code, symbol)` pairs the canonical table is
//! built from, grouped by category. The specification-level sequence and
//! the executable list are written side by side, group by group.

use vstd::prelude::*;

verus! {

use crate::table::pairs_view;

/// Signs and punctuation.
pub open spec fn raw_signs() -> Seq<(Seq<char>, Seq<char>)> {
    seq![("<"@, "⟨"@), (">"@, "⟩"@)]
}

/// Generic notational subscripts and superscripts.
pub open spec fn raw_notation() -> Seq<(Seq<char>, Seq<char>)> {
    seq![
        ("_ 0"@, "₀"@),
        ("_ 1"@, "₁"@),
        ("_ 2"@, "₂"@),
        ("_ 3"@, "₃"@),
        ("_ 4"@, "₄"@),
        ("_ 5"@, "₅"@),
        ("_ 6"@, "₆"@),
        ("_ 7"@, "₇"@),
        ("_ 8"@, "₈"@),
        ("_ 9"@, "₉"@),
        ("^0"@, "⁰"@),
        ("^1"@, "¹"@),
        ("^2"@, "²"@),
        ("^3"@, "³"@),
        ("^4"@, "⁴"@),
        ("^5"@, "⁵"@),
        ("^6"@, "⁶"@),
        ("^7"@, "⁷"@),
        ("^8"@, "⁸"@),
        ("^9"@, "⁹"@),
        ("_ a"@, "ₐ"@),
        ("_ e"@, "ₑ"@),
        ("_ o"@, "ₒ"@),
        ("_ h"@, "ₕ"@),
    ]
}

/// Miscellaneous symbols.
pub open spec fn raw_misc() -> Seq<(Seq<char>, Seq<char>)> {
    seq![("0"@, "∅"@), ("t"@, "þ"@)]
}

/// Tone letters.
pub open spec fn raw_tone() -> Seq<(Seq<char>, Seq<char>)> {
    seq![("1"@, "˩"@), ("2"@, "˨"@), ("3"@, "˧"@), ("4"@, "˦"@), ("5"@, "˥"@)]
}

/// Vowel letters.
pub open spec fn raw_vowels() -> Seq<(Seq<char>, Seq<char>)> {
    seq![
        ("a"@, "ɐ"@),
        ("ae"@, "æ"@),
        ("OE"@, "ɶ"@),
        ("aa"@, "ɑ"@),
        ("ao"@, "ɒ"@),
        ("e"@, "ɛ"@),
        ("oe"@, "œ"@),
        ("eA"@, "ɜ"@),
        ("oA"@, "ɞ"@),
        ("A"@, "ʌ"@),
        ("o"@, "ɔ"@),
        ("ea"@, "ə"@),
        ("oi"@, "ø"@),
        ("ia"@, "ɘ"@),
        ("io"@, "ɵ"@),
        ("oa"@, "ɤ"@),
        ("I"@, "ɪ"@),
        ("Y"@, "ʏ"@),
        ("U"@, "ʊ"@),
        ("i"@, "ɨ"@),
        ("u"@, "ʉ"@),
        ("ua"@, "ɯ"@),
    ]
}

/// Consonant letters.
pub open spec fn raw_consonants() -> Seq<(Seq<char>, Seq<char>)> {
    seq![
        ("ph"@, "ɸ"@),
        ("b"@, "β"@),
        ("g"@, "ɣ"@),
        ("d"@, "ð"@),
        ("th"@, "θ"@),
        ("lo"@, "ɫ"@),
        ("r"@, "ɹ"@),
        ("rd"@, "ɾ"@),
        ("sr"@, "ʂ"@),
        ("sc"@, "ʃ"@),
        ("sj"@, "ɕ"@),
        ("c"@, "ç"@),
        ("j"@, "ʝ"@),
        ("J"@, "ɟ"@),
        ("x"@, "χ"@),
        ("R"@, "ʀ"@),
        ("Rh"@, "ʁ"@),
        ("y"@, "ɥ"@),
    ]
}

/// Length marks.
pub open spec fn raw_length() -> Seq<(Seq<char>, Seq<char>)> {
    seq![(":"@, "ː"@), ("."@, "ˑ"@), ("#."@, "\u{32f}"@), ("#^."@, "\u{311}"@)]
}

/// Prosody marks.
pub open spec fn raw_prosody() -> Seq<(Seq<char>, Seq<char>)> {
    seq![("'"@, "ˈ"@), (","@, "ˌ"@)]
}

/// Phonation marks.
pub open spec fn raw_phonation() -> Seq<(Seq<char>, Seq<char>)> {
    seq![("^h"@, "ʰ"@), ("^hv"@, "ʱ"@), ("^="@, "˭"@)]
}

/// Articulation marks.
pub open spec fn raw_articulation() -> Seq<(Seq<char>, Seq<char>)> {
    seq![("#:"@, "\u{308}"@)]
}

/// Coarticulation marks.
pub open spec fn raw_coarticulation() -> Seq<(Seq<char>, Seq<char>)> {
    seq![
        ("#^"@, "\u{361}"@),
        ("#_ "@, "\u{35c}"@),
        ("^w"@, "ʷ"@),
        ("^j"@, "ʲ"@),
        ("^-g"@, "ˠ"@),
        ("^-y"@, "ᶣ"@),
    ]
}

/// The whole source list, in order.
pub open spec fn raw_table_spec() -> Seq<(Seq<char>, Seq<char>)> {
    raw_signs() + raw_notation() + raw_misc() + raw_tone() + raw_vowels() + raw_consonants()
        + raw_length() + raw_prosody() + raw_phonation() + raw_articulation()
        + raw_coarticulation()
}

/// Appends one owned pair, extending the viewed sequence by its view.
fn push_pair(v: &mut Vec<(String, String)>, code: &str, sym: &str)
    ensures
        pairs_view(final(v)@) == pairs_view(old(v)@).push((code@, sym@)),
{
    v.push((String::from_str(code), String::from_str(sym)));
    proof {
        assert(pairs_view(v@) =~= pairs_view(old(v)@).push((code@, sym@)));
    }
}

fn add_signs(v: &mut Vec<(String, String)>)
    ensures
        pairs_view(final(v)@) == pairs_view(old(v)@) + raw_signs(),
{
    push_pair(v, "<", "⟨");
    push_pair(v, ">", "⟩");
    proof {
        assert(pairs_view(v@) =~= pairs_view(old(v)@) + raw_signs());
    }
}

fn add_notation(v: &mut Vec<(String, String)>)
    ensures
        pairs_view(final(v)@) == pairs_view(old(v)@) + raw_notation(),
{
    push_pair(v, "_ 0", "₀");
    push_pair(v, "_ 1", "₁");
    push_pair(v, "_ 2", "₂");
    push_pair(v, "_ 3", "₃");
    push_pair(v, "_ 4", "₄");
    push_pair(v, "_ 5", "₅");
    push_pair(v, "_ 6", "₆");
    push_pair(v, "_ 7", "₇");
    push_pair(v, "_ 8", "₈");
    push_pair(v, "_ 9", "₉");
    push_pair(v, "^0", "⁰");
    push_pair(v, "^1", "¹");
    push_pair(v, "^2", "²");
    push_pair(v, "^3", "³");
    push_pair(v, "^4", "⁴");
    push_pair(v, "^5", "⁵");
    push_pair(v, "^6", "⁶");
    push_pair(v, "^7", "⁷");
    push_pair(v, "^8", "⁸");
    push_pair(v, "^9", "⁹");
    push_pair(v, "_ a", "ₐ");
    push_pair(v, "_ e", "ₑ");
    push_pair(v, "_ o", "ₒ");
    push_pair(v, "_ h", "ₕ");
    proof {
        assert(pairs_view(v@) =~= pairs_view(old(v)@) + raw_notation());
    }
}

fn add_misc(v: &mut Vec<(String, String)>)
    ensures
        pairs_view(final(v)@) == pairs_view(old(v)@) + raw_misc(),
{
    push_pair(v, "0", "∅");
    push_pair(v, "t", "þ");
    proof {
        assert(pairs_view(v@) =~= pairs_view(old(v)@) + raw_misc());
    }
}

fn add_tone(v: &mut Vec<(String, String)>)
    ensures
        pairs_view(final(v)@) == pairs_view(old(v)@) + raw_tone(),
{
    push_pair(v, "1", "˩");
    push_pair(v, "2", "˨");
    push_pair(v, "3", "˧");
    push_pair(v, "4", "˦");
    push_pair(v, "5", "˥");
    proof {
        assert(pairs_view(v@) =~= pairs_view(old(v)@) + raw_tone());
    }
}

fn add_vowels(v: &mut Vec<(String, String)>)
    ensures
        pairs_view(final(v)@) == pairs_view(old(v)@) + raw_vowels(),
{
    push_pair(v, "a", "ɐ");
    push_pair(v, "ae", "æ");
    push_pair(v, "OE", "ɶ");
    push_pair(v, "aa", "ɑ");
    push_pair(v, "ao", "ɒ");
    push_pair(v, "e", "ɛ");
    push_pair(v, "oe", "œ");
    push_pair(v, "eA", "ɜ");
    push_pair(v, "oA", "ɞ");
    push_pair(v, "A", "ʌ");
    push_pair(v, "o", "ɔ");
    push_pair(v, "ea", "ə");
    push_pair(v, "oi", "ø");
    push_pair(v, "ia", "ɘ");
    push_pair(v, "io", "ɵ");
    push_pair(v, "oa", "ɤ");
    push_pair(v, "I", "ɪ");
    push_pair(v, "Y", "ʏ");
    push_pair(v, "U", "ʊ");
    push_pair(v, "i", "ɨ");
    push_pair(v, "u", "ʉ");
    push_pair(v, "ua", "ɯ");
    proof {
        assert(pairs_view(v@) =~= pairs_view(old(v)@) + raw_vowels());
    }
}

fn add_consonants(v: &mut Vec<(String, String)>)
    ensures
        pairs_view(final(v)@) == pairs_view(old(v)@) + raw_consonants(),
{
    push_pair(v, "ph", "ɸ");
    push_pair(v, "b", "β");
    push_pair(v, "g", "ɣ");
    push_pair(v, "d", "ð");
    push_pair(v, "th", "θ");
    push_pair(v, "lo", "ɫ");
    push_pair(v, "r", "ɹ");
    push_pair(v, "rd", "ɾ");
    push_pair(v, "sr", "ʂ");
    push_pair(v, "sc", "ʃ");
    push_pair(v, "sj", "ɕ");
    push_pair(v, "c", "ç");
    push_pair(v, "j", "ʝ");
    push_pair(v, "J", "ɟ");
    push_pair(v, "x", "χ");
    push_pair(v, "R", "ʀ");
    push_pair(v, "Rh", "ʁ");
    push_pair(v, "y", "ɥ");
    proof {
        assert(pairs_view(v@) =~= pairs_view(old(v)@) + raw_consonants());
    }
}

fn add_length(v: &mut Vec<(String, String)>)
    ensures
        pairs_view(final(v)@) == pairs_view(old(v)@) + raw_length(),
{
    push_pair(v, ":", "ː");
    push_pair(v, ".", "ˑ");
    push_pair(v, "#.", "\u{32f}");
    push_pair(v, "#^.", "\u{311}");
    proof {
        assert(pairs_view(v@) =~= pairs_view(old(v)@) + raw_length());
    }
}

fn add_prosody(v: &mut Vec<(String, String)>)
    ensures
        pairs_view(final(v)@) == pairs_view(old(v)@) + raw_prosody(),
{
    push_pair(v, "'", "ˈ");
    push_pair(v, ",", "ˌ");
    proof {
        assert(pairs_view(v@) =~= pairs_view(old(v)@) + raw_prosody());
    }
}

fn add_phonation(v: &mut Vec<(String, String)>)
    ensures
        pairs_view(final(v)@) == pairs_view(old(v)@) + raw_phonation(),
{
    push_pair(v, "^h", "ʰ");
    push_pair(v, "^hv", "ʱ");
    push_pair(v, "^=", "˭");
    proof {
        assert(pairs_view(v@) =~= pairs_view(old(v)@) + raw_phonation());
    }
}

fn add_articulation(v: &mut Vec<(String, String)>)
    ensures
        pairs_view(final(v)@) == pairs_view(old(v)@) + raw_articulation(),
{
    push_pair(v, "#:", "\u{308}");
    proof {
        assert(pairs_view(v@) =~= pairs_view(old(v)@) + raw_articulation());
    }
}

fn add_coarticulation(v: &mut Vec<(String, String)>)
    ensures
        pairs_view(final(v)@) == pairs_view(old(v)@) + raw_coarticulation(),
{
    push_pair(v, "#^", "\u{361}");
    push_pair(v, "#_ ", "\u{35c}");
    push_pair(v, "^w", "ʷ");
    push_pair(v, "^j", "ʲ");
    push_pair(v, "^-g", "ˠ");
    push_pair(v, "^-y", "ᶣ");
    proof {
        assert(pairs_view(v@) =~= pairs_view(old(v)@) + raw_coarticulation());
    }
}

/// The source list as owned pairs, mirroring [`raw_table_spec`] exactly.
pub fn raw_pairs() -> (r: Vec<(String, String)>)
    ensures
        pairs_view(r@) == raw_table_spec(),
{
    let mut v: Vec<(String, String)> = Vec::new();
    proof {
        assert(pairs_view(v@) =~= Seq::<(Seq<char>, Seq<char>)>::empty());
    }
    add_signs(&mut v);
    add_notation(&mut v);
    add_misc(&mut v);
    add_tone(&mut v);
    add_vowels(&mut v);
    add_consonants(&mut v);
    add_length(&mut v);
    add_prosody(&mut v);
    add_phonation(&mut v);
    add_articulation(&mut v);
    add_coarticulation(&mut v);
    proof {
        assert(pairs_view(v@) =~= raw_table_spec());
    }
    v
}

} // verus!
