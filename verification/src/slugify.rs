//! Slug text extraction: reducing heading text to the characters a slug
//! may carry. ASCII letters always pass; once the slug has begun, digits
//! and underscores pass and any other character becomes a dash; anything
//! before the first letter is dropped.

use vstd::prelude::*;

verus! {

/// Why a value refuses to contribute slug text.
#[derive(Debug, Clone, PartialEq, Eq)]
pub enum SlugifyError {
    /// The named kind of value cannot be slugified.
    Unsupported(String),
}

/// A value whose text can be folded into a slug buffer.
pub trait Slugify {
    /// Appends this value's slug text to `buf`.
    fn slugify(&self, buf: &mut String) -> Result<(), SlugifyError>;
}

/// An ASCII letter.
pub open spec fn is_ascii_alpha(c: char) -> bool {
    (0x41 <= (c as u32) && (c as u32) <= 0x5a) || (0x61 <= (c as u32) && (c as u32) <= 0x7a)
}

/// An ASCII digit.
pub open spec fn is_ascii_digit(c: char) -> bool {
    0x30 <= (c as u32) && (c as u32) <= 0x39
}

/// One character folded onto a slug accumulated so far.
pub open spec fn slug_step(acc: Seq<char>, c: char) -> Seq<char> {
    if is_ascii_alpha(c) {
        acc.push(c)
    } else if acc.len() > 0 {
        if is_ascii_digit(c) || c == '_' {
            acc.push(c)
        } else {
            acc.push('-')
        }
    } else {
        acc
    }
}

/// A whole text folded onto a slug accumulated so far, left to right.
pub open spec fn slug_run(acc: Seq<char>, s: Seq<char>) -> Seq<char>
    decreases s.len(),
{
    if s.len() == 0 {
        acc
    } else {
        slug_run(slug_step(acc, s[0]), s.drop_first())
    }
}

/// Appends the slug text of `value` to `buf`, character by character.
#[verifier::loop_isolation(false)]
pub fn slugify_text(value: &str, buf: &mut String) -> (r: Result<(), SlugifyError>)
    ensures
        r is Ok,
        final(buf)@ == slug_run(old(buf)@, value@),
{
    let ghost acc0 = buf@;
    let ghost full = value@;
    let n = value.unicode_len();
    let mut i: usize = 0;
    proof {
        assert(full.skip(0) =~= full);
    }
    while i < n
        invariant
            i <= n,
            n == full.len(),
            slug_run(acc0, full) == slug_run(buf@, full.skip(i as int)),
        decreases n - i,
    {
        let c = value.get_char(i);
        proof {
            assert(full.skip(i as int)[0] == full[i as int]);
            assert(full.skip(i as int).drop_first() =~= full.skip(i as int + 1));
        }
        let v = c as u32;
        if (0x41 <= v && v <= 0x5a) || (0x61 <= v && v <= 0x7a) {
            crate::push_char(buf, c);
        } else if !buf.as_str().is_empty() {
            if (0x30 <= v && v <= 0x39) || c == '_' {
                crate::push_char(buf, c);
            } else {
                crate::push_char(buf, '-');
            }
        }
        i = i + 1;
    }
    proof {
        assert(full.skip(n as int) =~= Seq::<char>::empty());
    }
    Ok(())
}

} // verus!
