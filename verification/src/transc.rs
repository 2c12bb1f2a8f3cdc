//! Linguistic transcriptions: encoding an input under a transcription
//! style, which wraps the encoded text in the style's conventional
//! delimiters and stars unattested (reconstructed) forms.

use vstd::prelude::*;

verus! {

use crate::en::{
    encode_full, encode_run, finish_state, initial_model, Encoder, EncodingError,
    EncodingErrorView,
};
use crate::table::build_table;

/// The ways a transcription can fail: only by the encoder failing.
#[derive(Debug, PartialEq, Eq)]
pub enum TranscriptionError {
    Encoding(EncodingError),
}

/// The presentation conventions a transcription can be wrapped in.
#[derive(Debug, Clone, Copy, PartialEq, Eq, PartialOrd, Ord, Hash)]
pub enum TranscriptionType {
    /// Encoded text as it is, with no delimiters.
    GraphemicRaw,
    /// Angle brackets, `⟨...⟩`.
    Graphemic,
    /// Double slashes, `{//}...{//}`.
    Morphophonemic,
    /// Slashes, `/.../`.
    Phonemic,
    /// Square brackets, `[...]`.
    Phonetic,
}

/// The style a name denotes, if any.
pub open spec fn type_from_name(s: Seq<char>) -> Option<TranscriptionType> {
    if s == "GraphemicRaw"@ {
        Some(TranscriptionType::GraphemicRaw)
    } else if s == "Morphophonemic"@ {
        Some(TranscriptionType::Morphophonemic)
    } else if s == "Graphemic"@ {
        Some(TranscriptionType::Graphemic)
    } else if s == "Phonemic"@ {
        Some(TranscriptionType::Phonemic)
    } else if s == "Phonetic"@ {
        Some(TranscriptionType::Phonetic)
    } else {
        None
    }
}

impl TranscriptionType {
    /// Resolves a style name, exactly as written.
    pub fn from_name(name: &str) -> (r: Option<TranscriptionType>)
        ensures
            r == type_from_name(name@),
    {
        let key = String::from_str(name);
        if key == String::from_str("GraphemicRaw") {
            Some(TranscriptionType::GraphemicRaw)
        } else if key == String::from_str("Morphophonemic") {
            Some(TranscriptionType::Morphophonemic)
        } else if key == String::from_str("Graphemic") {
            Some(TranscriptionType::Graphemic)
        } else if key == String::from_str("Phonemic") {
            Some(TranscriptionType::Phonemic)
        } else if key == String::from_str("Phonetic") {
            Some(TranscriptionType::Phonetic)
        } else {
            None
        }
    }
}

/// The star prefix marking an unattested form.
pub open spec fn star_of(attested: bool) -> Seq<char> {
    if attested {
        ""@
    } else {
        "*"@
    }
}

/// What a style puts before the encoded text.
pub open spec fn prefix_of(ty: TranscriptionType) -> Seq<char> {
    match ty {
        TranscriptionType::GraphemicRaw => ""@,
        TranscriptionType::Graphemic => "{<}"@,
        TranscriptionType::Morphophonemic => "{//}"@,
        TranscriptionType::Phonemic => "/"@,
        TranscriptionType::Phonetic => "["@,
    }
}

/// What a style puts after the encoded text.
pub open spec fn suffix_of(ty: TranscriptionType) -> Seq<char> {
    match ty {
        TranscriptionType::GraphemicRaw => ""@,
        TranscriptionType::Graphemic => "{>}"@,
        TranscriptionType::Morphophonemic => "{//}"@,
        TranscriptionType::Phonemic => "/"@,
        TranscriptionType::Phonetic => "]"@,
    }
}

/// What the encoder is fed for a transcription: the attestation star,
/// then the style's opening, the input, and the style's closing.
pub open spec fn decorated(input: Seq<char>, ty: TranscriptionType, attested: bool) -> Seq<
    char,
> {
    star_of(attested) + prefix_of(ty) + input + suffix_of(ty)
}

/// Arguments of the transcription function.
#[derive(Debug, Clone, PartialEq, Eq)]
pub struct TranscArgs {
    /// The text to encode.
    pub input: String,
    /// The language the text belongs to, if not agnostic.
    pub lang: Option<String>,
    /// The presentation convention to wrap the result in.
    pub ty: TranscriptionType,
    /// Whether the form is attested; unattested forms are starred.
    pub attested: bool,
}

/// The transcription function itself.
#[derive(Debug, Clone, Copy)]
pub struct TranscFn;

impl TranscFn {
    /// Encodes the input under its style's delimiters: exactly the
    /// one-shot encoding of the decorated input.
    pub fn call(&self, args: &TranscArgs) -> (r: Result<String, TranscriptionError>)
        ensures
            match build_table(crate::raw::raw_table_spec()) {
                Err(e) => (r matches Err(TranscriptionError::Encoding(err)) && err@
                    == EncodingErrorView::TableInit(e)),
                Ok(t) => match encode_full(t, decorated(args.input@, args.ty, args.attested)) {
                    Ok(o) => r matches Ok(s) && s@ == o,
                    Err(e) => (r matches Err(TranscriptionError::Encoding(err)) && err@ == e),
                },
            },
    {
        let mut encoder = match Encoder::new(String::new()) {
            Ok(enc) => enc,
            Err(e) => {
                return Err(TranscriptionError::Encoding(e));
            },
        };
        let ghost t = encoder.table_spec();
        let ghost m0 = encoder@;
        let ghost full = decorated(args.input@, args.ty, args.attested);
        let star: &str = if args.attested {
            ""
        } else {
            "*"
        };
        let prefix: &str = match args.ty {
            TranscriptionType::GraphemicRaw => "",
            TranscriptionType::Graphemic => "{<}",
            TranscriptionType::Morphophonemic => "{//}",
            TranscriptionType::Phonemic => "/",
            TranscriptionType::Phonetic => "[",
        };
        let suffix: &str = match args.ty {
            TranscriptionType::GraphemicRaw => "",
            TranscriptionType::Graphemic => "{>}",
            TranscriptionType::Morphophonemic => "{//}",
            TranscriptionType::Phonemic => "/",
            TranscriptionType::Phonetic => "]",
        };
        proof {
            assert(star@ == star_of(args.attested));
            assert(prefix@ == prefix_of(args.ty));
            assert(suffix@ == suffix_of(args.ty));
        }
        let ghost rest1 = prefix_of(args.ty) + args.input@ + suffix_of(args.ty);
        let ghost rest2 = args.input@ + suffix_of(args.ty);
        proof {
            crate::laws::lemma_run_app(t, m0, star@, rest1);
            assert(star@ + rest1 =~= full);
        }
        match encoder.push_str(star) {
            Ok(()) => {},
            Err(e) => {
                return Err(TranscriptionError::Encoding(e));
            },
        }
        let ghost m1 = encoder@;
        proof {
            crate::laws::lemma_run_app(t, m1, prefix@, rest2);
            assert(prefix@ + rest2 =~= rest1);
        }
        match encoder.push_str(prefix) {
            Ok(()) => {},
            Err(e) => {
                return Err(TranscriptionError::Encoding(e));
            },
        }
        let ghost m2 = encoder@;
        proof {
            crate::laws::lemma_run_app(t, m2, args.input@, suffix_of(args.ty));
        }
        match encoder.push_str(args.input.as_str()) {
            Ok(()) => {},
            Err(e) => {
                return Err(TranscriptionError::Encoding(e));
            },
        }
        match encoder.push_str(suffix) {
            Ok(()) => {},
            Err(e) => {
                return Err(TranscriptionError::Encoding(e));
            },
        }
        match encoder.finish() {
            Ok(()) => {},
            Err(e) => {
                return Err(TranscriptionError::Encoding(e));
            },
        }
        proof {
            assert(Seq::<char>::empty() + encoder@.out =~= encoder@.out);
        }
        Ok(encoder.into_target())
    }
}

} // verus!
