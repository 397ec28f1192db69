//! Where effect racks sit in the signal path, and the kinds of effect components.

use vstd::prelude::*;
use crate::text::{
    decimal, has_no_char, lemma_decimal_has_no_char, lemma_parse_decimal, lemma_split_join,
    lemma_split_none, parse_unsigned, parse_unsigned_spec, push_decimal, sep_join, split_once_at,
    split_once_spec, text_eq,
};
use vstd::string::StringExecFns;

verus! {

/// Uniquely identifies a location in the audio pipeline where an FX rack can be inserted.
#[derive(Clone, Copy, Debug, PartialEq, Eq, Hash, PartialOrd, Ord, Structural)]
pub enum InsertionPoint {
    Looper(usize),
    Synth(usize),
    Sampler,
    Input,
    Master,
    Atmo,
}

/// The different types of core DSP components a user can add to a chain.
#[derive(Clone, Copy, Debug, PartialEq, Eq, Hash, Structural)]
pub enum FxComponentType {
    Gain,
    Delay,
    Filter,
    Lfo,
    EnvelopeFollower,
    Waveshaper,
    Quantizer,
    Reverb,
    Flanger,
    Formant,
}


/// Why a stored insertion point could not be read.
#[derive(Clone, Copy, Debug, PartialEq, Eq, Structural)]
pub enum InsertionPointParseError {
    /// The index after `_` is not a number that fits.
    InvalidIndex,
    /// The text before `_` is neither `Looper` nor `Synth`.
    UnknownPrefix,
    /// A text without `_` that names no insertion point.
    UnknownName,
}

/// The stored form of an insertion point (used as a key in saved files).
pub open spec fn insertion_point_key(p: InsertionPoint) -> Seq<char> {
    match p {
        InsertionPoint::Looper(i) => sep_join("Looper"@, '_', decimal(i as nat)),
        InsertionPoint::Synth(i) => sep_join("Synth"@, '_', decimal(i as nat)),
        InsertionPoint::Sampler => "Sampler"@,
        InsertionPoint::Input => "Input"@,
        InsertionPoint::Master => "Master"@,
        InsertionPoint::Atmo => "Atmo"@,
    }
}

/// Reading the stored form: with a `_`, the text after the first `_` must be
/// an index and the text before it `Looper` or `Synth`; without one, the text
/// must name one of the other insertion points.
pub open spec fn parse_insertion_point_key(s: Seq<char>) -> Result<InsertionPoint, InsertionPointParseError> {
    match split_once_spec(s, '_') {
        Some((prefix, suffix)) => match parse_unsigned_spec(suffix, usize::MAX as nat) {
            None => Err(InsertionPointParseError::InvalidIndex),
            Some(index) => if prefix == "Looper"@ {
                Ok(InsertionPoint::Looper(index as usize))
            } else if prefix == "Synth"@ {
                Ok(InsertionPoint::Synth(index as usize))
            } else {
                Err(InsertionPointParseError::UnknownPrefix)
            },
        },
        None => if s == "Sampler"@ {
            Ok(InsertionPoint::Sampler)
        } else if s == "Input"@ {
            Ok(InsertionPoint::Input)
        } else if s == "Master"@ {
            Ok(InsertionPoint::Master)
        } else if s == "Atmo"@ {
            Ok(InsertionPoint::Atmo)
        } else {
            Err(InsertionPointParseError::UnknownName)
        },
    }
}

/// The name shown to the user (tracks and engines are counted from one).
pub open spec fn insertion_point_label(p: InsertionPoint) -> Seq<char> {
    match p {
        InsertionPoint::Looper(i) => "Looper "@ + decimal((i + 1) as nat),
        InsertionPoint::Synth(i) => "Synth Engine "@ + decimal((i + 1) as nat),
        InsertionPoint::Sampler => "Sampler"@,
        InsertionPoint::Input => "Audio Input"@,
        InsertionPoint::Master => "Master Output"@,
        InsertionPoint::Atmo => "Atmosphere"@,
    }
}

/// An insertion point whose shown number fits a `usize`.
pub open spec fn label_fits(p: InsertionPoint) -> bool {
    match p {
        InsertionPoint::Looper(i) | InsertionPoint::Synth(i) => i < usize::MAX,
        _ => true,
    }
}

impl InsertionPoint {
    /// The stored form (see `insertion_point_key`).
    pub fn to_key(&self) -> (r: String)
        ensures
            r@ == insertion_point_key(*self),
    {
        proof {
            reveal_strlit("_");
        }
        match self {
            InsertionPoint::Looper(i) => {
                let mut out = String::from_str("Looper");
                out.append("_");
                push_decimal(&mut out, *i as u64);
                assert(out@ =~= insertion_point_key(*self));
                out
            },
            InsertionPoint::Synth(i) => {
                let mut out = String::from_str("Synth");
                out.append("_");
                push_decimal(&mut out, *i as u64);
                assert(out@ =~= insertion_point_key(*self));
                out
            },
            InsertionPoint::Sampler => String::from_str("Sampler"),
            InsertionPoint::Input => String::from_str("Input"),
            InsertionPoint::Master => String::from_str("Master"),
            InsertionPoint::Atmo => String::from_str("Atmo"),
        }
    }

    /// Reads an insertion point from its stored form (see `parse_insertion_point_key`).
    pub fn from_key(s: &str) -> (r: Result<InsertionPoint, InsertionPointParseError>)
        ensures
            r == parse_insertion_point_key(s@),
    {
        match split_once_at(s, '_') {
            Some((prefix, suffix)) => {
                let index = match parse_unsigned(suffix.as_str(), usize::MAX as u64) {
                    Some(v) => v as usize,
                    None => return Err(InsertionPointParseError::InvalidIndex),
                };
                if text_eq(prefix.as_str(), "Looper") {
                    Ok(InsertionPoint::Looper(index))
                } else if text_eq(prefix.as_str(), "Synth") {
                    Ok(InsertionPoint::Synth(index))
                } else {
                    Err(InsertionPointParseError::UnknownPrefix)
                }
            },
            None => {
                if text_eq(s, "Sampler") {
                    Ok(InsertionPoint::Sampler)
                } else if text_eq(s, "Input") {
                    Ok(InsertionPoint::Input)
                } else if text_eq(s, "Master") {
                    Ok(InsertionPoint::Master)
                } else if text_eq(s, "Atmo") {
                    Ok(InsertionPoint::Atmo)
                } else {
                    Err(InsertionPointParseError::UnknownName)
                }
            },
        }
    }

    /// The name shown to the user (see `insertion_point_label`).
    pub fn label(&self) -> (r: String)
        requires
            label_fits(*self),
        ensures
            r@ == insertion_point_label(*self),
    {
        match self {
            InsertionPoint::Looper(i) => {
                let mut out = String::from_str("Looper ");
                push_decimal(&mut out, (*i + 1) as u64);
                out
            },
            InsertionPoint::Synth(i) => {
                let mut out = String::from_str("Synth Engine ");
                push_decimal(&mut out, (*i + 1) as u64);
                out
            },
            InsertionPoint::Sampler => String::from_str("Sampler"),
            InsertionPoint::Input => String::from_str("Audio Input"),
            InsertionPoint::Master => String::from_str("Master Output"),
            InsertionPoint::Atmo => String::from_str("Atmosphere"),
        }
    }
}

/// Reading back the stored form of an insertion point gives it again.
pub proof fn lemma_insertion_point_key_roundtrip(p: InsertionPoint)
    ensures
        parse_insertion_point_key(insertion_point_key(p)) == Ok::<InsertionPoint, InsertionPointParseError>(p),
{
    reveal_strlit("Looper");
    reveal_strlit("Synth");
    reveal_strlit("Sampler");
    reveal_strlit("Input");
    reveal_strlit("Master");
    reveal_strlit("Atmo");
    match p {
        InsertionPoint::Looper(i) => {
            assert(has_no_char("Looper"@, '_'));
            lemma_split_join("Looper"@, '_', decimal(i as nat));
            lemma_parse_decimal(i as nat, usize::MAX as nat);
        },
        InsertionPoint::Synth(i) => {
            assert(has_no_char("Synth"@, '_'));
            lemma_split_join("Synth"@, '_', decimal(i as nat));
            lemma_parse_decimal(i as nat, usize::MAX as nat);
            assert("Synth"@[0] != "Looper"@[0]);
        },
        InsertionPoint::Sampler => {
            lemma_split_none("Sampler"@, '_');
        },
        InsertionPoint::Input => {
            lemma_split_none("Input"@, '_');
            assert("Input"@[0] != "Sampler"@[0]);
        },
        InsertionPoint::Master => {
            lemma_split_none("Master"@, '_');
            assert("Master"@[0] != "Sampler"@[0]);
            assert("Master"@[0] != "Input"@[0]);
        },
        InsertionPoint::Atmo => {
            lemma_split_none("Atmo"@, '_');
            assert("Atmo"@[0] != "Sampler"@[0]);
            assert("Atmo"@[0] != "Input"@[0]);
            assert("Atmo"@[0] != "Master"@[0]);
        },
    }
}

} // verus!
