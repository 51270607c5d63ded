//! The words of the command line: error-correction levels and output types.

use crate::encoder::EccLevel;
use vstd::prelude::*;
use vstd::string::{StrSliceExecFns, StringExecFns};

verus! {

/// A character with the capital letters A to Z made small.
pub open spec fn ascii_lower(c: char) -> char {
    if 'A' <= c && c <= 'Z' {
        ((c as u8) + 32) as char
    } else {
        c
    }
}

/// A text with its capital letters A to Z made small.
pub open spec fn lowered(s: Seq<char>) -> Seq<char> {
    s.map_values(|c: char| ascii_lower(c))
}

/// Makes a capital letter from A to Z small.
fn to_ascii_lower(c: char) -> (l: char)
    ensures
        l == ascii_lower(c),
{
    if 'A' <= c && c <= 'Z' {
        ((c as u8) + 32) as char
    } else {
        c
    }
}

/// Whether a text is a word, capital and small letters taken as the same.
fn is_word(s: &str, word: &str) -> (same: bool)
    ensures
        same == (lowered(s@) == word@),
{
    let n = s.unicode_len();
    if n != word.unicode_len() {
        return false;
    }
    let mut i: usize = 0;
    while i < n
        invariant
            n == s@.len(),
            n == word@.len(),
            0 <= i <= n,
            forall|k: int| 0 <= k < i ==> ascii_lower(#[trigger] s@[k]) == word@[k],
        decreases n - i,
    {
        if to_ascii_lower(s.get_char(i)) != word.get_char(i) {
            assert(lowered(s@)[i as int] != word@[i as int]);
            return false;
        }
        i += 1;
    }
    assert(lowered(s@) =~= word@);
    true
}

/// The level that a word names: `L`, `M`, `Q` or `H`, capital or small.
pub open spec fn ecc_named(s: Seq<char>) -> Option<EccLevel> {
    if lowered(s) == "l"@ {
        Some(EccLevel::Low)
    } else if lowered(s) == "m"@ {
        Some(EccLevel::Medium)
    } else if lowered(s) == "q"@ {
        Some(EccLevel::Quartile)
    } else if lowered(s) == "h"@ {
        Some(EccLevel::High)
    } else {
        None
    }
}

impl EccLevel {
    /// The level that a word names, or the message for a word that names none.
    pub fn from_str(s: &str) -> (r: Result<EccLevel, String>)
        ensures
            match r {
                Ok(level) => ecc_named(s@) == Some(level),
                Err(e) => ecc_named(s@) is None && e@
                    == "Invalid error correction level. Use L, M, Q, or H."@,
            },
    {
        if is_word(s, "l") {
            Ok(EccLevel::Low)
        } else if is_word(s, "m") {
            Ok(EccLevel::Medium)
        } else if is_word(s, "q") {
            Ok(EccLevel::Quartile)
        } else if is_word(s, "h") {
            Ok(EccLevel::High)
        } else {
            Err(String::from_str("Invalid error correction level. Use L, M, Q, or H."))
        }
    }
}

/// What a symbol is written out as.
#[derive(Clone, Copy, Debug, PartialEq, Eq, Structural)]
pub enum OutputType {
    /// Text for a console.
    TXT,
    /// An SVG document.
    SVG,
    /// A PNG file.
    PNG,
}

/// The output type that a word names: `Text`, `SVG` or `PNG`, in capital or
/// small letters.
pub open spec fn output_type_named(s: Seq<char>) -> Option<OutputType> {
    if lowered(s) == "text"@ {
        Some(OutputType::TXT)
    } else if lowered(s) == "svg"@ {
        Some(OutputType::SVG)
    } else if lowered(s) == "png"@ {
        Some(OutputType::PNG)
    } else {
        None
    }
}

/// The message for a word that names no output type.
pub open spec fn unknown_output_type(s: Seq<char>) -> Seq<char> {
    "Unknown output type: "@ + s + ". Use Text, SVG or PNG"@
}

impl OutputType {
    /// The output type that a word names, or the message for a word that
    /// names none.
    pub fn from_str(s: &str) -> (r: Result<OutputType, String>)
        ensures
            match r {
                Ok(kind) => output_type_named(s@) == Some(kind),
                Err(e) => output_type_named(s@) is None && e@ == unknown_output_type(s@),
            },
    {
        if is_word(s, "text") {
            Ok(OutputType::TXT)
        } else if is_word(s, "svg") {
            Ok(OutputType::SVG)
        } else if is_word(s, "png") {
            Ok(OutputType::PNG)
        } else {
            let mut message = String::from_str("Unknown output type: ");
            message.append(s);
            message.append(". Use Text, SVG or PNG");
            Err(message)
        }
    }
}

} // verus!
