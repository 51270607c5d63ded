//! Located symbols to payloads and text, through the `quircs` crate: what
//! each symbol that a locator sampled holds, and the lines that they give.

use vstd::prelude::*;
use vstd::string::StringExecFns;
use vstd::utf8::{decode_utf8, valid_utf8};

verus! {

/// The bytes of the cell bitmap of a `quircs::Code`: one bit for each cell of
/// the largest symbol, 177 cells wide.
pub const CELL_BYTES: usize = 3917;

/// The side of the smallest symbol, in cells.
pub const MIN_SYMBOL_SIDE: i32 = 21;

/// The side of the largest symbol, in cells.
pub const MAX_SYMBOL_SIDE: i32 = 177;

/// Why a symbol in an image gives no text.
#[derive(Clone, Copy, Debug, PartialEq, Eq, Structural)]
pub enum DecodeError {
    /// The locator could not sample the cells of the symbol.
    OutOfBounds,
    /// The side of the symbol is not that of any version.
    InvalidGridSize,
    /// The version of the symbol is out of range.
    InvalidVersion,
    /// The error correction of the data failed.
    DataEcc,
    /// The error correction of the format bits failed.
    FormatEcc,
    /// A segment has a mode that is not known.
    UnknownDataType,
    /// The payload is longer than a symbol can hold.
    DataOverflow,
    /// A segment ends before its data does.
    DataUnderflow,
    /// The payload is not UTF-8 text.
    InvalidUtf8,
}

/// A symbol as a locator sampled it from an image: the number of cells along
/// its side and the cells, one bit each, row after row, the lowest bit of a
/// byte first.
#[derive(Debug)]
pub struct SampledSymbol {
    size: i32,
    cells: Vec<u8>,
}

/// The size and the cells of a sampled symbol, or the error in its place.
pub open spec fn sample_view(found: Result<SampledSymbol, DecodeError>) -> Result<
    (int, Seq<u8>),
    DecodeError,
> {
    match found {
        Ok(symbol) => Ok((symbol.spec_size() as int, symbol.spec_cells())),
        Err(e) => Err(e),
    }
}

/// The bytes of a payload, or the error in its place.
pub open spec fn payload_view(payload: Result<Vec<u8>, DecodeError>) -> Result<
    Seq<u8>,
    DecodeError,
> {
    match payload {
        Ok(bytes) => Ok(bytes@),
        Err(e) => Err(e),
    }
}

/// What `quircs::Code::decode` reads from a symbol of the given size and
/// cells: the payload, or the error.
pub uninterp spec fn payload_of(size: int, cells: Seq<u8>) -> Result<Seq<u8>, DecodeError>;

/// Calls `quircs::Code::decode` on a code with the size and the cells of the
/// symbol. Trusted: the outcome depends on the size and the cells alone. The
/// crate subtracts 17 from the size in 32 bits with a sign, which a size that
/// is the side of a symbol cannot overflow.
#[verifier::external_body]
fn decode_cells(symbol: &SampledSymbol) -> (payload: Result<Vec<u8>, DecodeError>)
    requires
        size_error(symbol.spec_size() as int) is None,
    ensures
        payload_view(payload) == payload_of(symbol.spec_size() as int, symbol.spec_cells()),
{
    let mut code = quircs::Code::default();
    code.size = symbol.size;
    code.cell_bitmap.copy_from_slice(&symbol.cells);
    match code.decode() {
        Ok(data) => Ok(data.payload),
        Err(quircs::DecodeError::InvalidGridSize) => Err(DecodeError::InvalidGridSize),
        Err(quircs::DecodeError::InvalidVersion) => Err(DecodeError::InvalidVersion),
        Err(quircs::DecodeError::DataEcc) => Err(DecodeError::DataEcc),
        Err(quircs::DecodeError::FormatEcc) => Err(DecodeError::FormatEcc),
        Err(quircs::DecodeError::UnkownDataType) => Err(DecodeError::UnknownDataType),
        Err(quircs::DecodeError::DataOverflow) => Err(DecodeError::DataOverflow),
        Err(quircs::DecodeError::DataUnderflow) => Err(DecodeError::DataUnderflow),
    }
}

/// Calls `std::str::from_utf8`. Trusted: the bytes are text exactly if they
/// are valid UTF-8, and the text is then what they encode.
#[verifier::external_body]
fn utf8_str(bytes: &[u8]) -> (text: Option<&str>)
    ensures
        text is Some <==> valid_utf8(bytes@),
        text matches Some(s) ==> s@ == decode_utf8(bytes@),
{
    std::str::from_utf8(bytes).ok()
}

impl SampledSymbol {
    #[verifier::type_invariant]
    spec fn whole(&self) -> bool {
        self.cells@.len() == CELL_BYTES
    }

    /// The number of cells along a side.
    pub closed spec fn spec_size(&self) -> i32 {
        self.size
    }

    /// The cells, eight to a byte.
    pub closed spec fn spec_cells(&self) -> Seq<u8> {
        self.cells@
    }

    /// A symbol of the given size over the given cells, if there are
    /// `CELL_BYTES` bytes of them.
    pub fn new(size: i32, cells: Vec<u8>) -> (r: Option<SampledSymbol>)
        ensures
            r is Some <==> cells@.len() == CELL_BYTES,
            r matches Some(symbol) ==> symbol.spec_size() == size && symbol.spec_cells() == cells@,
    {
        if cells.len() == CELL_BYTES {
            Some(SampledSymbol { size, cells })
        } else {
            None
        }
    }

    /// The number of cells along a side.
    #[verifier::when_used_as_spec(spec_size)]
    pub fn size(&self) -> (n: i32)
        ensures
            n == self.spec_size(),
    {
        self.size
    }

    /// The cells, eight to a byte: `CELL_BYTES` bytes.
    pub fn cells(&self) -> (c: &Vec<u8>)
        ensures
            c@ == self.spec_cells(),
            c@.len() == CELL_BYTES,
    {
        proof {
            use_type_invariant(self);
        }
        &self.cells
    }
}

/// What is wrong with a size that is not the side of a symbol: the sides are
/// 21, 25 and so on in steps of four up to 177. A size off the steps is no
/// grid size, and one on the steps but out of the range belongs to no version.
pub open spec fn size_error(size: int) -> Option<DecodeError> {
    if (size - 17) % 4 != 0 {
        Some(DecodeError::InvalidGridSize)
    } else if size < MIN_SYMBOL_SIDE || size > MAX_SYMBOL_SIDE {
        Some(DecodeError::InvalidVersion)
    } else {
        None
    }
}

/// Tests a size against the sides that symbols have.
pub fn check_size(size: i32) -> (e: Option<DecodeError>)
    ensures
        e == size_error(size as int),
{
    let lifted: i64 = size as i64 - 17 + 0x1_0000_0000;
    if lifted % 4 != 0 {
        Some(DecodeError::InvalidGridSize)
    } else if size < MIN_SYMBOL_SIDE || size > MAX_SYMBOL_SIDE {
        Some(DecodeError::InvalidVersion)
    } else {
        None
    }
}

/// What one located symbol gives: the error of the locator; or the error of
/// a size that is not the side of a symbol; or else what the reading gives,
/// its payload or its error.
pub open spec fn payload_found(found: Result<(int, Seq<u8>), DecodeError>) -> Result<
    Seq<u8>,
    DecodeError,
> {
    match found {
        Ok((size, cells)) => match size_error(size) {
            Some(e) => Err(e),
            None => payload_of(size, cells),
        },
        Err(e) => Err(e),
    }
}

/// The payload of one located symbol. An error of the locator is handed on,
/// and a symbol whose size is not the side of a symbol is not read.
pub fn decode_symbol(found: &Result<SampledSymbol, DecodeError>) -> (payload: Result<
    Vec<u8>,
    DecodeError,
>)
    ensures
        payload_view(payload) == payload_found(sample_view(*found)),
{
    match found {
        Ok(symbol) => match check_size(symbol.size()) {
            Some(e) => Err(e),
            None => decode_cells(symbol),
        },
        Err(e) => Err(*e),
    }
}

/// Reads each of the symbols that a locator found in an image: one result
/// for each, in their order. A symbol that cannot be read has its error in
/// its place, and the others are read all the same.
pub fn decode_symbols(found: &Vec<Result<SampledSymbol, DecodeError>>) -> (payloads: Vec<
    Result<Vec<u8>, DecodeError>,
>)
    ensures
        payloads@.len() == found@.len(),
        forall|i: int|
            0 <= i < found@.len() ==> payload_view(#[trigger] payloads@[i]) == payload_found(
                sample_view(found@[i]),
            ),
        payloads@.map_values(|p: Result<Vec<u8>, DecodeError>| payload_view(p)) == payloads_found(
            found@.map_values(|f: Result<SampledSymbol, DecodeError>| sample_view(f)),
        ),
{
    let mut payloads: Vec<Result<Vec<u8>, DecodeError>> = Vec::new();
    let mut i: usize = 0;
    while i < found.len()
        invariant
            0 <= i <= found@.len(),
            payloads@.len() == i,
            forall|k: int|
                0 <= k < i ==> payload_view(#[trigger] payloads@[k]) == payload_found(
                    sample_view(found@[k]),
                ),
        decreases found@.len() - i,
    {
        payloads.push(decode_symbol(&found[i]));
        i += 1;
    }
    assert(payloads@.map_values(|p: Result<Vec<u8>, DecodeError>| payload_view(p)) =~= payloads_found(
        found@.map_values(|f: Result<SampledSymbol, DecodeError>| sample_view(f)),
    ));
    payloads
}

/// What the located symbols give, one result for each, in their order.
pub open spec fn payloads_found(found: Seq<Result<(int, Seq<u8>), DecodeError>>) -> Seq<
    Result<Seq<u8>, DecodeError>,
> {
    found.map_values(|f: Result<(int, Seq<u8>), DecodeError>| payload_found(f))
}

/// The text of a payload: what its bytes encode, if they are valid UTF-8.
pub open spec fn text_of(payload: Seq<u8>) -> Result<Seq<char>, DecodeError> {
    if valid_utf8(payload) {
        Ok(decode_utf8(payload))
    } else {
        Err(DecodeError::InvalidUtf8)
    }
}

/// The text of one result: that of its payload, or its error.
pub open spec fn text_found(payload: Result<Seq<u8>, DecodeError>) -> Result<Seq<char>, DecodeError> {
    match payload {
        Ok(bytes) => text_of(bytes),
        Err(e) => Err(e),
    }
}

/// The characters of a text, or the error in its place.
pub open spec fn text_view(text: Result<String, DecodeError>) -> Result<Seq<char>, DecodeError> {
    match text {
        Ok(s) => Ok(s@),
        Err(e) => Err(e),
    }
}

/// The text of a payload, or `InvalidUtf8` where its bytes are no UTF-8 text.
pub fn payload_text(payload: &[u8]) -> (text: Result<String, DecodeError>)
    ensures
        text_view(text) == text_of(payload@),
{
    match utf8_str(payload) {
        Some(s) => Ok(String::from_str(s)),
        None => Err(DecodeError::InvalidUtf8),
    }
}

/// The lines that a sequence of results gives: the text of each payload that
/// was read and is UTF-8 text, in order. The other results give no line.
pub open spec fn lines_of(payloads: Seq<Result<Seq<u8>, DecodeError>>) -> Seq<Seq<char>>
    decreases payloads.len(),
{
    if payloads.len() == 0 {
        Seq::<Seq<char>>::empty()
    } else {
        match text_found(payloads.last()) {
            Ok(text) => lines_of(payloads.drop_last()).push(text),
            Err(_) => lines_of(payloads.drop_last()),
        }
    }
}

/// The lines to print for the results of an image: one for each symbol that
/// was read and holds UTF-8 text, in the order of the results.
pub fn decoded_lines(payloads: &Vec<Result<Vec<u8>, DecodeError>>) -> (lines: Vec<String>)
    ensures
        lines@.map_values(|s: String| s@) == lines_of(
            payloads@.map_values(|p: Result<Vec<u8>, DecodeError>| payload_view(p)),
        ),
        payloads@.len() == 0 ==> lines@.len() == 0,
{
    let ghost all = payloads@.map_values(|p: Result<Vec<u8>, DecodeError>| payload_view(p));
    let mut lines: Vec<String> = Vec::new();
    let mut i: usize = 0;
    assert(lines@.map_values(|s: String| s@) =~= lines_of(all.take(0)));
    while i < payloads.len()
        invariant
            all == payloads@.map_values(|p: Result<Vec<u8>, DecodeError>| payload_view(p)),
            0 <= i <= payloads@.len(),
            lines@.map_values(|s: String| s@) == lines_of(all.take(i as int)),
            lines@.len() <= i,
        decreases payloads@.len() - i,
    {
        let ghost before = lines@.map_values(|s: String| s@);
        proof {
            assert(all.take(i + 1).drop_last() =~= all.take(i as int));
            assert(all.take(i + 1).last() == payload_view(payloads@[i as int]));
        }
        match &payloads[i] {
            Ok(bytes) => {
                match payload_text(bytes.as_slice()) {
                    Ok(text) => {
                        lines.push(text);
                        assert(lines@.map_values(|s: String| s@) =~= before.push(text@));
                    },
                    Err(_) => {},
                }
            },
            Err(_) => {},
        }
        i += 1;
    }
    assert(all.take(i as int) =~= all);
    lines
}

} // verus!
