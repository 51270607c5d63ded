//! Text to symbol matrix, through the `qrcodegen` crate.

use crate::symbol::{is_square, SymbolMatrix};
use crate::text::{decimal, push_decimal};
use vstd::prelude::*;
use vstd::string::StringExecFns;

verus! {

/// How much of a symbol is given to error correction.
#[derive(Clone, Copy, Debug, PartialEq, Eq, Structural)]
pub enum EccLevel {
    Low,
    Medium,
    Quartile,
    High,
}

/// Why a text has no symbol: it does not fit the largest one at the level asked for.
#[derive(Clone, Copy, Debug, PartialEq, Eq, Structural)]
pub enum EncodeError {
    /// A segment of the text is too long for its length to be written down.
    SegmentTooLong,
    /// The text takes `used_bits`, and the largest symbol holds `capacity_bits`.
    DataOverCapacity { used_bits: usize, capacity_bits: usize },
}

/// What an error says in words.
pub open spec fn encode_error_message(e: EncodeError) -> Seq<char> {
    match e {
        EncodeError::SegmentTooLong => "Segment too long"@,
        EncodeError::DataOverCapacity { used_bits, capacity_bits } => "Data length = "@ + decimal(
            used_bits as nat,
        ) + " bits, Max capacity = "@ + decimal(capacity_bits as nat) + " bits"@,
    }
}

impl EncodeError {
    /// The error in words, with the two bit counts where it has them.
    pub fn message(&self) -> (text: String)
        ensures
            text@ == encode_error_message(*self),
    {
        match self {
            EncodeError::SegmentTooLong => String::from_str("Segment too long"),
            EncodeError::DataOverCapacity { used_bits, capacity_bits } => {
                let mut text = String::from_str("Data length = ");
                push_decimal(&mut text, *used_bits as u64);
                text.append(" bits, Max capacity = ");
                push_decimal(&mut text, *capacity_bits as u64);
                text.append(" bits");
                text
            },
        }
    }
}

/// The type `qrcodegen::QrCode`, a finished symbol. Nothing is known of a
/// value of it but what `code_modules` names.
#[verifier::external_type_specification]
#[verifier::external_body]
pub struct ExQrCode(qrcodegen::QrCode);

/// The modules of a `qrcodegen::QrCode`, as rows from top to bottom, each from
/// left to right, `true` for dark.
pub uninterp spec fn code_modules(code: qrcodegen::QrCode) -> Seq<Seq<bool>>;

/// What `qrcodegen::QrCode::encode_text` makes of a text at a level: the
/// modules of the symbol, or the reason why there is none.
pub uninterp spec fn encoded(text: Seq<char>, level: EccLevel) -> Result<Seq<Seq<bool>>, EncodeError>;

/// Calls `qrcodegen::QrCode::encode_text`. Trusted: the outcome depends on the
/// text and the level alone, and a text of at most 738 characters always has a
/// symbol at the low level, as the crate's documentation promises.
#[verifier::external_body]
fn encode_text(text: &str, level: EccLevel) -> (r: Result<qrcodegen::QrCode, EncodeError>)
    ensures
        encoded(text@, level) == match r {
            Ok(code) => Ok::<Seq<Seq<bool>>, EncodeError>(code_modules(code)),
            Err(e) => Err(e),
        },
        level == EccLevel::Low && text@.len() <= 738 ==> r is Ok,
{
    let ecl = match level {
        EccLevel::Low => qrcodegen::QrCodeEcc::Low,
        EccLevel::Medium => qrcodegen::QrCodeEcc::Medium,
        EccLevel::Quartile => qrcodegen::QrCodeEcc::Quartile,
        EccLevel::High => qrcodegen::QrCodeEcc::High,
    };
    match qrcodegen::QrCode::encode_text(text, ecl) {
        Ok(code) => Ok(code),
        Err(qrcodegen::DataTooLong::SegmentTooLong) => Err(EncodeError::SegmentTooLong),
        Err(qrcodegen::DataTooLong::DataOverCapacity(used_bits, capacity_bits)) => {
            Err(EncodeError::DataOverCapacity { used_bits, capacity_bits })
        },
    }
}

/// Calls `qrcodegen::QrCode::size`. Trusted: the result is the number of rows,
/// every row is that long, and it lies between 21 and 177, four times the
/// version more than 17.
#[verifier::external_body]
fn code_size(code: &qrcodegen::QrCode) -> (n: i32)
    ensures
        n == code_modules(*code).len(),
        21 <= n <= 177,
        (n - 17) % 4 == 0,
        forall|y: int| 0 <= y < n ==> (#[trigger] code_modules(*code)[y]).len() == n,
{
    code.size()
}

/// Calls `qrcodegen::QrCode::get_module`. Trusted: inside the grid the result
/// is the module at column `x` of row `y`, and outside it is `false`.
#[verifier::external_body]
fn code_module(code: &qrcodegen::QrCode, x: i32, y: i32) -> (dark: bool)
    ensures
        dark == (0 <= x < code_modules(*code).len() && 0 <= y < code_modules(*code).len()
            && code_modules(*code)[y as int][x as int]),
{
    code.get_module(x, y)
}

impl SymbolMatrix {
    /// Copies the modules out of a `qrcodegen::QrCode`.
    pub fn from_code(code: &qrcodegen::QrCode) -> (m: SymbolMatrix)
        ensures
            m@ == code_modules(*code),
            is_square(m@),
            21 <= m@.len() <= 177,
            (m@.len() - 17) % 4 == 0,
    {
        let n = code_size(code);
        let ghost grid = code_modules(*code);
        let mut rows: Vec<Vec<bool>> = Vec::new();
        let mut y: i32 = 0;
        while y < n
            invariant
                n == grid.len(),
                grid == code_modules(*code),
                21 <= n <= 177,
                forall|k: int| 0 <= k < n ==> (#[trigger] grid[k]).len() == n,
                0 <= y <= n,
                rows@.len() == y,
                forall|k: int| 0 <= k < y ==> (#[trigger] rows@[k])@ == grid[k],
            decreases n - y,
        {
            let mut row: Vec<bool> = Vec::new();
            let mut x: i32 = 0;
            while x < n
                invariant
                    grid == code_modules(*code),
                    n == grid.len(),
                    0 <= y < n,
                    grid[y as int].len() == n,
                    0 <= x <= n,
                    row@.len() == x,
                    forall|k: int| 0 <= k < x ==> #[trigger] row@[k] == grid[y as int][k],
                decreases n - x,
            {
                row.push(code_module(code, x, y));
                x += 1;
            }
            assert(row@ =~= grid[y as int]);
            rows.push(row);
            y += 1;
        }
        let r = SymbolMatrix::from_rows(rows);
        r.unwrap()
    }
}

/// The symbol for `text` at error-correction level `level`, the smallest
/// that holds it; or the reason why no symbol does.
pub fn encode(text: &str, level: EccLevel) -> (r: Result<SymbolMatrix, EncodeError>)
    ensures
        encoded(text@, level) == match r {
            Ok(m) => Ok::<Seq<Seq<bool>>, EncodeError>(m@),
            Err(e) => Err(e),
        },
        r matches Ok(m) ==> is_square(m@) && 21 <= m@.len() <= 177 && (m@.len() - 17) % 4 == 0,
        level == EccLevel::Low && text@.len() <= 738 ==> r is Ok,
{
    match encode_text(text, level) {
        Ok(code) => Ok(SymbolMatrix::from_code(&code)),
        Err(e) => Err(e),
    }
}

} // verus!
