//! The persisted lifetime total as text: what is written to the slot that
//! holds it, and how what is found there is read.

use vstd::prelude::*;
use crate::decimal::{
    decimal,
    integer_of,
    is_digit,
    lemma_decimal_denotes,
    lemma_read_back,
    parse_signed,
    render_signed,
    signed_decimal,
};
use crate::time_handler::fits_i64;
use crate::trim::{is_space, lemma_trimmed_fixed, trim, trim_end, trim_start, trimmed};

verus! {

/// Name of the directory, under the user's home, that holds the slot.
pub const LOG_DIR: &'static str = ".tmr";

/// Name of the file in that directory that is the slot.
pub const LOG_FILE: &'static str = "time_log.txt";

/// Why what the slot holds could not be read as a lifetime total.
#[derive(Clone, Copy, Debug, PartialEq, Eq, Structural)]
pub enum StoreError {
    /// The content is not a decimal integer that an `i64` can hold.
    Malformed,
}

/// What is persisted for a lifetime total of `v`: its decimal text and a line
/// feed.
pub open spec fn stored_text(v: int) -> Seq<char> {
    signed_decimal(v) + seq!['\n']
}

/// The content read from a slot that holds `raw`, or that holds nothing yet
/// (`None`): `raw` without the white space at its ends, and a lone zero for
/// an empty slot.
pub open spec fn content_of(raw: Option<Seq<char>>) -> Seq<char> {
    match raw {
        Some(text) => trimmed(text),
        None => seq!['0'],
    }
}

/// The lifetime total that `content` stands for: the integer it denotes once
/// white space at its ends is gone, where an `i64` can hold that integer.
pub open spec fn total_of(content: Seq<char>) -> Result<i64, StoreError> {
    match integer_of(trimmed(content)) {
        Some(v) => if fits_i64(v) {
            Ok(v as i64)
        } else {
            Err(StoreError::Malformed)
        },
        None => Err(StoreError::Malformed),
    }
}

/// The text to persist for a lifetime total of `content`.
pub fn save_to_file(content: i64) -> (text: String)
    ensures
        text@ == stored_text(content as int),
{
    proof {
        reveal_strlit("\n");
        assert("\n"@ =~= seq!['\n']);
    }
    let mut text = render_signed(content);
    text.append("\n");
    text
}

/// The text to persist for a lifetime total of zero.
pub fn reset_file() -> (text: String)
    ensures
        text@ == stored_text(0),
{
    save_to_file(0)
}

/// The content of the slot, given the text `raw` that it holds, or `None`
/// where it holds nothing yet.
pub fn read_from_file(raw: Option<&str>) -> (content: String)
    ensures
        content@ == content_of(
            match raw {
                Some(text) => Some(text@),
                None => None,
            },
        ),
{
    match raw {
        Some(text) => String::from_str(trim(text)),
        None => {
            proof {
                reveal_strlit("0");
                assert("0"@ =~= seq!['0']);
            }
            String::from_str("0")
        },
    }
}

/// Reads a lifetime total from the content of the slot. Fails on any content
/// that is not, white space at its ends aside, a decimal integer within the
/// range of `i64`.
pub fn parse_total(content: &str) -> (r: Result<i64, StoreError>)
    ensures
        r == total_of(content@),
{
    match parse_signed(trim(content)) {
        Some(v) => Ok(v),
        None => Err(StoreError::Malformed),
    }
}

/// The decimal text of an integer neither begins nor ends with white space.
proof fn lemma_decimal_text_has_no_margin(v: int)
    ensures
        signed_decimal(v).len() > 0,
        !is_space(signed_decimal(v)[0]),
        !is_space(signed_decimal(v).last()),
{
    let magnitude = (if v < 0 {
        -v
    } else {
        v
    }) as nat;
    lemma_decimal_denotes(magnitude);
    let digits = decimal(magnitude);
    assert(is_digit(digits[0]));
    assert(is_digit(digits[digits.len() - 1]));
}

/// What was written is what is read: the text persisted for a total `v`
/// reads back as `v`.
pub proof fn lemma_write_then_read(v: i64)
    ensures
        total_of(content_of(Some(stored_text(v as int)))) == Ok::<i64, StoreError>(v),
{
    let text = signed_decimal(v as int);
    let stored = stored_text(v as int);
    lemma_decimal_text_has_no_margin(v as int);
    lemma_read_back(v as int);
    assert(stored[0] == text[0]);
    assert(trim_start(stored) == stored);
    assert(stored.last() == '\n');
    assert(stored.drop_last() =~= text);
    assert(trim_end(stored) == trim_end(text));
    assert(trim_end(text) == text);
    assert(trimmed(stored) == text);
    lemma_trimmed_fixed(text);
}

/// After a reset the slot reads as zero, whatever it held before.
pub proof fn lemma_reset_then_read()
    ensures
        total_of(content_of(Some(stored_text(0)))) == Ok::<i64, StoreError>(0),
{
    lemma_write_then_read(0);
}

/// A slot that holds nothing yet reads as zero.
pub proof fn lemma_empty_slot_reads_zero()
    ensures
        total_of(content_of(None)) == Ok::<i64, StoreError>(0),
{
    let zero = seq!['0'];
    assert(zero =~= signed_decimal(0));
    lemma_decimal_text_has_no_margin(0);
    lemma_trimmed_fixed(zero);
    lemma_read_back(0);
}

} // verus!
