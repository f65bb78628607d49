//! How a value read from a result row is written into the JSON sent back.

use vstd::prelude::*;
use vstd::utf8::{decode_utf8, valid_utf8};
use crate::text::push_str;

verus! {

/// The first decoding of a result cell that succeeded, in the order they are
/// tried: text, signed, unsigned, floating point, boolean, date/time (as its
/// text), bytes; `Unsupported` when none did. `None` stands for SQL NULL. A
/// floating-point cell carries no value here: it is written by the caller.
pub enum DecodedCell {
    Text(Option<String>),
    Signed(Option<i64>),
    Unsigned(Option<u64>),
    Floating,
    Boolean(Option<bool>),
    Temporal(Option<String>),
    Bytes(Option<Vec<u8>>),
    Unsupported,
}

/// What each way of decoding a cell gave: `None` when it does not apply to
/// the cell, else the value read (itself `None` for SQL NULL). For floating
/// point only whether it applies is kept. Date-times, dates and times come as
/// their text.
pub struct DecodeAttempts {
    pub text: Option<Option<String>>,
    pub signed: Option<Option<i64>>,
    pub unsigned: Option<Option<u64>>,
    pub floating: bool,
    pub boolean: Option<Option<bool>>,
    pub date_time: Option<Option<String>>,
    pub date: Option<Option<String>>,
    pub time: Option<Option<String>>,
    pub bytes: Option<Option<Vec<u8>>>,
}

/// The decoding a cell is written by: the first that applies, trying text,
/// signed, unsigned, floating point, boolean, date-time, date, time, bytes in
/// that order; `Unsupported` when none does.
pub open spec fn spec_first_decoding(a: DecodeAttempts) -> DecodedCell {
    if a.text is Some {
        DecodedCell::Text(a.text->0)
    } else if a.signed is Some {
        DecodedCell::Signed(a.signed->0)
    } else if a.unsigned is Some {
        DecodedCell::Unsigned(a.unsigned->0)
    } else if a.floating {
        DecodedCell::Floating
    } else if a.boolean is Some {
        DecodedCell::Boolean(a.boolean->0)
    } else if a.date_time is Some {
        DecodedCell::Temporal(a.date_time->0)
    } else if a.date is Some {
        DecodedCell::Temporal(a.date->0)
    } else if a.time is Some {
        DecodedCell::Temporal(a.time->0)
    } else if a.bytes is Some {
        DecodedCell::Bytes(a.bytes->0)
    } else {
        DecodedCell::Unsupported
    }
}

/// The decoding a cell is written by.
pub fn first_decoding(a: DecodeAttempts) -> (d: DecodedCell)
    ensures
        d == spec_first_decoding(a),
{
    match a.text {
        Some(v) => return DecodedCell::Text(v),
        None => {},
    }
    match a.signed {
        Some(v) => return DecodedCell::Signed(v),
        None => {},
    }
    match a.unsigned {
        Some(v) => return DecodedCell::Unsigned(v),
        None => {},
    }
    if a.floating {
        return DecodedCell::Floating;
    }
    match a.boolean {
        Some(v) => return DecodedCell::Boolean(v),
        None => {},
    }
    match a.date_time {
        Some(v) => return DecodedCell::Temporal(v),
        None => {},
    }
    match a.date {
        Some(v) => return DecodedCell::Temporal(v),
        None => {},
    }
    match a.time {
        Some(v) => return DecodedCell::Temporal(v),
        None => {},
    }
    match a.bytes {
        Some(v) => DecodedCell::Bytes(v),
        None => DecodedCell::Unsupported,
    }
}

/// A JSON value a cell is written as.
pub enum JsonCell {
    Null,
    Text(String),
    Signed(i64),
    Unsigned(u64),
    Boolean(bool),
}

/// The standard Base64 alphabet (RFC 4648): `A`-`Z`, `a`-`z`, `0`-`9`, `+`, `/`.
pub open spec fn base64_alphabet() -> Seq<char> {
    seq!['A', 'B', 'C', 'D', 'E', 'F', 'G', 'H', 'I', 'J', 'K', 'L', 'M', 'N', 'O', 'P', 'Q', 'R', 'S', 'T', 'U', 'V', 'W', 'X', 'Y', 'Z', 'a', 'b', 'c', 'd', 'e', 'f', 'g', 'h', 'i', 'j', 'k', 'l', 'm', 'n', 'o', 'p', 'q', 'r', 's', 't', 'u', 'v', 'w', 'x', 'y', 'z', '0', '1', '2', '3', '4', '5', '6', '7', '8', '9', '+', '/']
}

/// The Base64 character for the six-bit value `v`.
pub open spec fn b64(v: int) -> char {
    base64_alphabet()[v]
}

/// Padded standard Base64 (RFC 4648): each group of three bytes becomes four
/// characters of six bits each; a last group of one or two bytes is padded
/// with zero bits and `=` to four characters.
pub open spec fn spec_base64_standard(bytes: Seq<u8>) -> Seq<char>
    decreases bytes.len(),
{
    if bytes.len() == 0 {
        Seq::empty()
    } else if bytes.len() == 1 {
        let b0 = bytes[0] as int;
        seq![b64(b0 / 4), b64((b0 % 4) * 16), '=', '=']
    } else if bytes.len() == 2 {
        let b0 = bytes[0] as int;
        let b1 = bytes[1] as int;
        seq![b64(b0 / 4), b64((b0 % 4) * 16 + b1 / 16), b64((b1 % 16) * 4), '=']
    } else {
        let b0 = bytes[0] as int;
        let b1 = bytes[1] as int;
        let b2 = bytes[2] as int;
        seq![
            b64(b0 / 4),
            b64((b0 % 4) * 16 + b1 / 16),
            b64((b1 % 16) * 4 + b2 / 64),
            b64(b2 % 64),
        ] + spec_base64_standard(bytes.skip(3))
    }
}

/// The number of characters padded standard Base64 encodes `n` bytes into.
pub open spec fn base64_len(n: nat) -> nat {
    ((n + 2) / 3 * 4) as nat
}

/// The encoding has `base64_len` characters.
pub proof fn lemma_base64_len(bytes: Seq<u8>)
    ensures
        spec_base64_standard(bytes).len() == base64_len(bytes.len()),
    decreases bytes.len(),
{
    if bytes.len() >= 3 {
        lemma_base64_len(bytes.skip(3));
    }
}

/// Encodes `bytes` with `base64::engine::general_purpose::STANDARD`.
///
/// States that the text is the padded standard Base64 encoding of `bytes`
/// (RFC 4648, as `STANDARD` is documented: the standard alphabet with `=`
/// padding). `encode` panics when the encoded length overflows `usize`, which
/// `requires` rules out.
#[verifier::external_body]
fn base64_standard(bytes: &[u8]) -> (t: String)
    requires
        bytes@.len() / 3 * 4 + 4 <= usize::MAX,
    ensures
        t@ == spec_base64_standard(bytes@),
{
    base64::Engine::encode(&base64::engine::general_purpose::STANDARD, bytes)
}

/// Reads `bytes` as UTF-8 text with `std::str::from_utf8`: the text when the
/// bytes are valid UTF-8, else nothing.
#[verifier::external_body]
fn utf8_text(bytes: &[u8]) -> (r: Option<&str>)
    ensures
        r is Some <==> valid_utf8(bytes@),
        r matches Some(t) ==> t@ == decode_utf8(bytes@),
{
    std::str::from_utf8(bytes).ok()
}

/// The text that a cell holding `bytes` is shown as: the bytes read as UTF-8
/// when they are valid UTF-8, else `base64:` followed by their Base64 form.
pub open spec fn spec_bytes_text(bytes: Seq<u8>) -> Seq<char> {
    if valid_utf8(bytes) {
        decode_utf8(bytes)
    } else {
        seq!['b', 'a', 's', 'e', '6', '4', ':'] + spec_base64_standard(bytes)
    }
}

/// The text that a cell holding `bytes` is shown as.
pub fn bytes_text(bytes: &[u8]) -> (t: String)
    requires
        bytes@.len() / 3 * 4 + 4 <= usize::MAX,
    ensures
        t@ == spec_bytes_text(bytes@),
{
    match utf8_text(bytes) {
        Some(text) => text.to_owned(),
        None => {
            let mut t = String::new();
            push_str(&mut t, "base64:");
            proof {
                reveal_strlit("base64:");
            }
            let encoded = base64_standard(bytes);
            push_str(&mut t, encoded.as_str());
            assert(t@ =~= spec_bytes_text(bytes@));
            t
        },
    }
}

/// The JSON value a decoded cell other than a floating-point one is written
/// as: SQL NULL as `null`, numbers
/// and booleans as themselves, text as text, bytes as `spec_bytes_text`, and
/// a cell of no supported type as the text `<unsupported>`.
pub open spec fn spec_cell_json(cell: DecodedCell, out: JsonCell) -> bool {
    match cell {
        DecodedCell::Text(v) | DecodedCell::Temporal(v) => match v {
            Some(s) => out matches JsonCell::Text(t) && t == s,
            None => out is Null,
        },
        DecodedCell::Signed(v) => match v {
            Some(n) => out == JsonCell::Signed(n),
            None => out is Null,
        },
        DecodedCell::Unsigned(v) => match v {
            Some(n) => out == JsonCell::Unsigned(n),
            None => out is Null,
        },
        DecodedCell::Boolean(v) => match v {
            Some(b) => out == JsonCell::Boolean(b),
            None => out is Null,
        },
        DecodedCell::Bytes(v) => match v {
            Some(b) => out matches JsonCell::Text(t) && t@ == spec_bytes_text(b@),
            None => out is Null,
        },
        DecodedCell::Floating => false,
        DecodedCell::Unsupported => out matches JsonCell::Text(t) && t@ == seq![
            '<',
            'u',
            'n',
            's',
            'u',
            'p',
            'p',
            'o',
            'r',
            't',
            'e',
            'd',
            '>',
        ],
    }
}

/// The JSON value a decoded cell is written as.
pub fn cell_json(cell: DecodedCell) -> (out: JsonCell)
    requires
        !(cell is Floating),
        cell matches DecodedCell::Bytes(Some(b)) ==> b@.len() / 3 * 4 + 4 <= usize::MAX,
    ensures
        spec_cell_json(cell, out),
{
    match cell {
        DecodedCell::Text(v) | DecodedCell::Temporal(v) => match v {
            Some(s) => JsonCell::Text(s),
            None => JsonCell::Null,
        },
        DecodedCell::Signed(v) => match v {
            Some(n) => JsonCell::Signed(n),
            None => JsonCell::Null,
        },
        DecodedCell::Unsigned(v) => match v {
            Some(n) => JsonCell::Unsigned(n),
            None => JsonCell::Null,
        },
        DecodedCell::Boolean(v) => match v {
            Some(b) => JsonCell::Boolean(b),
            None => JsonCell::Null,
        },
        DecodedCell::Bytes(v) => match v {
            Some(b) => JsonCell::Text(bytes_text(b.as_slice())),
            None => JsonCell::Null,
        },
        DecodedCell::Floating => JsonCell::Null,
        DecodedCell::Unsupported => {
            proof {
                reveal_strlit("<unsupported>");
            }
            let t = "<unsupported>".to_owned();
            assert(t@ =~= seq!['<', 'u', 'n', 's', 'u', 'p', 'p', 'o', 'r', 't', 'e', 'd', '>']);
            JsonCell::Text(t)
        },
    }
}

/// A cell is written as the value read: text and date/time text as that same
/// text (the empty text included), integers and booleans as themselves. Only
/// a cell read as SQL NULL is written as `null`.
pub proof fn lemma_cell_json_keeps_values(cell: DecodedCell, out: JsonCell)
    requires
        spec_cell_json(cell, out),
    ensures
        cell matches DecodedCell::Text(Some(s)) ==> out matches JsonCell::Text(t) && t == s,
        cell matches DecodedCell::Temporal(Some(s)) ==> out matches JsonCell::Text(t) && t == s,
        cell matches DecodedCell::Signed(Some(n)) ==> out == JsonCell::Signed(n),
        cell matches DecodedCell::Unsigned(Some(n)) ==> out == JsonCell::Unsigned(n),
        cell matches DecodedCell::Boolean(Some(b)) ==> out == JsonCell::Boolean(b),
        cell matches DecodedCell::Bytes(Some(_)) ==> out is Text,
        cell is Unsupported ==> out is Text,
        out is Null <==> {
            ||| cell matches DecodedCell::Text(None)
            ||| cell matches DecodedCell::Temporal(None)
            ||| cell matches DecodedCell::Signed(None)
            ||| cell matches DecodedCell::Unsigned(None)
            ||| cell matches DecodedCell::Boolean(None)
            ||| cell matches DecodedCell::Bytes(None)
        },
{
}

} // verus!
