//! The prompt envelope: how a prompt and its reply travel between the
//! helper and the listener. An envelope is the length of the text in four
//! bytes, most significant first, then the text in UTF-8.

use vstd::prelude::*;
use vstd::utf8::{decode_utf8, encode_utf8, valid_utf8};

verus! {

/// The most bytes that the text of an envelope may have.
pub const MAX_TEXT_LEN: usize = 65536;

/// The four bytes that write `n`, most significant first.
pub open spec fn be32(n: nat) -> Seq<u8> {
    seq![
        (n / 0x100_0000 % 0x100) as u8,
        (n / 0x1_0000 % 0x100) as u8,
        (n / 0x100 % 0x100) as u8,
        (n % 0x100) as u8,
    ]
}

/// The number that the first four bytes of `b` write, most significant
/// first.
pub open spec fn be32_value(b: Seq<u8>) -> nat {
    (b[0] * 0x100_0000 + b[1] * 0x1_0000 + b[2] * 0x100 + b[3]) as nat
}

/// The envelope around the bytes `payload`.
pub open spec fn frame(payload: Seq<u8>) -> Seq<u8> {
    be32(payload.len()) + payload
}

/// The error for a text that is too long to send.
pub open spec fn msg_reply_too_large() -> Seq<char> {
    "Askpass reply too large"@
}

/// The error for an envelope that announces too long a text.
pub open spec fn msg_prompt_too_large() -> Seq<char> {
    "Askpass prompt too large"@
}

/// The error for an envelope that ends before its length does.
pub open spec fn msg_short_length() -> Seq<char> {
    "Failed to read prompt length"@
}

/// The error for an envelope that ends before its text does.
pub open spec fn msg_short_text() -> Seq<char> {
    "Failed to read prompt"@
}

/// The error for a text that is not UTF-8.
pub open spec fn msg_not_utf8() -> Seq<char> {
    "Askpass prompt was not UTF-8"@
}

/// The envelope that carries `text`; a text of more than
/// [`MAX_TEXT_LEN`] bytes is refused.
pub open spec fn written(text: Seq<char>) -> Result<Seq<u8>, Seq<char>> {
    let payload = encode_utf8(text);
    if payload.len() > MAX_TEXT_LEN {
        Err(msg_reply_too_large())
    } else {
        Ok(frame(payload))
    }
}

/// The length that the four bytes `header` announce; more than
/// [`MAX_TEXT_LEN`] is refused.
pub open spec fn announced(header: Seq<u8>) -> Result<nat, Seq<char>> {
    if be32_value(header) > MAX_TEXT_LEN {
        Err(msg_prompt_too_large())
    } else {
        Ok(be32_value(header))
    }
}

/// The text that the bytes `payload` encode, if they are UTF-8.
pub open spec fn text_of(payload: Seq<u8>) -> Result<Seq<char>, Seq<char>> {
    if valid_utf8(payload) {
        Ok(decode_utf8(payload))
    } else {
        Err(msg_not_utf8())
    }
}

/// The text that the envelope at the start of `bytes` carries.
pub open spec fn read(bytes: Seq<u8>) -> Result<Seq<char>, Seq<char>> {
    if bytes.len() < 4 {
        Err(msg_short_length())
    } else {
        match announced(bytes.take(4)) {
            Err(e) => Err(e),
            Ok(n) => if bytes.len() - 4 < n {
                Err(msg_short_text())
            } else {
                text_of(bytes.subrange(4, 4 + n as int))
            },
        }
    }
}

/// The views of a result that holds bytes.
pub open spec fn bytes_view(r: Result<Vec<u8>, String>) -> Result<Seq<u8>, Seq<char>> {
    match r {
        Ok(b) => Ok(b@),
        Err(e) => Err(e@),
    }
}

/// The views of a result that holds a text.
pub open spec fn text_view(r: Result<String, String>) -> Result<Seq<char>, Seq<char>> {
    match r {
        Ok(s) => Ok(s@),
        Err(e) => Err(e@),
    }
}

/// The view of a result that holds a length.
pub open spec fn length_view(r: Result<usize, String>) -> Result<nat, Seq<char>> {
    match r {
        Ok(n) => Ok(n as nat),
        Err(e) => Err(e@),
    }
}

/// `String::from_utf8`: the text that the bytes encode where they are
/// UTF-8, and an error where they are not.
#[verifier::external_body]
fn utf8_text(bytes: Vec<u8>) -> (r: Option<String>)
    ensures
        match r {
            Some(s) => valid_utf8(bytes@) && s@ == decode_utf8(bytes@),
            None => !valid_utf8(bytes@),
        },
{
    String::from_utf8(bytes).ok()
}

/// Writes the envelope that carries `value`.
///
/// Fails for a text of more than [`MAX_TEXT_LEN`] bytes, and for no other.
pub fn write_reply(value: &str) -> (r: Result<Vec<u8>, String>)
    ensures
        bytes_view(r) == written(value@),
{
    let payload = value.as_bytes();
    if payload.len() > MAX_TEXT_LEN {
        return Err("Askpass reply too large".to_owned());
    }
    let n: u32 = payload.len() as u32;
    let mut out: Vec<u8> = Vec::new();
    out.push((n / 0x100_0000 % 0x100) as u8);
    out.push((n / 0x1_0000 % 0x100) as u8);
    out.push((n / 0x100 % 0x100) as u8);
    out.push((n % 0x100) as u8);
    assert(out@ =~= be32(payload@.len()));
    let mut i: usize = 0;
    while i < payload.len()
        invariant
            i <= payload.len(),
            out@ == be32(payload@.len()) + payload@.take(i as int),
        decreases payload.len() - i,
    {
        out.push(payload[i]);
        i += 1;
        assert(out@ =~= be32(payload@.len()) + payload@.take(i as int));
    }
    assert(payload@.take(i as int) == payload@);
    Ok(out)
}

/// Reads the length of the text from the first four bytes of an envelope.
///
/// Fails for a length of more than [`MAX_TEXT_LEN`], and for no other.
pub fn prompt_length(header: [u8; 4]) -> (r: Result<usize, String>)
    ensures
        length_view(r) == announced(header@),
{
    let n: u32 = (header[0] as u32) * 0x100_0000 + (header[1] as u32) * 0x1_0000 + (
    header[2] as u32) * 0x100 + (header[3] as u32);
    if n > 65536 {
        return Err("Askpass prompt too large".to_owned());
    }
    Ok(n as usize)
}

/// Reads the text of an envelope from the bytes behind its length.
///
/// Fails for bytes that are not UTF-8, and for no other.
pub fn prompt_text(payload: Vec<u8>) -> (r: Result<String, String>)
    ensures
        text_view(r) == text_of(payload@),
{
    match utf8_text(payload) {
        Some(text) => Ok(text),
        None => Err("Askpass prompt was not UTF-8".to_owned()),
    }
}

/// Reads the text that the envelope at the start of `bytes` carries. Bytes
/// behind the envelope are not read.
///
/// Fails where `bytes` ends before the envelope does, where the envelope
/// announces more than [`MAX_TEXT_LEN`] bytes, and where its text is not
/// UTF-8.
pub fn read_prompt(bytes: &[u8]) -> (r: Result<String, String>)
    ensures
        text_view(r) == read(bytes@),
{
    if bytes.len() < 4 {
        return Err("Failed to read prompt length".to_owned());
    }
    let header: [u8; 4] = [bytes[0], bytes[1], bytes[2], bytes[3]];
    assert(header@ =~= bytes@.take(4));
    let n = match prompt_length(header) {
        Ok(n) => n,
        Err(e) => {
            return Err(e);
        },
    };
    if bytes.len() - 4 < n {
        return Err("Failed to read prompt".to_owned());
    }
    let mut payload: Vec<u8> = Vec::new();
    let mut i: usize = 0;
    while i < n
        invariant
            i <= n,
            4 + n <= bytes.len(),
            payload@ == bytes@.subrange(4, 4 + i),
        decreases n - i,
    {
        payload.push(bytes[4 + i]);
        i += 1;
        assert(payload@ =~= bytes@.subrange(4, 4 + i));
    }
    prompt_text(payload)
}

proof fn lemma_be32_value(n: nat)
    requires
        n <= u32::MAX,
    ensures
        be32_value(be32(n)) == n,
        be32(n).len() == 4,
{
}

/// A text of at most [`MAX_TEXT_LEN`] bytes that is written into an
/// envelope is read back from it unchanged, whatever follows the envelope;
/// a longer text is refused when it is written.
pub proof fn lemma_round_trip(text: Seq<char>, rest: Seq<u8>)
    ensures
        encode_utf8(text).len() <= MAX_TEXT_LEN ==> written(text) is Ok && read(
            written(text)->Ok_0 + rest,
        ) == Ok::<Seq<char>, Seq<char>>(text),
        encode_utf8(text).len() > MAX_TEXT_LEN ==> written(text) == Err::<Seq<u8>, Seq<char>>(
            msg_reply_too_large(),
        ),
{
    let payload = encode_utf8(text);
    if payload.len() <= MAX_TEXT_LEN {
        let bytes = frame(payload) + rest;
        lemma_be32_value(payload.len());
        assert(bytes.take(4) =~= be32(payload.len()));
        assert(bytes.subrange(4, 4 + payload.len() as int) =~= payload);
        vstd::utf8::encode_utf8_valid_utf8(text);
        vstd::utf8::encode_utf8_decode_utf8(text);
    }
}

} // verus!
