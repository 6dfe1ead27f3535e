//! Bytes and the texts that they stand for.
use vstd::prelude::*;
use vstd::string::*;
use vstd::utf8::*;

verus! {

/// What `std::str::Utf8Error` says of the bytes that it was raised on.
pub uninterp spec fn utf8_error_text(bytes: Seq<u8>) -> Seq<char>;

/// What `String::from_utf8_lossy` makes of the bytes.
pub uninterp spec fn utf8_lossy_text(bytes: Seq<u8>) -> Seq<char>;

/// Calls `std::str::from_utf8`. It accepts just the valid UTF-8 and gives the characters that the
/// bytes encode. Of anything else it gives an error; `utf8_error_text` names that error's message.
#[verifier::external_body]
fn from_utf8(bytes: &[u8]) -> (text: Result<String, String>)
    ensures
        text is Ok <==> valid_utf8(bytes@),
        text matches Ok(t) ==> t@ == decode_utf8(bytes@),
        text matches Err(e) ==> e@ == utf8_error_text(bytes@),
{
    match std::str::from_utf8(bytes) {
        Ok(text) => Ok(text.to_owned()),
        Err(error) => Err(error.to_string()),
    }
}

/// Calls `String::from_utf8_lossy`, whose result is named `utf8_lossy_text`. Valid UTF-8 comes out
/// as the characters that it encodes; elsewhere replacement characters are put in.
#[verifier::external_body]
fn from_utf8_lossy(bytes: &[u8]) -> (text: String)
    ensures
        text@ == utf8_lossy_text(bytes@),
        valid_utf8(bytes@) ==> text@ == decode_utf8(bytes@),
{
    String::from_utf8_lossy(bytes).into_owned()
}

/// The text that `bytes` encode, or what is wrong with them.
pub fn decode(bytes: &[u8]) -> (text: Result<String, String>)
    ensures
        text is Ok <==> valid_utf8(bytes@),
        text matches Ok(t) ==> t@ == decode_utf8(bytes@),
        text matches Err(e) ==> e@ == utf8_error_text(bytes@),
{
    from_utf8(bytes)
}

/// The text that `bytes` encode, with replacement characters where they encode none.
pub fn decode_lossy(bytes: &[u8]) -> (text: String)
    ensures
        text@ == utf8_lossy_text(bytes@),
        valid_utf8(bytes@) ==> text@ == decode_utf8(bytes@),
{
    from_utf8_lossy(bytes)
}

/// Whether `bytes` are the UTF-8 encoding of `text`.
pub fn encodes(bytes: &[u8], text: &str) -> (same: bool)
    ensures
        same == (bytes@ == encode_utf8(text@)),
{
    let wanted = text.as_bytes();
    if bytes.len() != wanted.len() {
        return false;
    }
    let mut i: usize = 0;
    while i < bytes.len()
        invariant
            i <= bytes@.len() == wanted@.len(),
            wanted@ == encode_utf8(text@),
            forall|k: int| 0 <= k < i ==> bytes@[k] == wanted@[k],
        decreases bytes@.len() - i,
    {
        if bytes[i] != wanted[i] {
            return false;
        }
        i += 1;
    }
    assert(bytes@ =~= wanted@);
    true
}

/// `text` as the bytes of a C string: its UTF-8 encoding and a zero at the end.
pub open spec fn c_string_of(text: Seq<char>) -> Seq<u8> {
    encode_utf8(text).push(0)
}

/// The C string `bytes` has its only zero at the end, so it is read back in full.
pub open spec fn is_c_string(bytes: Seq<u8>) -> bool {
    &&& bytes.len() > 0
    &&& bytes.last() == 0
    &&& forall|i: int| 0 <= i < bytes.len() - 1 ==> #[trigger] bytes[i] != 0
}

/// `text` as the bytes of a C string.
pub fn c_string(text: &str) -> (bytes: Vec<u8>)
    ensures
        bytes@ == c_string_of(text@),
        bytes@.len() == encode_utf8(text@).len() + 1,
        bytes@.drop_last() == encode_utf8(text@),
        bytes@.last() == 0,
{
    let mut bytes = text.as_bytes_vec();
    bytes.push(0);
    assert(bytes@.drop_last() =~= encode_utf8(text@));
    bytes
}

/// A text without the character zero makes a C string that is read back in full.
pub proof fn texts_without_zero_are_c_strings(text: Seq<char>)
    requires
        forall|i: int| 0 <= i < text.len() ==> #[trigger] text[i] != '\0',
    ensures
        is_c_string(c_string_of(text)),
        decode_utf8(c_string_of(text).drop_last()) == text,
{
    lemma_encoding_has_no_zero(text);
    encode_utf8_decode_utf8(text);
    assert(c_string_of(text).drop_last() =~= encode_utf8(text));
}

proof fn lemma_encoding_has_no_zero(text: Seq<char>)
    requires
        forall|i: int| 0 <= i < text.len() ==> #[trigger] text[i] != '\0',
    ensures
        forall|i: int| 0 <= i < encode_utf8(text).len() ==> #[trigger] encode_utf8(text)[i] != 0,
    decreases text.len(),
{
    if text.len() > 0 {
        let rest = text.drop_first();
        assert forall|i: int| 0 <= i < rest.len() implies #[trigger] rest[i] != '\0' by {
            assert(rest[i] == text[i + 1]);
        }
        lemma_encoding_has_no_zero(rest);
        let first_char: char = text[0];
        let c: u32 = first_char as u32;
        char_is_scalar(first_char);
        char_u32_cast(first_char, c);
        assert(c != 0);
        let first = encode_scalar(c);
        assert forall|i: int| 0 <= i < first.len() implies #[trigger] first[i] != 0 by {
            assert(c <= 0x7f && c != 0 ==> (c & 0x7F) as u8 != 0) by (bit_vector);
            let b: u8 = ((c >> 6) & 0x1F) as u8;
            let d: u8 = ((c >> 12) & 0x0F) as u8;
            let e: u8 = ((c >> 18) & 0x7) as u8;
            let f: u8 = (c & 0x3F) as u8;
            let g: u8 = ((c >> 6) & 0x3F) as u8;
            let h: u8 = ((c >> 12) & 0x3F) as u8;
            assert(0xC0 | b != 0 && 0xE0 | d != 0 && 0xF0 | e != 0 && 0x80 | f != 0 && 0x80 | g != 0
                && 0x80 | h != 0) by (bit_vector);
        }
        assert forall|i: int| 0 <= i < encode_utf8(text).len() implies #[trigger] encode_utf8(
            text,
        )[i] != 0 by {
            if i < first.len() {
                assert(encode_utf8(text)[i] == first[i]);
            } else {
                assert(encode_utf8(text)[i] == encode_utf8(rest)[i - first.len()]);
            }
        }
    }
}

} // verus!
