//! Text sanitizer: turns the raw bytes of an archive entry into text that the
//! parsers can take.  It never fails.

use crate::text::{chars_of, string_of};
use vstd::prelude::*;
use vstd::utf8::{decode_utf8, valid_utf8};

verus! {

/// Control bytes that are neutralised: everything below 0x20 but tab, line
/// feed and carriage return.  (The zero byte is dropped before.)
pub open spec fn is_control_byte(b: u8) -> bool {
    b < 0x20 && b != 0x09 && b != 0x0A && b != 0x0D
}

/// Control characters that are neutralised in text.
pub open spec fn is_control_char(c: char) -> bool {
    (c as u32) < 0x20 && c != '\t' && c != '\n' && c != '\r'
}

/// The bytes without a UTF-8 byte order mark at their start.
pub open spec fn without_bom(b: Seq<u8>) -> Seq<u8> {
    if b.len() >= 3 && b[0] == 0xEF && b[1] == 0xBB && b[2] == 0xBF {
        b.skip(3)
    } else {
        b
    }
}

/// The bytes with every zero byte dropped and every other control byte
/// replaced by one space.
pub open spec fn scrubbed(b: Seq<u8>) -> Seq<u8>
    decreases b.len(),
{
    if b.len() == 0 {
        Seq::empty()
    } else if b.last() == 0 {
        scrubbed(b.drop_last())
    } else if is_control_byte(b.last()) {
        scrubbed(b.drop_last()).push(0x20)
    } else {
        scrubbed(b.drop_last()).push(b.last())
    }
}

/// The text that lossy UTF-8 decoding makes of a byte sequence: invalid
/// sequences are replaced by U+FFFD.
pub uninterp spec fn utf8_lossy(b: Seq<u8>) -> Seq<char>;

/// The sanitized text of a byte buffer.
pub open spec fn sanitized(b: Seq<u8>) -> Seq<char> {
    utf8_lossy(scrubbed(without_bom(b)))
}

/// `String::from_utf8_lossy`: the decoded text is a function of the bytes;
/// on valid UTF-8 it is the text that the bytes encode.
#[verifier::external_body]
fn decode_lossy(bytes: &Vec<u8>) -> (s: String)
    ensures
        s@ == utf8_lossy(bytes@),
        valid_utf8(bytes@) ==> s@ == decode_utf8(bytes@),
{
    String::from_utf8_lossy(bytes).into_owned()
}

/// Drops zero bytes and replaces the other control bytes by spaces, starting
/// at `from`.
fn scrub(bytes: &[u8], from: usize) -> (out: Vec<u8>)
    requires
        from <= bytes.len(),
    ensures
        out@ == scrubbed(bytes@.skip(from as int)),
{
    let mut out: Vec<u8> = Vec::new();
    let mut i: usize = from;
    assert(bytes@.subrange(from as int, from as int) =~= Seq::<u8>::empty());
    while i < bytes.len()
        invariant
            from <= i <= bytes.len(),
            out@ == scrubbed(bytes@.subrange(from as int, i as int)),
        decreases bytes.len() - i,
    {
        let b = bytes[i];
        assert(bytes@.subrange(from as int, i + 1).drop_last() == bytes@.subrange(
            from as int,
            i as int,
        ));
        if b != 0 {
            if b < 0x20 && b != 0x09 && b != 0x0A && b != 0x0D {
                out.push(0x20);
            } else {
                out.push(b);
            }
        }
        i += 1;
    }
    assert(bytes@.subrange(from as int, bytes@.len() as int) == bytes@.skip(from as int));
    out
}

/// Sanitizes raw bytes declared as text: strips a UTF-8 byte order mark,
/// drops zero bytes, replaces every other control byte except tab, line feed
/// and carriage return by a space, and decodes the rest as UTF-8 with invalid
/// sequences replaced.
pub fn sanitize(bytes: &[u8]) -> (text: String)
    ensures
        text@ == sanitized(bytes@),
{
    let from: usize = if bytes.len() >= 3 && bytes[0] == 0xEF && bytes[1] == 0xBB && bytes[2]
        == 0xBF {
        3
    } else {
        0
    };
    assert(bytes@.skip(0) == bytes@);
    let clean = scrub(bytes, from);
    decode_lossy(&clean)
}

/// The text without the byte order marks at its start.
pub open spec fn without_leading_marks(s: Seq<char>) -> Seq<char>
    decreases s.len(),
{
    if s.len() > 0 && s[0] == '\u{feff}' {
        without_leading_marks(s.skip(1))
    } else {
        s
    }
}

/// The character, or a space in place of a control character.
pub open spec fn blanked(c: char) -> char {
    if is_control_char(c) {
        ' '
    } else {
        c
    }
}

/// The text with every U+0000 dropped and every other control character
/// except tab, line feed and carriage return replaced by a space.
pub open spec fn scrubbed_text(s: Seq<char>) -> Seq<char>
    decreases s.len(),
{
    if s.len() == 0 {
        Seq::empty()
    } else if s.last() == '\0' {
        scrubbed_text(s.drop_last())
    } else {
        scrubbed_text(s.drop_last()).push(blanked(s.last()))
    }
}

/// The text without leading byte order marks, without U+0000, and with
/// every other control character except tab, line feed and carriage return
/// replaced by a space.
pub open spec fn cleaned(s: Seq<char>) -> Seq<char> {
    scrubbed_text(without_leading_marks(s))
}

/// `cleaned` on a vector of characters.
pub fn clean_chars(s: &Vec<char>) -> (out: Vec<char>)
    ensures
        out@ == cleaned(s@),
{
    let mut from: usize = 0;
    assert(s@.skip(0) == s@);
    while from < s.len() && s[from] == '\u{feff}'
        invariant
            from <= s.len(),
            without_leading_marks(s@) == without_leading_marks(s@.skip(from as int)),
        decreases s.len() - from,
    {
        assert(s@.skip(from as int).skip(1) == s@.skip(from + 1));
        from += 1;
    }
    let ghost body = s@.skip(from as int);
    let mut out: Vec<char> = Vec::new();
    let mut i: usize = from;
    assert(body.take(0) =~= Seq::<char>::empty());
    while i < s.len()
        invariant
            from <= i <= s.len(),
            body == s@.skip(from as int),
            out@ == scrubbed_text(body.take(i - from)),
        decreases s.len() - i,
    {
        let c = s[i];
        let code: u32 = c as u32;
        assert(body.take(i + 1 - from).drop_last() == body.take(i - from));
        assert(body.take(i + 1 - from).last() == c);
        if c != '\0' {
            let d = if code < 0x20 && c != '\t' && c != '\n' && c != '\r' {
                ' '
            } else {
                c
            };
            out.push(d);
        }
        i += 1;
    }
    assert(body.take(s@.len() - from) == body);
    out
}

/// Cleans a JSON text: removes byte order marks at its start, drops U+0000,
/// and replaces the other control characters, except tab, line feed and
/// carriage return, by spaces.
pub fn clean_json_string(json: &str) -> (out: String)
    ensures
        out@ == cleaned(json@),
{
    let chars = chars_of(json);
    let out = clean_chars(&chars);
    string_of(&out)
}

} // verus!
