//! Percent-encoding of text, leaving only the unreserved characters of RFC 3986 as they are.
use percent_encoding::percent_encode_byte;
use vstd::prelude::*;

verus! {

/// Whether `byte` is the ASCII code of a letter, a digit, `-`, `.`, `_` or `~`.
pub open spec fn is_unreserved(byte: u8) -> bool {
    ||| 0x41 <= byte <= 0x5A
    ||| 0x61 <= byte <= 0x7A
    ||| 0x30 <= byte <= 0x39
    ||| byte == 0x2D
    ||| byte == 0x2E
    ||| byte == 0x5F
    ||| byte == 0x7E
}

/// The upper-case hexadecimal digit for a number below sixteen.
pub open spec fn upper_hex(n: u8) -> char
    recommends
        n < 16,
{
    if n < 10 {
        (0x30 + n) as char
    } else {
        (0x37 + n) as char
    }
}

/// A percent sign and the two hexadecimal digits of `byte`.
pub open spec fn escaped(byte: u8) -> Seq<char> {
    seq!['%', upper_hex(byte / 16), upper_hex(byte % 16)]
}

/// The encoding of one byte.
pub open spec fn encoded_byte(byte: u8) -> Seq<char> {
    if is_unreserved(byte) {
        seq![byte as char]
    } else {
        escaped(byte)
    }
}

/// The encodings of all `bytes`, one after the other.
pub open spec fn encoded_bytes(bytes: Seq<u8>) -> Seq<char>
    decreases bytes.len(),
{
    if bytes.len() == 0 {
        Seq::empty()
    } else {
        encoded_byte(bytes[0]) + encoded_bytes(bytes.skip(1))
    }
}

/// The percent-encoding of `text`: that of the bytes of its UTF-8 form.
pub open spec fn percent_encoded(text: Seq<char>) -> Seq<char> {
    encoded_bytes(vstd::utf8::encode_utf8(text))
}

/// Whether `c` is an unreserved character.
pub open spec fn is_unreserved_char(c: char) -> bool {
    '\0' <= c <= '\u{7f}' && is_unreserved(c as u8)
}

/// Whether `c` can occur in encoded text.
pub open spec fn is_encoding_char(c: char) -> bool {
    c == '%' || is_unreserved_char(c)
}

/// Trusted: `percent_encoding::percent_encode_byte` returns a percent sign followed by the two
/// upper-case hexadecimal digits of the byte, for every byte.
pub assume_specification[ percent_encode_byte ](byte: u8) -> (text: &'static str)
    ensures
        text@ == escaped(byte),
;

/// Appends the percent-encoding of `text` to `out`.
pub fn push_percent_encoded(out: &mut String, text: &str)
    ensures
        final(out)@ == old(out)@ + percent_encoded(text@),
{
    let bytes = text.as_bytes();
    let ghost before = out@;
    let mut i: usize = 0;
    assert(bytes@.skip(0) == bytes@);
    while i < bytes.len()
        invariant
            i <= bytes@.len(),
            before + encoded_bytes(bytes@) == out@ + encoded_bytes(bytes@.skip(i as int)),
        decreases bytes@.len() - i,
    {
        let byte = bytes[i];
        let ghost rest = bytes@.skip(i as int);
        assert(rest.skip(1) == bytes@.skip(i + 1));
        let ghost so_far = out@;
        if is_unreserved_byte(byte) {
            out.push(byte as char);
            assert(out@ == so_far + encoded_byte(byte));
        } else {
            out.append(percent_encode_byte(byte));
        }
        assert(so_far + encoded_bytes(rest) == out@ + encoded_bytes(rest.skip(1)));
        i += 1;
    }
}

/// Tells whether `byte` is left as it is.
fn is_unreserved_byte(byte: u8) -> (result: bool)
    ensures
        result == is_unreserved(byte),
{
    (0x41 <= byte && byte <= 0x5A) || (0x61 <= byte && byte <= 0x7A) || (0x30 <= byte && byte
        <= 0x39) || byte == 0x2D || byte == 0x2E || byte == 0x5F || byte == 0x7E
}

/// Encoded text holds only unreserved characters and percent signs. In particular it holds none
/// of `*`, `/`, `'`, `,` and `=`.
pub proof fn law_encoded_text_is_plain(text: Seq<char>)
    ensures
        forall|i: int|
            0 <= i < percent_encoded(text).len() ==> is_encoding_char(
                #[trigger] percent_encoded(text)[i],
            ),
        forall|c: char| #[trigger]
            is_encoding_char(c) ==> c != '*' && c != '/' && c != '\'' && c != ',' && c != '=',
{
    lemma_encoded_bytes_are_plain(vstd::utf8::encode_utf8(text));
}

proof fn lemma_encoded_bytes_are_plain(bytes: Seq<u8>)
    ensures
        forall|i: int|
            0 <= i < encoded_bytes(bytes).len() ==> is_encoding_char(
                #[trigger] encoded_bytes(bytes)[i],
            ),
    decreases bytes.len(),
{
    if bytes.len() > 0 {
        let head = encoded_byte(bytes[0]);
        let tail = encoded_bytes(bytes.skip(1));
        lemma_encoded_bytes_are_plain(bytes.skip(1));
        assert forall|i: int| 0 <= i < encoded_bytes(bytes).len() implies is_encoding_char(
            #[trigger] encoded_bytes(bytes)[i],
        ) by {
            if i < head.len() {
                assert(encoded_bytes(bytes)[i] == head[i]);
            } else {
                assert(encoded_bytes(bytes)[i] == tail[i - head.len()]);
            }
        }
    }
}

/// Text that holds only unreserved characters is encoded as itself.
pub proof fn law_unreserved_text_is_kept(text: Seq<char>)
    requires
        forall|i: int| 0 <= i < text.len() ==> is_unreserved_char(#[trigger] text[i]),
    ensures
        percent_encoded(text) == text,
{
    let bytes = vstd::utf8::encode_utf8(text);
    vstd::utf8::is_ascii_chars_encode_utf8(text);
    lemma_unreserved_bytes_are_kept(bytes);
    assert(percent_encoded(text) == text);
}

proof fn lemma_unreserved_bytes_are_kept(bytes: Seq<u8>)
    requires
        forall|i: int| 0 <= i < bytes.len() ==> is_unreserved(#[trigger] bytes[i]),
    ensures
        encoded_bytes(bytes) == Seq::new(bytes.len(), |i: int| bytes[i] as char),
    decreases bytes.len(),
{
    if bytes.len() > 0 {
        lemma_unreserved_bytes_are_kept(bytes.skip(1));
    }
}

/// Whether `c` is an upper-case hexadecimal digit.
pub open spec fn is_hex_digit(c: char) -> bool {
    '0' <= c <= '9' || 'A' <= c <= 'F'
}

/// The number that an upper-case hexadecimal digit stands for.
pub open spec fn hex_value(c: char) -> u8 {
    if c <= '9' {
        (c as u8 - 0x30) as u8
    } else {
        (c as u8 - 0x37) as u8
    }
}

/// The bytes that encoded text stands for: each escape for the byte that its digits give, and each
/// other character for its ASCII code.
pub open spec fn decoded_bytes(text: Seq<char>) -> Seq<u8>
    decreases text.len(),
{
    if text.len() == 0 {
        Seq::empty()
    } else if text[0] == '%' && text.len() >= 3 && is_hex_digit(text[1]) && is_hex_digit(text[2]) {
        seq![(hex_value(text[1]) * 16 + hex_value(text[2])) as u8] + decoded_bytes(text.skip(3))
    } else {
        seq![text[0] as u8] + decoded_bytes(text.skip(1))
    }
}

/// The text that encoded text stands for.
pub open spec fn percent_decoded(text: Seq<char>) -> Seq<char> {
    vstd::utf8::decode_utf8(decoded_bytes(text))
}

/// Decoding gives back the text that was encoded.
pub proof fn law_decoding_undoes_encoding(text: Seq<char>)
    ensures
        percent_decoded(percent_encoded(text)) == text,
{
    lemma_decoding_undoes_encoding_of_bytes(vstd::utf8::encode_utf8(text));
    vstd::utf8::encode_utf8_decode_utf8(text);
}

proof fn lemma_decoding_undoes_encoding_of_bytes(bytes: Seq<u8>)
    ensures
        decoded_bytes(encoded_bytes(bytes)) == bytes,
    decreases bytes.len(),
{
    if bytes.len() > 0 {
        let byte = bytes[0];
        let rest = bytes.skip(1);
        let text = encoded_bytes(bytes);
        lemma_decoding_undoes_encoding_of_bytes(rest);
        assert(bytes == seq![byte] + rest);
        if is_unreserved(byte) {
            assert(text[0] == byte as char);
            assert(text.skip(1) == encoded_bytes(rest));
        } else {
            assert(text[0] == '%' && text[1] == upper_hex(byte / 16) && text[2] == upper_hex(
                byte % 16,
            ));
            assert(text.skip(3) == encoded_bytes(rest));
            lemma_hex_value_of_upper_hex(byte / 16);
            lemma_hex_value_of_upper_hex(byte % 16);
        }
    }
}

proof fn lemma_hex_value_of_upper_hex(n: u8)
    requires
        n < 16,
    ensures
        is_hex_digit(upper_hex(n)),
        hex_value(upper_hex(n)) == n,
{
}

/// Different texts have different encodings.
pub proof fn law_encoding_is_injective(a: Seq<char>, b: Seq<char>)
    requires
        percent_encoded(a) == percent_encoded(b),
    ensures
        a == b,
{
    law_decoding_undoes_encoding(a);
    law_decoding_undoes_encoding(b);
}

/// Bytes are encoded each on its own, whatever stands around them.
pub proof fn law_bytes_are_encoded_one_by_one(a: Seq<u8>, b: Seq<u8>)
    ensures
        encoded_bytes(Seq::empty()) == Seq::<char>::empty(),
        encoded_bytes(a + b) == encoded_bytes(a) + encoded_bytes(b),
    decreases a.len(),
{
    if a.len() == 0 {
        assert(a + b == b);
    } else {
        law_bytes_are_encoded_one_by_one(a.skip(1), b);
        assert((a + b).skip(1) == a.skip(1) + b);
        assert((a + b)[0] == a[0]);
    }
}

/// A byte is encoded as itself if it is the code of an ASCII letter or digit or of `-`, `.`, `_`
/// or `~`. Any other byte is encoded as a percent sign and the two digits of its number to the
/// base sixteen.
pub proof fn law_byte_is_kept_or_escaped(byte: u8)
    ensures
        ({
            let c = byte as char;
            encoded_bytes(seq![byte]) == if 'A' <= c <= 'Z' || 'a' <= c <= 'z' || '0' <= c <= '9'
                || c == '-' || c == '.' || c == '_' || c == '~' {
                seq![c]
            } else {
                seq!['%', "0123456789ABCDEF"@[byte as int / 16], "0123456789ABCDEF"@[byte as int
                    % 16]]
            }
        }),
{
    lemma_upper_hex_digits();
    reveal_with_fuel(encoded_bytes, 2);
    assert(seq![byte].skip(1) == Seq::<u8>::empty());
}

proof fn lemma_upper_hex_digits()
    ensures
        forall|n: u8| n < 16 ==> #[trigger] upper_hex(n) == "0123456789ABCDEF"@[n as int],
{
    reveal_strlit("0123456789ABCDEF");
}

/// Text is encoded by encoding the bytes of its UTF-8 form, so the encoding of a longer text is that
/// of its parts, one after the other.
pub proof fn law_text_is_encoded_part_by_part(a: Seq<char>, b: Seq<char>)
    ensures
        percent_encoded(a) == encoded_bytes(vstd::utf8::encode_utf8(a)),
        percent_encoded(Seq::empty()) == Seq::<char>::empty(),
        percent_encoded(a + b) == percent_encoded(a) + percent_encoded(b),
{
    lemma_utf8_goes_part_by_part(a, b);
    law_bytes_are_encoded_one_by_one(vstd::utf8::encode_utf8(a), vstd::utf8::encode_utf8(b));
}

proof fn lemma_utf8_goes_part_by_part(a: Seq<char>, b: Seq<char>)
    ensures
        vstd::utf8::encode_utf8(a + b) == vstd::utf8::encode_utf8(a) + vstd::utf8::encode_utf8(b),
    decreases a.len(),
{
    if a.len() == 0 {
        assert(a + b == b);
    } else {
        lemma_utf8_goes_part_by_part(a.drop_first(), b);
        assert((a + b).drop_first() == a.drop_first() + b);
        assert((a + b)[0] == a[0]);
    }
}

/// The encoding of a text is made of what each byte of its UTF-8 form is encoded as: the character
/// itself for an ASCII letter or digit, `-`, `.`, `_` and `~`, and for anything else a percent sign
/// and the two digits of the byte to the base sixteen.
pub proof fn law_text_is_encoded_byte_by_byte(text: Seq<char>)
    ensures
        percent_encoded(text) == vstd::utf8::encode_utf8(text).map_values(
            |byte: u8|
                {
                    let c = byte as char;
                    if 'A' <= c <= 'Z' || 'a' <= c <= 'z' || '0' <= c <= '9' || c == '-' || c == '.'
                        || c == '_' || c == '~' {
                        seq![c]
                    } else {
                        seq!['%', "0123456789ABCDEF"@[byte as int / 16],
                            "0123456789ABCDEF"@[byte as int % 16]]
                    }
                },
        ).flatten(),
{
    let pieces = |byte: u8|
        {
            let c = byte as char;
            if 'A' <= c <= 'Z' || 'a' <= c <= 'z' || '0' <= c <= '9' || c == '-' || c == '.' || c
                == '_' || c == '~' {
                seq![c]
            } else {
                seq!['%', "0123456789ABCDEF"@[byte as int / 16], "0123456789ABCDEF"@[byte as int
                    % 16]]
            }
        };
    assert forall|byte: u8| #[trigger] encoded_byte(byte) == pieces(byte) by {
        lemma_upper_hex_digits();
    }
    lemma_encoding_is_flat(vstd::utf8::encode_utf8(text), pieces);
}

proof fn lemma_encoding_is_flat(bytes: Seq<u8>, pieces: spec_fn(u8) -> Seq<char>)
    requires
        forall|byte: u8| #[trigger] encoded_byte(byte) == pieces(byte),
    ensures
        encoded_bytes(bytes) == bytes.map_values(pieces).flatten(),
    decreases bytes.len(),
{
    if bytes.len() > 0 {
        lemma_encoding_is_flat(bytes.skip(1), pieces);
        assert(bytes.map_values(pieces).drop_first() == bytes.skip(1).map_values(pieces));
    }
}

/// In encoded text every percent sign is followed by two upper-case hexadecimal digits.
pub proof fn law_every_percent_sign_begins_an_escape(text: Seq<char>)
    ensures
        forall|i: int|
            0 <= i < percent_encoded(text).len() && #[trigger] percent_encoded(text)[i] == '%' ==> {
                &&& i + 2 < percent_encoded(text).len()
                &&& "0123456789ABCDEF"@.contains(percent_encoded(text)[i + 1])
                &&& "0123456789ABCDEF"@.contains(percent_encoded(text)[i + 2])
            },
{
    lemma_every_percent_sign_begins_an_escape(vstd::utf8::encode_utf8(text));
}

proof fn lemma_every_percent_sign_begins_an_escape(bytes: Seq<u8>)
    ensures
        forall|i: int|
            0 <= i < encoded_bytes(bytes).len() && #[trigger] encoded_bytes(bytes)[i] == '%' ==> {
                &&& i + 2 < encoded_bytes(bytes).len()
                &&& "0123456789ABCDEF"@.contains(encoded_bytes(bytes)[i + 1])
                &&& "0123456789ABCDEF"@.contains(encoded_bytes(bytes)[i + 2])
            },
    decreases bytes.len(),
{
    if bytes.len() > 0 {
        let text = encoded_bytes(bytes);
        let head = encoded_byte(bytes[0]);
        let tail = encoded_bytes(bytes.skip(1));
        reveal_strlit("0123456789ABCDEF");
        lemma_upper_hex_digits();
        lemma_every_percent_sign_begins_an_escape(bytes.skip(1));
        assert forall|i: int| 0 <= i < text.len() && #[trigger] text[i] == '%' implies {
            &&& i + 2 < text.len()
            &&& "0123456789ABCDEF"@.contains(text[i + 1])
            &&& "0123456789ABCDEF"@.contains(text[i + 2])
        } by {
            if i >= head.len() {
                let j = i - head.len();
                assert(text[i] == tail[j]);
                assert(text[i + 1] == tail[j + 1] && text[i + 2] == tail[j + 2]);
            } else {
                assert(text[i] == head[i]);
                assert(i == 0 && head == escaped(bytes[0]));
                assert(text[1] == "0123456789ABCDEF"@[(bytes[0] / 16) as int]);
                assert(text[2] == "0123456789ABCDEF"@[(bytes[0] % 16) as int]);
            }
        }
    }
}

/// Text is appended encoded, to whatever stands there already, and a text that is appended in two
/// parts leaves the same behind as when it is appended at once.
pub proof fn law_text_is_pushed_part_by_part(
    first: &mut String,
    a: &str,
    second: &mut String,
    b: &str,
    whole: &mut String,
    text: &str,
)
    requires
        call_ensures(push_percent_encoded, (first, a), ()),
        *second == *final(first),
        call_ensures(push_percent_encoded, (second, b), ()),
        whole@ == first@,
        text@ == a@ + b@,
        call_ensures(push_percent_encoded, (whole, text), ()),
    ensures
        final(whole)@ == final(second)@,
        final(whole)@ == old(whole)@ + encoded_bytes(vstd::utf8::encode_utf8(text@)),
{
    law_text_is_encoded_part_by_part(a@, b@);
}

} // verus!
