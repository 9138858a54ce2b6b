//! Images handed over inline, as `data:` URLs carrying base64.

use vstd::prelude::*;
use crate::text::{chars_of, concat2, owned, starts_with, starts_with_str, string_of, trim, trim_chars};

verus! {

/// Whitespace that base64 text may be broken with.
pub open spec fn is_b64_space(c: char) -> bool {
    c == ' ' || c == '\r' || c == '\n' || c == '\t'
}

/// The six-bit value of a base64 character.
pub open spec fn b64_value(c: char) -> Option<u8> {
    if 'A' <= c && c <= 'Z' {
        Some(((c as u32) - ('A' as u32)) as u8)
    } else if 'a' <= c && c <= 'z' {
        Some(((c as u32) - ('a' as u32) + 26) as u8)
    } else if '0' <= c && c <= '9' {
        Some(((c as u32) - ('0' as u32) + 52) as u8)
    } else if c == '+' {
        Some(62)
    } else if c == '/' {
        Some(63)
    } else {
        None
    }
}

/// The six-bit values of a base64 text, whitespace skipped, up to the first
/// `=`; `None` when another character comes first.
pub open spec fn b64_values(s: Seq<char>) -> Option<Seq<u8>>
    decreases s.len(),
{
    if s.len() == 0 {
        Some(Seq::empty())
    } else if is_b64_space(s[0]) {
        b64_values(s.drop_first())
    } else if s[0] == '=' {
        Some(Seq::empty())
    } else {
        match b64_value(s[0]) {
            None => None,
            Some(v) => match b64_values(s.drop_first()) {
                Some(rest) => Some(seq![v] + rest),
                None => None,
            },
        }
    }
}

pub open spec fn first_byte(a: u8, b: u8) -> u8 {
    ((a << 2u8) | (b >> 4u8)) as u8
}

pub open spec fn second_byte(b: u8, c: u8) -> u8 {
    ((b << 4u8) | (c >> 2u8)) as u8
}

pub open spec fn third_byte(c: u8, d: u8) -> u8 {
    ((c << 6u8) | d) as u8
}

/// The bytes that six-bit values stand for: three per group of four, and
/// the one or two bytes that a shorter last group carries.
pub open spec fn b64_bytes(v: Seq<u8>) -> Seq<u8>
    decreases v.len(),
{
    if v.len() >= 4 {
        seq![first_byte(v[0], v[1]), second_byte(v[1], v[2]), third_byte(v[2], v[3])] + b64_bytes(
            v.skip(4),
        )
    } else if v.len() == 3 {
        seq![first_byte(v[0], v[1]), second_byte(v[1], v[2])]
    } else if v.len() == 2 {
        seq![first_byte(v[0], v[1])]
    } else {
        Seq::empty()
    }
}

/// The bytes a base64 text decodes to, or `None` when it holds a character
/// outside the alphabet before its padding.
pub open spec fn b64_decode(s: Seq<char>) -> Option<Seq<u8>> {
    match b64_values(s) {
        Some(v) => Some(b64_bytes(v)),
        None => None,
    }
}

/// The payload of a data URL: what follows its first comma, or the whole
/// text when there is none.
pub open spec fn data_url_payload(s: Seq<char>) -> Seq<char> {
    if exists|i: int| 0 <= i < s.len() && s[i] == ',' {
        s.skip((choose|i: int| 0 <= i < s.len() && s[i] == ',' && forall|j: int| 0 <= j < i ==> s[j] != ',') + 1)
    } else {
        s
    }
}

pub open spec fn invalid_base64_message() -> Seq<char> {
    "image source base64 invalide"@
}

fn b64_value_exec(c: char) -> (v: Option<u8>)
    ensures
        v == b64_value(c),
{
    if 'A' <= c && c <= 'Z' {
        Some(((c as u32) - ('A' as u32)) as u8)
    } else if 'a' <= c && c <= 'z' {
        Some(((c as u32) - ('a' as u32) + 26) as u8)
    } else if '0' <= c && c <= '9' {
        Some(((c as u32) - ('0' as u32) + 52) as u8)
    } else if c == '+' {
        Some(62)
    } else if c == '/' {
        Some(63)
    } else {
        None
    }
}

/// The six-bit values of the base64 text `chars` from position `i` on.
fn values_from(chars: &Vec<char>) -> (r: Option<Vec<u8>>)
    ensures
        match r {
            Some(v) => b64_values(chars@) == Some(v@),
            None => b64_values(chars@) is None,
        },
{
    let mut values: Vec<u8> = Vec::new();
    let mut i: usize = 0;
    proof {
        assert(chars@.skip(0) =~= chars@);
        assert forall|tail: Seq<u8>| b64_values(chars@.skip(0)) == Some(tail) implies b64_values(chars@) == Some(values@ + tail) by {
            assert(values@ + tail =~= tail);
        }
    }
    loop
        invariant_except_break
            i <= chars.len(),
            forall|tail: Seq<u8>|
                b64_values(chars@.skip(i as int)) == Some(tail) ==> b64_values(chars@) == Some(
                    values@ + tail,
                ),
            b64_values(chars@.skip(i as int)) is None ==> b64_values(chars@) is None,
        ensures
            b64_values(chars@) == Some(values@),
        decreases chars.len() - i,
    {
        if i >= chars.len() {
            proof {
                assert(chars@.skip(i as int) =~= Seq::<char>::empty());
                assert(values@ + Seq::<u8>::empty() =~= values@);
            }
            break;
        }
        let c = chars[i];
        let ghost rest = chars@.skip(i as int);
        proof {
            assert(rest[0] == c);
            assert(rest.drop_first() =~= chars@.skip(i + 1));
        }
        if c == ' ' || c == '\r' || c == '\n' || c == '\t' {
            i = i + 1;
        } else if c == '=' {
            proof {
                assert(b64_values(rest) == Some(Seq::<u8>::empty()));
                assert(values@ + Seq::<u8>::empty() =~= values@);
            }
            break;
        } else {
            match b64_value_exec(c) {
                None => {
                    return None;
                },
                Some(v) => {
                    proof {
                        assert forall|tail: Seq<u8>|
                            b64_values(chars@.skip(i + 1)) == Some(tail) implies b64_values(chars@)
                            == Some(values@.push(v) + tail) by {
                            assert(b64_values(rest) == Some(seq![v] + tail));
                            assert(values@ + (seq![v] + tail) =~= values@.push(v) + tail);
                        }
                    }
                    values.push(v);
                    i = i + 1;
                },
            }
        }
    }
    Some(values)
}

/// Decodes base64 text: whitespace is skipped, decoding stops at the first
/// `=`, and any other character outside the alphabet is refused.
pub fn decode_base64(input: &str) -> (decoded: Result<Vec<u8>, String>)
    ensures
        match decoded {
            Ok(bytes) => b64_decode(input@) == Some(bytes@),
            Err(e) => b64_decode(input@) is None && e@ == invalid_base64_message(),
        },
{
    let chars = chars_of(input);
    let values = match values_from(&chars) {
        Some(v) => v,
        None => {
            return Err(owned("image source base64 invalide"));
        },
    };
    let mut output: Vec<u8> = Vec::new();
    let mut index: usize = 0;
    proof {
        assert(values@.skip(0) =~= values@);
        assert(output@ + b64_bytes(values@) =~= b64_bytes(values@));
    }
    while values.len() - index >= 4
        invariant
            index <= values.len(),
            b64_bytes(values@) == output@ + b64_bytes(values@.skip(index as int)),
        decreases values.len() - index,
    {
        let a = values[index];
        let b = values[index + 1];
        let c = values[index + 2];
        let d = values[index + 3];
        proof {
            let rest = values@.skip(index as int);
            assert(rest.skip(4) =~= values@.skip(index + 4));
            assert(rest[0] == a && rest[1] == b && rest[2] == c && rest[3] == d);
        }
        let ghost before = output@;
        output.push((a << 2u8) | (b >> 4u8));
        output.push((b << 4u8) | (c >> 2u8));
        output.push((c << 6u8) | d);
        proof {
            assert(output@ =~= before + seq![first_byte(a, b), second_byte(b, c), third_byte(c, d)]);
        }
        index = index + 4;
    }
    let ghost before = output@;
    let ghost rest = values@.skip(index as int);
    if values.len() - index >= 2 {
        output.push((values[index] << 2u8) | (values[index + 1] >> 4u8));
    }
    if values.len() - index >= 3 {
        output.push((values[index + 1] << 4u8) | (values[index + 2] >> 2u8));
    }
    proof {
        assert(rest.len() == values.len() - index);
        if rest.len() >= 2 {
            assert(rest[0] == values@[index as int] && rest[1] == values@[index + 1]);
        }
        if rest.len() >= 3 {
            assert(rest[2] == values@[index + 2]);
        }
        assert(output@ =~= before + b64_bytes(rest));
    }
    Ok(output)
}

/// Decodes a `data:` URL: the base64 after its first comma, or the whole
/// text when there is no comma.
pub fn decode_data_url(input: &str) -> (decoded: Result<Vec<u8>, String>)
    ensures
        match decoded {
            Ok(bytes) => b64_decode(data_url_payload(input@)) == Some(bytes@),
            Err(e) => b64_decode(data_url_payload(input@)) is None && e@ == invalid_base64_message(),
        },
{
    let chars = chars_of(input);
    let mut i: usize = 0;
    while i < chars.len() && chars[i] != ','
        invariant
            chars@ == input@,
            i <= chars.len(),
            forall|j: int| 0 <= j < i ==> chars@[j] != ',',
        decreases chars.len() - i,
    {
        i = i + 1;
    }
    let payload = if i < chars.len() {
        let p = crate::text::slice_chars(&chars, i + 1, chars.len());
        proof {
            let k = choose|k: int| 0 <= k < input@.len() && input@[k] == ',' && forall|j: int| 0 <= j < k ==> input@[j] != ',';
            assert(k == i) by {
                if k < i {
                    assert(chars@[k] != ',');
                }
                if k > i {
                    assert(input@[i as int] == ',');
                }
            }
            assert(p@ =~= data_url_payload(input@));
        }
        p
    } else {
        proof {
            assert(!exists|j: int| 0 <= j < input@.len() && input@[j] == ',');
        }
        chars
    };
    let text = crate::text::string_of(&payload);
    decode_base64(text.as_str())
}

/// Where an image handed to a tool comes from.
pub enum ImageSource {
    /// No image was given, or only whitespace.
    Absent,
    /// A file path, trimmed.
    File(String),
    /// The bytes carried inline by a `data:` URL.
    Inline(Vec<u8>),
}

/// Reads how an image was handed over: nothing (absent or blank), a `data:`
/// URL whose base64 is decoded, or else a file path. The text is trimmed
/// first.
pub fn image_source(source: &Option<String>) -> (image: Result<ImageSource, String>)
    ensures
        match source {
            None => image matches Ok(ImageSource::Absent),
            Some(s) => {
                let t = trim(s@);
                if t.len() == 0 {
                    image matches Ok(ImageSource::Absent)
                } else if !starts_with(t, "data:"@) {
                    match image {
                        Ok(ImageSource::File(p)) => p@ == t,
                        _ => false,
                    }
                } else {
                    match image {
                        Ok(ImageSource::Inline(b)) => b64_decode(data_url_payload(t)) == Some(b@),
                        Err(e) => b64_decode(data_url_payload(t)) is None && e@ == invalid_base64_message(),
                        _ => false,
                    }
                }
            },
        },
{
    match source {
        None => Ok(ImageSource::Absent),
        Some(s) => {
            let t = trim_chars(&chars_of(s.as_str()));
            if t.len() == 0 {
                Ok(ImageSource::Absent)
            } else if !starts_with_str(&t, "data:") {
                Ok(ImageSource::File(string_of(&t)))
            } else {
                let text = string_of(&t);
                match decode_data_url(text.as_str()) {
                    Ok(b) => Ok(ImageSource::Inline(b)),
                    Err(e) => Err(e),
                }
            }
        },
    }
}

/// The refusal of an image path where no file is.
pub fn missing_image_message(path: &str) -> (msg: String)
    ensures
        msg@ == "image introuvable : "@ + path@,
{
    concat2("image introuvable : ", path)
}

/// An image as a file the engine can read, and whether that file is a
/// scratch copy made for this call (the bytes of a `data:` URL) rather than
/// the caller's own file.
pub struct MaterialisedImage {
    pub path: String,
    pub scratch: bool,
}

/// The file that stands for an image: the caller's own file for a path,
/// `scratch_path` (where the decoded bytes are written) for an inline
/// image, and none when no image was given.
pub fn image_file(source: &ImageSource, scratch_path: &str) -> (file: Option<MaterialisedImage>)
    ensures
        match source {
            ImageSource::Absent => file is None,
            ImageSource::File(p) => file matches Some(m) && m.path@ == p@ && !m.scratch,
            ImageSource::Inline(_) => file matches Some(m) && m.path@ == scratch_path@ && m.scratch,
        },
{
    match source {
        ImageSource::Absent => None,
        ImageSource::File(p) => Some(MaterialisedImage { path: owned(p.as_str()), scratch: false }),
        ImageSource::Inline(_) => Some(MaterialisedImage { path: owned(scratch_path), scratch: true }),
    }
}

/// The base64 character of a six-bit value.
pub open spec fn b64_char(v: u8) -> char {
    if v < 26 {
        (((v as u32) + 65) as char)
    } else if v < 52 {
        (((v as u32) + 71) as char)
    } else if v < 62 {
        (((v as u32) - 4) as char)
    } else if v == 62 {
        '+'
    } else {
        '/'
    }
}

/// The standard base64 encoding of `b`, with `=` padding.
pub open spec fn b64_encode(b: Seq<u8>) -> Seq<char>
    decreases b.len(),
{
    if b.len() >= 3 {
        seq![
            b64_char(b[0] >> 2u8),
            b64_char((((b[0] & 3u8) << 4u8) | (b[1] >> 4u8)) as u8),
            b64_char((((b[1] & 15u8) << 2u8) | (b[2] >> 6u8)) as u8),
            b64_char(b[2] & 63u8),
        ] + b64_encode(b.skip(3))
    } else if b.len() == 2 {
        seq![
            b64_char(b[0] >> 2u8),
            b64_char((((b[0] & 3u8) << 4u8) | (b[1] >> 4u8)) as u8),
            b64_char(((b[1] & 15u8) << 2u8) as u8),
            '=',
        ]
    } else if b.len() == 1 {
        seq![b64_char(b[0] >> 2u8), b64_char(((b[0] & 3u8) << 4u8) as u8), '=', '=']
    } else {
        Seq::empty()
    }
}

/// The six-bit values that the encoding of `b` writes, padding left out.
pub open spec fn b64_groups(b: Seq<u8>) -> Seq<u8>
    decreases b.len(),
{
    if b.len() >= 3 {
        seq![
            b[0] >> 2u8,
            (((b[0] & 3u8) << 4u8) | (b[1] >> 4u8)) as u8,
            (((b[1] & 15u8) << 2u8) | (b[2] >> 6u8)) as u8,
            b[2] & 63u8,
        ] + b64_groups(b.skip(3))
    } else if b.len() == 2 {
        seq![b[0] >> 2u8, (((b[0] & 3u8) << 4u8) | (b[1] >> 4u8)) as u8, ((b[1] & 15u8) << 2u8) as u8]
    } else if b.len() == 1 {
        seq![b[0] >> 2u8, ((b[0] & 3u8) << 4u8) as u8]
    } else {
        Seq::empty()
    }
}

/// A text without its whitespace.
pub open spec fn without_spaces(s: Seq<char>) -> Seq<char>
    decreases s.len(),
{
    if s.len() == 0 {
        Seq::empty()
    } else if is_b64_space(s[0]) {
        without_spaces(s.drop_first())
    } else {
        seq![s[0]] + without_spaces(s.drop_first())
    }
}

proof fn lemma_b64_char(v: u8)
    requires
        v < 64,
    ensures
        b64_value(b64_char(v)) == Some(v),
        !is_b64_space(b64_char(v)),
        b64_char(v) != '=',
{
}

proof fn lemma_values_cons(c: char, rest: Seq<char>)
    requires
        b64_value(c) is Some,
        !is_b64_space(c),
        c != '=',
    ensures
        b64_values(seq![c] + rest) == match b64_values(rest) {
            Some(r) => Some(seq![b64_value(c)->Some_0] + r),
            None => None::<Seq<u8>>,
        },
{
    let s = seq![c] + rest;
    assert(s[0] == c);
    assert(s.drop_first() =~= rest);
}

proof fn lemma_values_of_encoding(b: Seq<u8>)
    ensures
        b64_values(b64_encode(b)) == Some(b64_groups(b)),
    decreases b.len(),
{
    if b.len() >= 3 {
        let g = b64_groups(b);
        let v0 = b[0] >> 2u8;
        let v1 = (((b[0] & 3u8) << 4u8) | (b[1] >> 4u8)) as u8;
        let v2 = (((b[1] & 15u8) << 2u8) | (b[2] >> 6u8)) as u8;
        let v3 = b[2] & 63u8;
        let x = b[0];
        let y = b[1];
        let z = b[2];
        assert(v0 < 64 && v1 < 64 && v2 < 64 && v3 < 64) by (bit_vector)
            requires
                v0 == x >> 2u8,
                v1 == (((x & 3u8) << 4u8) | (y >> 4u8)) as u8,
                v2 == (((y & 15u8) << 2u8) | (z >> 6u8)) as u8,
                v3 == z & 63u8,
        ;
        lemma_b64_char(v0);
        lemma_b64_char(v1);
        lemma_b64_char(v2);
        lemma_b64_char(v3);
        let rest = b64_encode(b.skip(3));
        lemma_values_of_encoding(b.skip(3));
        lemma_values_cons(b64_char(v3), rest);
        lemma_values_cons(b64_char(v2), seq![b64_char(v3)] + rest);
        lemma_values_cons(b64_char(v1), seq![b64_char(v2)] + (seq![b64_char(v3)] + rest));
        lemma_values_cons(b64_char(v0), seq![b64_char(v1)] + (seq![b64_char(v2)] + (seq![b64_char(v3)] + rest)));
        assert(b64_encode(b) =~= seq![b64_char(v0)] + (seq![b64_char(v1)] + (seq![b64_char(v2)] + (seq![
            b64_char(v3),
        ] + rest))));
        assert(b64_groups(b) =~= seq![v0] + (seq![v1] + (seq![v2] + (seq![v3] + b64_groups(b.skip(3))))));
    } else if b.len() == 2 {
        let x = b[0];
        let y = b[1];
        let v0 = x >> 2u8;
        let v1 = (((x & 3u8) << 4u8) | (y >> 4u8)) as u8;
        let v2 = ((y & 15u8) << 2u8) as u8;
        assert(v0 < 64 && v1 < 64 && v2 < 64) by (bit_vector)
            requires
                v0 == x >> 2u8,
                v1 == (((x & 3u8) << 4u8) | (y >> 4u8)) as u8,
                v2 == ((y & 15u8) << 2u8) as u8,
        ;
        lemma_b64_char(v0);
        lemma_b64_char(v1);
        lemma_b64_char(v2);
        let pad = seq!['='];
        assert(b64_values(pad) == Some(Seq::<u8>::empty()));
        lemma_values_cons(b64_char(v2), pad);
        lemma_values_cons(b64_char(v1), seq![b64_char(v2)] + pad);
        lemma_values_cons(b64_char(v0), seq![b64_char(v1)] + (seq![b64_char(v2)] + pad));
        assert(b64_encode(b) =~= seq![b64_char(v0)] + (seq![b64_char(v1)] + (seq![b64_char(v2)] + pad)));
        assert(b64_groups(b) =~= seq![v0] + (seq![v1] + (seq![v2] + Seq::<u8>::empty())));
    } else if b.len() == 1 {
        let x = b[0];
        let v0 = x >> 2u8;
        let v1 = ((x & 3u8) << 4u8) as u8;
        assert(v0 < 64 && v1 < 64) by (bit_vector)
            requires
                v0 == x >> 2u8,
                v1 == ((x & 3u8) << 4u8) as u8,
        ;
        lemma_b64_char(v0);
        lemma_b64_char(v1);
        let pad = seq!['=', '='];
        assert(b64_values(pad) == Some(Seq::<u8>::empty()));
        lemma_values_cons(b64_char(v1), pad);
        lemma_values_cons(b64_char(v0), seq![b64_char(v1)] + pad);
        assert(b64_encode(b) =~= seq![b64_char(v0)] + (seq![b64_char(v1)] + pad));
        assert(b64_groups(b) =~= seq![v0] + (seq![v1] + Seq::<u8>::empty()));
    }
}

proof fn lemma_bytes_of_groups(b: Seq<u8>)
    ensures
        b64_bytes(b64_groups(b)) == b,
    decreases b.len(),
{
    if b.len() >= 3 {
        let x = b[0];
        let y = b[1];
        let z = b[2];
        let g = b64_groups(b);
        lemma_bytes_of_groups(b.skip(3));
        assert(g.skip(4) =~= b64_groups(b.skip(3)));
        assert(first_byte(g[0], g[1]) == x) by {
            assert((((x >> 2u8) << 2u8) | (((((x & 3u8) << 4u8) | (y >> 4u8)) as u8) >> 4u8)) as u8 == x)
                by (bit_vector);
        }
        assert(second_byte(g[1], g[2]) == y) by {
            assert((((((x & 3u8) << 4u8) | (y >> 4u8)) as u8) << 4u8 | (((((y & 15u8) << 2u8) | (z
                >> 6u8)) as u8) >> 2u8)) as u8 == y) by (bit_vector);
        }
        assert(third_byte(g[2], g[3]) == z) by {
            assert((((((y & 15u8) << 2u8) | (z >> 6u8)) as u8) << 6u8 | (z & 63u8)) as u8 == z)
                by (bit_vector);
        }
        assert(b64_bytes(g) =~= seq![x, y, z] + b.skip(3));
        assert(b =~= seq![x, y, z] + b.skip(3));
    } else if b.len() == 2 {
        let x = b[0];
        let y = b[1];
        let g = b64_groups(b);
        assert(first_byte(g[0], g[1]) == x) by {
            assert((((x >> 2u8) << 2u8) | (((((x & 3u8) << 4u8) | (y >> 4u8)) as u8) >> 4u8)) as u8 == x)
                by (bit_vector);
        }
        assert(second_byte(g[1], g[2]) == y) by {
            assert((((((x & 3u8) << 4u8) | (y >> 4u8)) as u8) << 4u8 | ((((y & 15u8) << 2u8) as u8)
                >> 2u8)) as u8 == y) by (bit_vector);
        }
        assert(b64_bytes(g) =~= b);
    } else if b.len() == 1 {
        let x = b[0];
        let g = b64_groups(b);
        assert(first_byte(g[0], g[1]) == x) by {
            assert((((x >> 2u8) << 2u8) | ((((x & 3u8) << 4u8) as u8) >> 4u8)) as u8 == x) by (bit_vector);
        }
        assert(b64_bytes(g) =~= b);
    } else {
        assert(b64_bytes(b64_groups(b)) =~= b);
    }
}

proof fn lemma_spaces_are_skipped(s: Seq<char>)
    ensures
        b64_values(s) == b64_values(without_spaces(s)),
    decreases s.len(),
{
    if s.len() > 0 {
        lemma_spaces_are_skipped(s.drop_first());
        if !is_b64_space(s[0]) {
            let w = without_spaces(s);
            assert(w[0] == s[0]);
            assert(w.drop_first() =~= without_spaces(s.drop_first()));
        }
    }
}

/// Decoding gives back the bytes whose standard base64 encoding the text
/// holds, whatever spaces, tabs, carriage returns and line feeds are
/// scattered through it.
pub proof fn encoded_bytes_decode_back(s: Seq<char>, b: Seq<u8>)
    requires
        without_spaces(s) == b64_encode(b),
    ensures
        b64_decode(s) == Some(b),
{
    lemma_spaces_are_skipped(s);
    lemma_values_of_encoding(b);
    lemma_bytes_of_groups(b);
}

/// A character that is neither base64, whitespace nor padding, met before
/// the first `=`, makes the whole text invalid.
pub proof fn stray_characters_are_refused(t: Seq<char>, k: int)
    requires
        0 <= k < t.len(),
        b64_value(t[k]) is None,
        !is_b64_space(t[k]),
        t[k] != '=',
        forall|j: int| 0 <= j < k ==> t[j] != '=',
    ensures
        b64_decode(t) is None,
    decreases k,
{
    if k > 0 {
        let d = t.drop_first();
        assert(d[k - 1] == t[k]);
        assert forall|j: int| 0 <= j < k - 1 implies d[j] != '=' by {
            assert(d[j] == t[j + 1]);
        }
        stray_characters_are_refused(d, k - 1);
        assert(t[0] != '=');
    }
}

} // verus!
