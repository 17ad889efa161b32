//! The length-prefixed wire format of byte-string tensors: each element is a
//! 4-byte little-endian length followed by that many payload bytes.
use vstd::prelude::*;
use vstd::slice::slice_subrange;
use vstd::utf8::{decode_utf8, encode_utf8, valid_utf8};
use crate::error::ModelExecutorError;

verus! {

/// The text that `String::from_utf8_lossy` makes of a byte sequence.
pub uninterp spec fn lossy_text(b: Seq<u8>) -> Seq<char>;

/// Relies on `String::from_utf8_lossy`: the result depends on the bytes alone,
/// and valid UTF-8 is decoded unchanged.
#[verifier::external_body]
fn utf8_lossy(b: &[u8]) -> (r: String)
    ensures
        r@ == lossy_text(b@),
        valid_utf8(b@) ==> r@ == decode_utf8(b@),
{
    String::from_utf8_lossy(b).into_owned()
}

/// The unsigned value of 4 little-endian bytes.
pub open spec fn le_u32(b: Seq<u8>) -> int {
    b[0] as int + 256 * (b[1] as int) + 65536 * (b[2] as int) + 16777216 * (b[3] as int)
}

/// The 4 little-endian bytes of a 32-bit value.
pub open spec fn le_bytes(n: u32) -> Seq<u8> {
    seq![
        (n % 256) as u8,
        ((n / 256) % 256) as u8,
        ((n / 65536) % 256) as u8,
        (n / 16777216) as u8,
    ]
}

/// Reads the 32-bit little-endian length prefix at `at`.
fn read_length(data: &[u8], at: usize) -> (r: u32)
    requires
        at + 4 <= data@.len(),
    ensures
        r as int == le_u32(data@.subrange(at as int, at + 4)),
{
    let b0 = data[at] as u32;
    let b1 = data[at + 1] as u32;
    let b2 = data[at + 2] as u32;
    let b3 = data[at + 3] as u32;
    b0 + 256 * b1 + 65536 * b2 + 16777216 * b3
}

/// Writes the 32-bit little-endian bytes of `n`.
fn length_bytes(n: u32) -> (r: Vec<u8>)
    ensures
        r@ == le_bytes(n),
{
    let mut r: Vec<u8> = Vec::new();
    r.push((n % 256) as u8);
    r.push(((n / 256) % 256) as u8);
    r.push(((n / 65536) % 256) as u8);
    r.push((n / 16777216) as u8);
    assert(r@ =~= le_bytes(n));
    r
}

/// Reading back the bytes of a value gives the value.
pub proof fn lemma_le_round_trip(n: u32)
    ensures
        le_u32(le_bytes(n)) == n,
{
    let b = le_bytes(n);
    assert(b[0] as int == n % 256);
    assert(b[1] as int == (n / 256) % 256);
    assert(b[2] as int == (n / 65536) % 256);
    assert(b[3] as int == n / 16777216);
}

/// The payloads of a well-formed length-prefixed byte-string buffer, in order;
/// `None` when a length prefix or a payload runs past the end.
pub open spec fn parse_segments(b: Seq<u8>) -> Option<Seq<Seq<u8>>>
    decreases b.len(),
{
    if b.len() == 0 {
        Some(Seq::empty())
    } else if b.len() < 4 {
        None
    } else {
        let n = le_u32(b.subrange(0, 4));
        if b.len() - 4 < n {
            None
        } else {
            match parse_segments(b.subrange(4 + n, b.len() as int)) {
                Some(rest) => Some(seq![b.subrange(4, 4 + n)] + rest),
                None => None,
            }
        }
    }
}

/// The strings a well-formed buffer decodes to.
pub open spec fn decoded_strings(b: Seq<u8>) -> Option<Seq<Seq<char>>> {
    match parse_segments(b) {
        Some(segs) => Some(segs.map_values(|s: Seq<u8>| lossy_text(s))),
        None => None,
    }
}

/// The encoding of one byte-string element.
pub open spec fn encode_segment(payload: Seq<u8>) -> Seq<u8> {
    le_bytes(payload.len() as u32) + payload
}

/// Decodes a length-prefixed byte-string buffer into its strings; invalid
/// UTF-8 in a payload is replaced, not rejected. A length that runs past the
/// end of the buffer is an `FFIError`.
pub fn decode_string(data: &[u8]) -> (r: Result<Vec<String>, ModelExecutorError>)
    ensures
        r is Ok <==> parse_segments(data@) is Some,
        r is Err ==> r->Err_0 is FFIError,
        r is Ok ==> Some(r->Ok_0@.map_values(|s: String| s@)) == decoded_strings(data@),
        r is Ok ==> forall|k: int|
            0 <= k < r->Ok_0@.len() && #[trigger] valid_utf8(parse_segments(data@)->Some_0[k])
                ==> r->Ok_0@[k]@ == decode_utf8(parse_segments(data@)->Some_0[k]),
{
    let mut strings: Vec<String> = Vec::new();
    let mut i: usize = 0;
    let ghost mut segs: Seq<Seq<u8>> = Seq::empty();
    proof {
        assert(data@.subrange(0, data@.len() as int) =~= data@);
        if let Some(rest) = parse_segments(data@) {
            assert(segs + rest =~= rest);
        }
    }
    while i < data.len()
        invariant
            i <= data@.len(),
            strings@.len() == segs.len(),
            forall|k: int| 0 <= k < segs.len() ==> #[trigger] strings@[k]@ == lossy_text(segs[k]),
            forall|k: int| 0 <= k < segs.len() && valid_utf8(segs[k]) ==> #[trigger] strings@[k]@ == decode_utf8(segs[k]),
            parse_segments(data@) == match parse_segments(data@.subrange(i as int, data@.len() as int)) {
                Some(rest) => Some(segs + rest),
                None => None::<Seq<Seq<u8>>>,
            },
        decreases data@.len() - i,
    {
        let ghost tail = data@.subrange(i as int, data@.len() as int);
        if data.len() - i < 4 {
            return Err(ModelExecutorError::FFIError("truncated length prefix".to_string()));
        }
        let wide = read_length(data, i) as usize;
        assert(data@.subrange(i as int, i + 4) =~= tail.subrange(0, 4));
        if data.len() - i - 4 < wide {
            return Err(ModelExecutorError::FFIError("truncated payload".to_string()));
        }
        let bytes = slice_subrange(data, i + 4, i + 4 + wide);
        assert(bytes@ == tail.subrange(4, 4 + wide as int));
        let string = utf8_lossy(bytes);
        proof {
            assert(tail.subrange(4 + wide as int, tail.len() as int)
                =~= data@.subrange(i + 4 + wide as int, data@.len() as int));
            let ghost old_segs = segs;
            segs = segs.push(bytes@);
            match parse_segments(data@.subrange(i + 4 + wide as int, data@.len() as int)) {
                Some(rest) => {
                    assert(old_segs + (seq![bytes@] + rest) =~= segs + rest);
                },
                None => {},
            }
        }
        strings.push(string);
        i = i + 4 + wide;
    }
    proof {
        assert(data@.subrange(i as int, data@.len() as int) =~= Seq::<u8>::empty());
        assert(segs + Seq::<Seq<u8>>::empty() =~= segs);
        assert(strings@.map_values(|s: String| s@) =~= segs.map_values(|s: Seq<u8>| lossy_text(s)));
    }
    Ok(strings)
}

/// Encodes one string as a byte-string tensor element: its UTF-8 length as
/// 4 little-endian bytes, then its UTF-8 bytes.
pub fn encode_string(value: &str) -> (r: Vec<u8>)
    requires
        encode_utf8(value@).len() <= u32::MAX,
    ensures
        r@ == encode_segment(encode_utf8(value@)),
{
    let value_bytes = value.as_bytes();
    let mut bytes = length_bytes(value_bytes.len() as u32);
    bytes.extend_from_slice(value_bytes);
    assert(bytes@ =~= encode_segment(encode_utf8(value@)));
    bytes
}

/// A single encoded element decodes to exactly its payload.
pub proof fn lemma_segment_round_trip(payload: Seq<u8>)
    requires
        payload.len() <= u32::MAX,
    ensures
        parse_segments(encode_segment(payload)) == Some(seq![payload]),
{
    let e = encode_segment(payload);
    let n = payload.len();
    lemma_le_round_trip(n as u32);
    assert(e.subrange(0, 4) =~= le_bytes(n as u32));
    assert(e.subrange(4, 4 + n as int) =~= payload);
    assert(le_u32(e.subrange(0, 4)) == n);
    assert(e.subrange(4 + n as int, e.len() as int) =~= Seq::<u8>::empty());
    assert(parse_segments(Seq::<u8>::empty()) == Some(Seq::<Seq<u8>>::empty()));
    assert(seq![payload] + Seq::<Seq<u8>>::empty() =~= seq![payload]);
}

/// Decoding the encoding of a string gives back exactly that string: the
/// single payload is the string's UTF-8 bytes, which are valid and decode to
/// the string itself.
pub proof fn lemma_string_round_trip(s: Seq<char>)
    requires
        encode_utf8(s).len() <= u32::MAX,
    ensures
        parse_segments(encode_segment(encode_utf8(s))) == Some(seq![encode_utf8(s)]),
        valid_utf8(encode_utf8(s)),
        decode_utf8(encode_utf8(s)) == s,
{
    broadcast use vstd::utf8::encode_utf8_valid_utf8, vstd::utf8::encode_utf8_decode_utf8;
    lemma_segment_round_trip(encode_utf8(s));
}

} // verus!
