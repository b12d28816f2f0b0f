use vstd::prelude::*;
use vstd::utf8::*;

verus! {

/// The four little-endian bytes of `x`.
pub open spec fn le_bytes(x: u32) -> Seq<u8> {
    seq![x as u8, (x >> 8u32) as u8, (x >> 16u32) as u8, (x >> 24u32) as u8]
}

/// The value of four little-endian bytes.
pub open spec fn le_value(b: Seq<u8>) -> u32
    recommends
        b.len() == 4,
{
    (b[0] as u32) | ((b[1] as u32) << 8u32) | ((b[2] as u32) << 16u32) | ((b[3] as u32) << 24u32)
}

/// Reading back the bytes of `x` gives `x`.
proof fn lemma_le_value_le_bytes(x: u32)
    ensures
        le_value(le_bytes(x)) == x,
{
    assert(((x as u8) as u32) | ((((x >> 8u32) as u8) as u32) << 8u32) | ((((x >> 16u32) as u8)
        as u32) << 16u32) | ((((x >> 24u32) as u8) as u32) << 24u32) == x) by (bit_vector);
}

/// Four bytes are the bytes of their value.
proof fn lemma_le_bytes_le_value(b: Seq<u8>)
    requires
        b.len() == 4,
    ensures
        le_bytes(le_value(b)) == b,
{
    let (b0, b1, b2, b3) = (b[0], b[1], b[2], b[3]);
    let x = le_value(b);
    let (w0, w1, w2, w3) = (b0 as u32, b1 as u32, b2 as u32, b3 as u32);
    assert(w0 < 256 && w1 < 256 && w2 < 256 && w3 < 256);
    assert(x == w0 | (w1 << 8u32) | (w2 << 16u32) | (w3 << 24u32) && w0 < 256 && w1 < 256 && w2
        < 256 && w3 < 256 ==> (x & 255u32) == w0 && ((x >> 8u32) & 255u32) == w1 && ((x >> 16u32)
        & 255u32) == w2 && (x >> 24u32) == w3) by (bit_vector);
    assert(x as u8 == b0 && (x >> 8u32) as u8 == b1) by (bit_vector)
        requires
            (x & 255u32) == b0 as u32,
            ((x >> 8u32) & 255u32) == b1 as u32,
    ;
    assert((x >> 16u32) as u8 == b2 && (x >> 24u32) as u8 == b3) by (bit_vector)
        requires
            ((x >> 16u32) & 255u32) == b2 as u32,
            (x >> 24u32) == b3 as u32,
    ;
    assert(le_bytes(x) =~= b);
}

/// The UTF-8 bytes of a name.
pub open spec fn name_bytes(name: Seq<char>) -> Seq<u8> {
    encode_utf8(name)
}

/// Whether a name's length prefix fits in four bytes, so that the record can be encoded.
pub open spec fn encodable(name: Seq<char>) -> bool {
    name_bytes(name).len() <= u32::MAX
}

/// The binary layout of a record: the name as a length-prefixed string,
/// then the counter, all integers little-endian.
pub open spec fn encode_record(name: Seq<char>, counter: u32) -> Seq<u8> {
    le_bytes(name_bytes(name).len() as u32) + name_bytes(name) + le_bytes(counter)
}

/// The record that `b` holds in the layout of `encode_record`, if `b` is
/// exactly such an encoding and its name is valid UTF-8.
pub open spec fn decode_record(b: Seq<u8>) -> Option<(Seq<char>, u32)> {
    if b.len() < 4 {
        None
    } else {
        let n = le_value(b.subrange(0, 4)) as int;
        if b.len() != n + 8 {
            None
        } else if !valid_utf8(b.subrange(4, n + 4)) {
            None
        } else {
            Some((decode_utf8(b.subrange(4, n + 4)), le_value(b.subrange(n + 4, n + 8))))
        }
    }
}

/// Decoding the encoding of an encodable record gives that record back.
pub proof fn lemma_decode_encode(name: Seq<char>, counter: u32)
    requires
        encodable(name),
    ensures
        decode_record(encode_record(name, counter)) == Some((name, counter)),
{
    let nb = name_bytes(name);
    let n = nb.len() as int;
    let b = encode_record(name, counter);
    assert(b.subrange(0, 4) =~= le_bytes(n as u32));
    assert(b.subrange(4, n + 4) =~= nb);
    assert(b.subrange(n + 4, n + 8) =~= le_bytes(counter));
    lemma_le_value_le_bytes(n as u32);
    lemma_le_value_le_bytes(counter);
    encode_utf8_valid_utf8(name);
    encode_utf8_decode_utf8(name);
}


/// Bytes that decode to a record are exactly that record's encoding.
pub proof fn lemma_encode_decode(b: Seq<u8>)
    requires
        decode_record(b) is Some,
    ensures
        encodable(decode_record(b)->Some_0.0),
        encode_record(decode_record(b)->Some_0.0, decode_record(b)->Some_0.1) == b,
{
    let n = le_value(b.subrange(0, 4)) as int;
    let nb = b.subrange(4, n + 4);
    decode_utf8_encode_utf8(nb);
    lemma_le_bytes_le_value(b.subrange(0, 4));
    lemma_le_bytes_le_value(b.subrange(n + 4, n + 8));
    assert(b =~= b.subrange(0, 4) + nb + b.subrange(n + 4, n + 8));
}

/// The error that borsh's readers and writers report.
#[verifier::external_type_specification]
#[verifier::external_body]
pub struct ExIoError(borsh::io::Error);

/// Relies on `borsh::from_slice` for a `(String, u32)` pair: it reads a
/// little-endian `u32` length, that many bytes as a UTF-8 string, then a
/// little-endian `u32`, and fails unless this consumed `data` exactly.
#[verifier::external_body]
fn borsh_decode_pair(data: &[u8]) -> (r: Result<(String, u32), borsh::io::Error>)
    ensures
        match decode_record(data@) {
            Some(rec) => r matches Ok(p) && p.0@ == rec.0 && p.1 == rec.1,
            None => r is Err,
        },
{
    borsh::from_slice::<(String, u32)>(data)
}

/// Relies on `borsh::to_vec` for a `(&String, u32)` pair: the string's byte
/// length as a little-endian `u32`, its UTF-8 bytes, then the integer
/// little-endian; it fails when the length does not fit in a `u32`.
#[verifier::external_body]
fn borsh_encode_pair(name: &String, counter: u32) -> (r: Result<Vec<u8>, borsh::io::Error>)
    ensures
        r is Ok <==> encodable(name@),
        r matches Ok(v) ==> v@ == encode_record(name@, counter),
{
    borsh::to_vec(&(name, counter))
}

/// Why a record could not be decoded or encoded.
#[derive(Debug, Clone, Copy, PartialEq, Eq, Structural)]
pub enum CodecError {
    /// The bytes are not exactly the encoding of a record.
    Malformed,
    /// The name is too long for its four-byte length prefix.
    NameTooLong,
}

/// The record kept in a storage slot.
#[derive(Debug)]
pub struct GreetingAccount {
    pub name: String,
    pub counter: u32,
}

impl View for GreetingAccount {
    type V = (Seq<char>, u32);

    open spec fn view(&self) -> (Seq<char>, u32) {
        (self.name@, self.counter)
    }
}

impl GreetingAccount {
    /// Decodes a record that fills `data` exactly.
    pub fn try_from_slice(data: &[u8]) -> (r: Result<GreetingAccount, CodecError>)
        ensures
            match decode_record(data@) {
                Some(rec) => r matches Ok(a) && a@ == rec,
                None => r matches Err(CodecError::Malformed),
            },
    {
        match borsh_decode_pair(data) {
            Ok(p) => Ok(GreetingAccount { name: p.0, counter: p.1 }),
            Err(_) => Err(CodecError::Malformed),
        }
    }

    /// Encodes the record in its binary layout.
    pub fn try_to_vec(&self) -> (r: Result<Vec<u8>, CodecError>)
        ensures
            encodable(self.name@) ==> (r matches Ok(v) && v@ == encode_record(self.name@, self.counter)),
            !encodable(self.name@) ==> r matches Err(CodecError::NameTooLong),
    {
        match borsh_encode_pair(&self.name, self.counter) {
            Ok(v) => Ok(v),
            Err(_) => Err(CodecError::NameTooLong),
        }
    }
}

} // verus!
