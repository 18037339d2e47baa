//! The bitmap-indexed wire message and its binary codec.
//!
//! A message is a 4-byte type-indicator string, an 8-byte bitmap, and a
//! list of fields, each carried on the wire as a field number, a
//! two-byte big-endian length, and that many bytes of UTF-8 payload, in
//! the order the fields were added. The bitmap is advisory metadata:
//! encoding writes it out and decoding reads it back, but the field
//! list alone is authoritative, and decoding never consults the bitmap.

use vstd::prelude::*;
use vstd::slice::{slice_index_get, slice_subrange, slice_to_vec};
use vstd::utf8::{decode_utf8, encode_utf8, valid_utf8};
use crate::errors::PayError;
use crate::store::set_at;

verus! {

/// Message type indicator of an authorization request.
pub const MTI_AUTH_REQUEST: &'static str = "0100";

/// Message type indicator of an authorization response.
pub const MTI_AUTH_RESPONSE: &'static str = "0110";

/// Message type indicator of a financial request.
pub const MTI_FINANCIAL_REQUEST: &'static str = "0200";

/// Message type indicator of a financial response.
pub const MTI_FINANCIAL_RESPONSE: &'static str = "0210";

/// One data element of a message.
#[derive(Clone, Debug, PartialEq)]
pub struct MessageField {
    /// Field number.
    pub num: u8,
    /// Field payload.
    pub value: String,
}

/// A message as the specification sees it.
#[verifier::ext_equal]
pub struct MsgView {
    pub mti: Seq<char>,
    pub bitmap: Seq<u8>,
    pub fields: Seq<(u8, Seq<char>)>,
}

/// A bitmap-indexed wire message.
#[derive(Clone, Debug, PartialEq)]
pub struct Iso8583Message {
    /// Message type indicator, a 4-byte string.
    pub mti: String,
    /// Primary bitmap, 8 bytes, advisory only.
    pub bitmap: Vec<u8>,
    /// Data elements, in the order they were added.
    pub fields: Vec<MessageField>,
}

/// The field list as the specification sees it.
pub open spec fn spec_fields_view(fs: Seq<MessageField>) -> Seq<(u8, Seq<char>)> {
    fs.map_values(|f: MessageField| (f.num, f.value@))
}

impl View for Iso8583Message {
    type V = MsgView;

    open spec fn view(&self) -> MsgView {
        MsgView { mti: self.mti@, bitmap: self.bitmap@, fields: spec_fields_view(self.fields@) }
    }
}

/// No two fields share a number.
pub open spec fn spec_field_nums_unique(fs: Seq<(u8, Seq<char>)>) -> bool {
    forall|i: int, j: int| 0 <= i < j < fs.len() ==> fs[i].0 != fs[j].0
}

/// Every field payload fits the two-byte length on the wire.
pub open spec fn spec_fields_fit(fs: Seq<(u8, Seq<char>)>) -> bool {
    forall|i: int| 0 <= i < fs.len() ==> encode_utf8(fs[i].1).len() <= 65535
}

/// A well-formed message: 4 bytes of type indicator, 8 of bitmap,
/// unique field numbers, and payloads that fit their length prefix.
pub open spec fn spec_wf(v: MsgView) -> bool {
    &&& encode_utf8(v.mti).len() == 4
    &&& v.bitmap.len() == 8
    &&& spec_field_nums_unique(v.fields)
    &&& spec_fields_fit(v.fields)
}

/// The index of the first field numbered `num`.
pub open spec fn spec_field_idx(fs: Seq<(u8, Seq<char>)>, num: u8) -> Option<int>
    decreases fs.len(),
{
    if fs.len() == 0 {
        None
    } else if fs[0].0 == num {
        Some(0)
    } else {
        match spec_field_idx(fs.drop_first(), num) {
            Some(i) => Some(i + 1),
            None => None,
        }
    }
}

/// The field list after setting `num` to `value`: an existing field
/// with that number is overwritten in place, a new one is appended.
pub open spec fn spec_upsert_field(
    fs: Seq<(u8, Seq<char>)>,
    num: u8,
    value: Seq<char>,
) -> Seq<(u8, Seq<char>)> {
    match spec_field_idx(fs, num) {
        Some(i) => fs.update(i, (num, value)),
        None => fs.push((num, value)),
    }
}

/// What the field index means, element by element.
pub proof fn lemma_field_idx(fs: Seq<(u8, Seq<char>)>, num: u8)
    ensures
        (match spec_field_idx(fs, num) {
            Some(i) => 0 <= i < fs.len() && fs[i].0 == num && (forall|j: int|
                0 <= j < i ==> fs[j].0 != num),
            None => forall|j: int| 0 <= j < fs.len() ==> fs[j].0 != num,
        }),
    decreases fs.len(),
{
    if fs.len() > 0 && fs[0].0 != num {
        lemma_field_idx(fs.drop_first(), num);
        match spec_field_idx(fs.drop_first(), num) {
            Some(i) => {
                assert forall|j: int| 0 <= j < i + 1 implies fs[j].0 != num by {
                    if j > 0 {
                        assert(fs.drop_first()[j - 1] == fs[j]);
                    }
                }
                assert(fs.drop_first()[i] == fs[i + 1]);
            },
            None => {
                assert forall|j: int| 0 <= j < fs.len() implies fs[j].0 != num by {
                    if j > 0 {
                        assert(fs.drop_first()[j - 1] == fs[j]);
                    }
                }
            },
        }
    }
}

/// A field whose number nothing before it shares is the first match.
proof fn lemma_field_idx_first_match(fs: Seq<(u8, Seq<char>)>, num: u8, i: int)
    requires
        0 <= i < fs.len(),
        fs[i].0 == num,
        forall|j: int| 0 <= j < i ==> fs[j].0 != num,
    ensures
        spec_field_idx(fs, num) == Some(i),
    decreases fs.len(),
{
    if i > 0 {
        assert forall|j: int| 0 <= j < i - 1 implies fs.drop_first()[j].0 != num by {
            assert(fs.drop_first()[j] == fs[j + 1]);
        }
        assert(fs.drop_first()[i - 1] == fs[i]);
        lemma_field_idx_first_match(fs.drop_first(), num, i - 1);
    }
}

/// If no field carries the number, the lookup finds nothing.
proof fn lemma_field_idx_absent(fs: Seq<(u8, Seq<char>)>, num: u8)
    requires
        forall|j: int| 0 <= j < fs.len() ==> fs[j].0 != num,
    ensures
        spec_field_idx(fs, num) is None,
{
    lemma_field_idx(fs, num);
    if spec_field_idx(fs, num) is Some {
        let i = spec_field_idx(fs, num).unwrap();
        assert(fs[i].0 != num);
    }
}

/// Setting a field keeps numbers unique and payloads fitting.
pub proof fn lemma_upsert_field_wf(fs: Seq<(u8, Seq<char>)>, num: u8, value: Seq<char>)
    requires
        spec_field_nums_unique(fs),
        spec_fields_fit(fs),
        encode_utf8(value).len() <= 65535,
    ensures
        spec_field_nums_unique(spec_upsert_field(fs, num, value)),
        spec_fields_fit(spec_upsert_field(fs, num, value)),
{
    lemma_field_idx(fs, num);
    let fs1 = spec_upsert_field(fs, num, value);
    match spec_field_idx(fs, num) {
        Some(i) => {
            assert forall|a: int, b: int| 0 <= a < b < fs1.len() implies fs1[a].0 != fs1[b].0 by {
                assert(fs[a].0 != fs[b].0);
            }
        },
        None => {
            assert forall|a: int, b: int| 0 <= a < b < fs1.len() implies fs1[a].0 != fs1[b].0 by {
                if b < fs.len() {
                    assert(fs[a].0 != fs[b].0);
                } else {
                    assert(fs1[b].0 == num && fs1[a] == fs[a]);
                }
            }
        },
    }
}

/// The bytes one field occupies on the wire: its number, the big-endian
/// two-byte length of its payload, and the payload itself.
pub open spec fn spec_field_block(f: (u8, Seq<char>)) -> Seq<u8> {
    let vb = encode_utf8(f.1);
    seq![f.0, (vb.len() / 256) as u8, (vb.len() % 256) as u8] + vb
}

/// The bytes of a field list, in order.
pub open spec fn spec_fields_bytes(fs: Seq<(u8, Seq<char>)>) -> Seq<u8>
    decreases fs.len(),
{
    if fs.len() == 0 {
        Seq::empty()
    } else {
        spec_field_block(fs[0]) + spec_fields_bytes(fs.drop_first())
    }
}

/// The bytes a message occupies on the wire.
pub open spec fn spec_serialize(v: MsgView) -> Seq<u8> {
    encode_utf8(v.mti) + v.bitmap + spec_fields_bytes(v.fields)
}

/// Parsing the field triples from `pos` on, with the fields parsed so
/// far in `acc`. A tail shorter than a field header is ignored, as the
/// encoder never produces one; a declared length reaching past the end
/// of the buffer and a payload that is not UTF-8 are rejected.
pub open spec fn spec_parse_fields(
    data: Seq<u8>,
    pos: int,
    acc: Seq<(u8, Seq<char>)>,
) -> Result<Seq<(u8, Seq<char>)>, PayError>
    decreases data.len() - pos,
{
    if pos >= data.len() || pos + 3 > data.len() {
        Ok(acc)
    } else {
        let num = data[pos];
        let flen = (data[pos + 1] as int) * 256 + (data[pos + 2] as int);
        if pos + 3 + flen > data.len() {
            Err(PayError::InvalidFieldLength)
        } else {
            let vb = data.subrange(pos + 3, pos + 3 + flen);
            if !valid_utf8(vb) {
                Err(PayError::InvalidEncoding)
            } else {
                spec_parse_fields(data, pos + 3 + flen, spec_upsert_field(acc, num, decode_utf8(vb)))
            }
        }
    }
}

/// What decoding owes for any byte string: `TruncatedMessage` below the
/// 12-byte header, `InvalidEncoding` for a type indicator or payload
/// that is not UTF-8, `InvalidFieldLength` for a length past the end,
/// and otherwise the message whose type indicator and bitmap are the
/// header's and whose fields are the parsed triples.
pub open spec fn spec_deserialize(data: Seq<u8>) -> Result<MsgView, PayError> {
    if data.len() < 12 {
        Err(PayError::TruncatedMessage)
    } else if !valid_utf8(data.subrange(0, 4)) {
        Err(PayError::InvalidEncoding)
    } else {
        match spec_parse_fields(data, 12, Seq::empty()) {
            Ok(fs) => Ok(
                MsgView {
                    mti: decode_utf8(data.subrange(0, 4)),
                    bitmap: data.subrange(4, 12),
                    fields: fs,
                },
            ),
            Err(e) => Err(e),
        }
    }
}

/// Relies on `String::from_utf8`: returns the string carrying exactly
/// the given bytes when they are valid UTF-8, and fails exactly when
/// they are not, which this crate reports as `InvalidEncoding`.
#[verifier::external_body]
fn vec_to_string(v: Vec<u8>) -> (r: Result<String, PayError>)
    ensures
        r is Ok <==> valid_utf8(v@),
        (match r {
            Ok(s) => encode_utf8(s@) == v@,
            Err(e) => e == PayError::InvalidEncoding,
        }),
{
    match String::from_utf8(v) {
        Ok(s) => Ok(s),
        Err(_) => Err(PayError::InvalidEncoding),
    }
}

impl Iso8583Message {
    /// Whether the message is well-formed. Constructors establish this
    /// and every method preserves it; it is a precondition only because
    /// the fields are public.
    pub open spec fn wf(&self) -> bool {
        spec_wf(self@)
    }

    /// An empty message under the given 4-byte type indicator, with an
    /// all-zero bitmap.
    pub fn new(mti: String) -> (r: Iso8583Message)
        requires
            encode_utf8(mti@).len() == 4,
        ensures
            r@ == (MsgView { mti: mti@, bitmap: seq![0u8; 8], fields: Seq::empty() }),
            r.wf(),
    {
        let r = Iso8583Message { mti, bitmap: vec![0u8; 8], fields: Vec::new() };
        proof {
            assert(r@.bitmap =~= seq![0u8; 8]);
            assert(r@.fields =~= Seq::<(u8, Seq<char>)>::empty());
        }
        r
    }

    /// The index of the first field numbered `num`.
    fn find_field(&self, num: u8) -> (r: Option<usize>)
        ensures
            (match r {
                Some(i) => i < self.fields@.len() && spec_field_idx(self@.fields, num) == Some(
                    i as int,
                ),
                None => spec_field_idx(self@.fields, num) is None,
            }),
    {
        let n = self.fields.len();
        let mut i: usize = 0;
        while i < n
            invariant
                i <= n,
                n == self.fields@.len(),
                forall|j: int| 0 <= j < i ==> self@.fields[j].0 != num,
            decreases n - i,
        {
            proof {
                assert(self@.fields[i as int] == (
                    self.fields@[i as int].num,
                    self.fields@[i as int].value@,
                ));
            }
            if self.fields[i].num == num {
                proof {
                    lemma_field_idx_first_match(self@.fields, num, i as int);
                }
                return Some(i);
            }
            i = i + 1;
        }
        proof {
            lemma_field_idx_absent(self@.fields, num);
        }
        None
    }

    /// Sets field `num` to `value`, overwriting in place or appending,
    /// and marks the field's bit in the bitmap when `num` is 1 to 64.
    /// The payload must fit the two-byte wire length.
    pub fn set_field(&mut self, field_num: u8, value: String)
        requires
            old(self).wf(),
            field_num >= 1,
            encode_utf8(value@).len() <= 65535,
        ensures
            final(self).wf(),
            final(self)@.fields == spec_upsert_field(old(self)@.fields, field_num, value@),
            final(self)@.mti == old(self)@.mti,
            final(self)@.bitmap == spec_bitmap_after(old(self)@.bitmap, field_num),
    {
        proof {
            lemma_upsert_field_wf(self@.fields, field_num, value@);
        }
        upsert_field(&mut self.fields, field_num, value);
        let byte_index = (field_num - 1) / 8;
        if byte_index < 8 {
            let bit_index = (field_num - 1) % 8;
            let updated = self.bitmap[byte_index as usize] | (1u8 << (7 - bit_index));
            set_at(&mut self.bitmap, byte_index as usize, updated);
        }
    }

    /// The payload of field `num`, if the field is present.
    pub fn get_field(&self, field_num: u8) -> (r: Option<&String>)
        ensures
            (match spec_field_idx(self@.fields, field_num) {
                Some(i) => r matches Some(s) && s@ == self@.fields[i].1,
                None => r is None,
            }),
    {
        match self.find_field(field_num) {
            Some(i) => {
                proof {
                    assert(self@.fields[i as int] == (
                        self.fields@[i as int].num,
                        self.fields@[i as int].value@,
                    ));
                }
                Some(&self.fields[i].value)
            },
            None => None,
        }
    }

    /// Encodes the message: type indicator, bitmap, then one triple of
    /// field number, big-endian payload length and payload per field,
    /// in the order the fields stand in the list.
    pub fn serialize(&self) -> (r: Vec<u8>)
        requires
            self.wf(),
        ensures
            r@ == spec_serialize(self@),
    {
        let mut out: Vec<u8> = Vec::new();
        out.extend_from_slice(self.mti.as_str().as_bytes());
        out.extend_from_slice(self.bitmap.as_slice());
        let n = self.fields.len();
        let mut i: usize = 0;
        proof {
            assert(self@.fields.skip(0) =~= self@.fields);
            assert(out@ =~= encode_utf8(self@.mti) + self@.bitmap);
        }
        while i < n
            invariant
                i <= n,
                n == self.fields@.len(),
                self.wf(),
                out@ + spec_fields_bytes(self@.fields.skip(i as int)) == spec_serialize(self@),
            decreases n - i,
        {
            let ghost rest = self@.fields.skip(i as int);
            let ghost out_pre = out@;
            proof {
                assert(rest[0] == self@.fields[i as int]);
                assert(self@.fields[i as int] == (
                    self.fields@[i as int].num,
                    self.fields@[i as int].value@,
                ));
                assert(rest.drop_first() =~= self@.fields.skip(i as int + 1));
            }
            let f = &self.fields[i];
            let vb = f.value.as_str().as_bytes();
            let flen = vb.len();
            proof {
                assert(encode_utf8(self@.fields[i as int].1).len() <= 65535);
            }
            out.push(f.num);
            out.push((flen / 256) as u8);
            out.push((flen % 256) as u8);
            out.extend_from_slice(vb);
            proof {
                assert(out@ =~= out_pre + spec_field_block(rest[0]));
                assert((out_pre + spec_field_block(rest[0])) + spec_fields_bytes(
                    rest.drop_first(),
                ) =~= out_pre + (spec_field_block(rest[0]) + spec_fields_bytes(
                    rest.drop_first(),
                )));
            }
            i = i + 1;
        }
        proof {
            assert(self@.fields.skip(n as int) =~= Seq::<(u8, Seq<char>)>::empty());
            assert(out@ + Seq::<u8>::empty() =~= out@);
        }
        out
    }

    /// Decodes a buffer. The outcome is exactly what
    /// `spec_deserialize` owes: in particular any input shorter than
    /// the 12-byte header is rejected with `TruncatedMessage`, and the
    /// result is well-formed.
    pub fn deserialize(data: &[u8]) -> (r: Result<Iso8583Message, PayError>)
        ensures
            (match r {
                Ok(m) => spec_deserialize(data@) == Ok::<MsgView, PayError>(m@) && m.wf(),
                Err(e) => spec_deserialize(data@) == Err::<MsgView, PayError>(e),
            }),
    {
        if data.len() < 12 {
            return Err(PayError::TruncatedMessage);
        }
        let mti_bytes = slice_to_vec(slice_subrange(data, 0, 4));
        let mti = match vec_to_string(mti_bytes) {
            Ok(s) => s,
            Err(e) => { return Err(e) },
        };
        let bitmap = slice_to_vec(slice_subrange(data, 4, 12));
        let mut fields: Vec<MessageField> = Vec::new();
        let mut pos: usize = 12;
        proof {
            assert(spec_fields_view(fields@) =~= Seq::<(u8, Seq<char>)>::empty());
        }
        while data.len() - pos >= 3
            invariant
                12 <= pos <= data@.len(),
                valid_utf8(data@.subrange(0, 4)),
                spec_parse_fields(data@, 12, Seq::empty()) == spec_parse_fields(
                    data@,
                    pos as int,
                    spec_fields_view(fields@),
                ),
                spec_field_nums_unique(spec_fields_view(fields@)),
                spec_fields_fit(spec_fields_view(fields@)),
            decreases data@.len() - pos,
        {
            let ghost acc = spec_fields_view(fields@);
            let num = *slice_index_get(data, pos);
            let hi = *slice_index_get(data, pos + 1);
            let lo = *slice_index_get(data, pos + 2);
            let flen: usize = (hi as usize) * 256 + (lo as usize);
            proof {
                assert((data@[pos as int + 1] as int) * 256 + (data@[pos as int + 2] as int)
                    == flen as int);
            }
            if flen > data.len() - (pos + 3) {
                proof {
                    assert(spec_parse_fields(data@, pos as int, acc) == Err::<
                        Seq<(u8, Seq<char>)>,
                        PayError,
                    >(PayError::InvalidFieldLength));
                }
                return Err(PayError::InvalidFieldLength);
            }
            let vb = slice_to_vec(slice_subrange(data, pos + 3, pos + 3 + flen));
            let ghost vbv = vb@;
            proof {
                assert(vbv =~= data@.subrange(pos as int + 3, pos as int + 3 + flen as int));
                assert((data@[pos as int + 1] as int) * 256 + (data@[pos as int + 2] as int)
                    == flen as int);
            }
            let value = match vec_to_string(vb) {
                Ok(s) => s,
                Err(e) => { return Err(e) },
            };
            proof {
                vstd::utf8::encode_utf8_decode_utf8(value@);
                assert(decode_utf8(vbv) == value@);
                lemma_upsert_field_wf(acc, num, value@);
                assert(spec_parse_fields(data@, pos as int, acc) == spec_parse_fields(
                    data@,
                    pos as int + 3 + flen as int,
                    spec_upsert_field(acc, num, decode_utf8(vbv)),
                ));
            }
            upsert_field(&mut fields, num, value);
            pos = pos + 3 + flen;
        }
        let m = Iso8583Message { mti, bitmap, fields };
        proof {
            vstd::utf8::encode_utf8_decode_utf8(m.mti@);
            vstd::utf8::encode_utf8_valid_utf8(m.mti@);
            assert(encode_utf8(m.mti@) =~= data@.subrange(0, 4));
            assert(m@.bitmap =~= data@.subrange(4, 12));
            assert(spec_parse_fields(data@, pos as int, m@.fields) == Ok::<_, PayError>(m@.fields));
        }
        Ok(m)
    }
}

/// Finds the index of the first field numbered `num` in a field list.
fn find_field_idx(fields: &Vec<MessageField>, num: u8) -> (r: Option<usize>)
    ensures
        (match r {
            Some(i) => i < fields@.len() && spec_field_idx(spec_fields_view(fields@), num)
                == Some(i as int),
            None => spec_field_idx(spec_fields_view(fields@), num) is None,
        }),
{
    let n = fields.len();
    let mut i: usize = 0;
    while i < n
        invariant
            i <= n,
            n == fields@.len(),
            forall|j: int| 0 <= j < i ==> spec_fields_view(fields@)[j].0 != num,
        decreases n - i,
    {
        proof {
            assert(spec_fields_view(fields@)[i as int] == (
                fields@[i as int].num,
                fields@[i as int].value@,
            ));
        }
        if fields[i].num == num {
            proof {
                lemma_field_idx_first_match(spec_fields_view(fields@), num, i as int);
            }
            return Some(i);
        }
        i = i + 1;
    }
    proof {
        lemma_field_idx_absent(spec_fields_view(fields@), num);
    }
    None
}

/// Overwrites the field numbered `num` in place, or appends a new one.
fn upsert_field(fields: &mut Vec<MessageField>, num: u8, value: String)
    ensures
        spec_fields_view(final(fields)@) == spec_upsert_field(
            spec_fields_view(old(fields)@),
            num,
            value@,
        ),
{
    let ghost vv = value@;
    match find_field_idx(fields, num) {
        Some(i) => {
            set_at(fields, i, MessageField { num, value });
            proof {
                assert(spec_fields_view(fields@) =~= spec_fields_view(old(fields)@).update(
                    i as int,
                    (num, vv),
                ));
            }
        },
        None => {
            fields.push(MessageField { num, value });
            proof {
                assert(spec_fields_view(fields@) =~= spec_fields_view(old(fields)@).push(
                    (num, vv),
                ));
            }
        },
    }
}

/// The bitmap after marking field `num`: bit `num - 1`, counted from
/// the most significant bit of the first byte, is set when `num` is at
/// most 64; a higher number leaves the bitmap alone.
pub open spec fn spec_bitmap_after(bitmap: Seq<u8>, num: u8) -> Seq<u8>
    recommends
        num >= 1,
        bitmap.len() == 8,
{
    let byte_index = (num - 1) / 8;
    if byte_index < 8 {
        let bit_index = (num - 1) % 8;
        bitmap.update(
            byte_index as int,
            bitmap[byte_index as int] | (1u8 << ((7 - bit_index) as u8)),
        )
    } else {
        bitmap
    }
}

/// Parsing a buffer whose tail from `pos` on is the encoding of the
/// field list `fs`: every field is recovered, appended in order behind
/// the fields already parsed.
proof fn lemma_parse_encoded(
    data: Seq<u8>,
    pos: int,
    fs: Seq<(u8, Seq<char>)>,
    acc: Seq<(u8, Seq<char>)>,
)
    requires
        0 <= pos <= data.len(),
        data.subrange(pos, data.len() as int) == spec_fields_bytes(fs),
        spec_field_nums_unique(fs),
        spec_fields_fit(fs),
        forall|i: int, j: int|
            0 <= i < acc.len() && 0 <= j < fs.len() ==> acc[i].0 != fs[j].0,
    ensures
        spec_parse_fields(data, pos, acc) == Ok::<Seq<(u8, Seq<char>)>, PayError>(acc + fs),
    decreases fs.len(),
{
    let tail = data.subrange(pos, data.len() as int);
    if fs.len() == 0 {
        assert(tail.len() == 0);
        assert(pos >= data.len());
        assert(acc + fs =~= acc);
    } else {
        let f = fs[0];
        let vb = encode_utf8(f.1);
        let flen = vb.len() as int;
        let block = spec_field_block(f);
        let rest_bytes = spec_fields_bytes(fs.drop_first());
        assert(block.len() == 3 + flen);
        assert(tail == block + rest_bytes);
        assert(tail.len() == 3 + flen + rest_bytes.len());
        assert(flen <= 65535);
        assert(tail[0] == block[0] && tail[1] == block[1] && tail[2] == block[2]);
        assert(data[pos] == tail[0]);
        assert(data[pos + 1] == tail[1]);
        assert(data[pos + 2] == tail[2]);
        assert(block[0] == f.0);
        assert(data[pos + 1] == (flen / 256) as u8);
        assert(data[pos + 2] == (flen % 256) as u8);
        vstd::arithmetic::div_mod::lemma_div_is_ordered(flen, 65535, 256);
        vstd::arithmetic::div_mod::lemma_mod_bound(flen, 256);
        vstd::arithmetic::div_mod::lemma_fundamental_div_mod(flen, 256);
        assert((data[pos + 1] as int) * 256 + (data[pos + 2] as int) == flen);
        assert(pos + 3 + flen <= data.len());
        let parsed_vb = data.subrange(pos + 3, pos + 3 + flen);
        assert forall|k: int| 0 <= k < flen implies parsed_vb[k] == vb[k] by {
            assert(parsed_vb[k] == data[pos + 3 + k]);
            assert(data[pos + 3 + k] == tail[3 + k]);
            assert(tail[3 + k] == block[3 + k]);
            assert(block[3 + k] == vb[k]);
        }
        assert(parsed_vb =~= vb);
        vstd::utf8::encode_utf8_valid_utf8(f.1);
        vstd::utf8::encode_utf8_decode_utf8(f.1);
        assert(valid_utf8(parsed_vb));
        assert(decode_utf8(parsed_vb) == f.1);
        assert forall|i: int| 0 <= i < acc.len() implies acc[i].0 != f.0 by {}
        lemma_field_idx_absent(acc, f.0);
        assert(f == (f.0, f.1));
        assert(spec_upsert_field(acc, f.0, decode_utf8(parsed_vb)) == acc.push(f));
        let pos2 = pos + 3 + flen;
        let acc2 = acc.push(f);
        let fs2 = fs.drop_first();
        assert forall|k: int| 0 <= k < rest_bytes.len() implies data.subrange(
            pos2,
            data.len() as int,
        )[k] == rest_bytes[k] by {
            assert(data.subrange(pos2, data.len() as int)[k] == data[pos2 + k]);
            assert(data[pos2 + k] == tail[3 + flen + k]);
            assert(tail[3 + flen + k] == rest_bytes[k]);
        }
        assert(data.subrange(pos2, data.len() as int) =~= rest_bytes);
        assert forall|i: int, j: int|
            0 <= i < j < fs2.len() implies fs2[i].0 != fs2[j].0 by {
            assert(fs2[i] == fs[i + 1] && fs2[j] == fs[j + 1]);
        }
        assert forall|j: int| 0 <= j < fs2.len() implies encode_utf8(fs2[j].1).len()
            <= 65535 by {
            assert(fs2[j] == fs[j + 1]);
        }
        assert forall|i: int, j: int|
            0 <= i < acc2.len() && 0 <= j < fs2.len() implies acc2[i].0 != fs2[j].0 by {
            assert(fs2[j] == fs[j + 1]);
            if i < acc.len() {
                assert(acc2[i] == acc[i]);
            } else {
                assert(acc2[i] == f);
            }
        }
        lemma_parse_encoded(data, pos2, fs2, acc2);
        assert(acc.push(f) + fs.drop_first() =~= acc + fs);
    }
}

/// The wire codec round-trips: decoding the encoding of any
/// well-formed message yields that message back, bitmap included.
pub proof fn lemma_wire_round_trip(v: MsgView)
    requires
        spec_wf(v),
    ensures
        spec_deserialize(spec_serialize(v)) == Ok::<MsgView, PayError>(v),
{
    let data = spec_serialize(v);
    let mb = encode_utf8(v.mti);
    assert(data.len() == 12 + spec_fields_bytes(v.fields).len());
    assert(data.subrange(0, 4) =~= mb);
    vstd::utf8::encode_utf8_valid_utf8(v.mti);
    vstd::utf8::encode_utf8_decode_utf8(v.mti);
    assert(valid_utf8(data.subrange(0, 4)));
    assert(decode_utf8(data.subrange(0, 4)) == v.mti);
    assert(data.subrange(4, 12) =~= v.bitmap);
    assert(data.subrange(12, data.len() as int) =~= spec_fields_bytes(v.fields));
    lemma_parse_encoded(data, 12, v.fields, Seq::empty());
    assert(Seq::empty() + v.fields =~= v.fields);
    assert(spec_deserialize(data) == Ok::<MsgView, PayError>(
        MsgView {
            mti: decode_utf8(data.subrange(0, 4)),
            bitmap: data.subrange(4, 12),
            fields: Seq::empty() + v.fields,
        },
    ));
    assert(MsgView {
        mti: decode_utf8(data.subrange(0, 4)),
        bitmap: data.subrange(4, 12),
        fields: Seq::empty() + v.fields,
    } =~= v);
}

} // verus!
