//! Support for the `.fldx` format.
//!
//! A `.fldx` stream is self-describing. It starts with a four-byte header:
//! two little-endian `u16`s giving the width and then the height. A
//! flattened array of the field data follows, row-major, two bytes per
//! panel: the kind byte, then the packed exit byte, both as in the `.fld`
//! format.

use vstd::prelude::*;

use crate::field::Field;
use crate::format::FormatError;
use crate::format::InvalidSize;
use crate::format::base64_decode;
use crate::format::base64_encode;
use crate::format::read_u16;
use crate::format::spec_base64;
use crate::format::spec_u16_le;
use crate::format::spec_u16_le_bytes;
use crate::format::write_u16;
use crate::panel::Panel;
use crate::panel::PanelKind;
use crate::panel::panel_wf;
use crate::panel::spec_kind_code;
use crate::panel::spec_kind_of_code;
use crate::panel::spec_pack_exits;
use crate::panel::spec_unpack_panel;

verus! {

/// The width a `.fldx` stream declares in its header.
pub open spec fn spec_fldx_width(input: Seq<u8>) -> int {
    spec_u16_le(input[0], input[1]) as int
}

/// The height a `.fldx` stream declares in its header.
pub open spec fn spec_fldx_height(input: Seq<u8>) -> int {
    spec_u16_le(input[2], input[3]) as int
}

/// The kind byte of record `i` of a `.fldx` stream.
pub open spec fn spec_fldx_kind_byte(input: Seq<u8>, i: int) -> u8 {
    input[4 + 2 * i]
}

/// The packed exit byte of record `i` of a `.fldx` stream.
pub open spec fn spec_fldx_exits_byte(input: Seq<u8>, i: int) -> u8 {
    input[5 + 2 * i]
}

/// Each of the first `n` records of the stream carries a known kind byte.
pub open spec fn spec_fldx_records_ok(input: Seq<u8>, n: int) -> bool {
    forall|i: int|
        0 <= i < n ==> spec_kind_of_code(#[trigger] spec_fldx_kind_byte(input, i)) is Some
}

/// The panel that record `i` of a `.fldx` stream decodes to.
pub open spec fn spec_fldx_panel(input: Seq<u8>, i: int) -> Panel {
    spec_unpack_panel(
        spec_kind_of_code(spec_fldx_kind_byte(input, i)).unwrap(),
        spec_fldx_exits_byte(input, i),
    )
}

/// The two bytes of one panel record in the `.fldx` format.
pub open spec fn spec_fldx_record(p: Panel) -> Seq<u8> {
    seq![spec_kind_code(p.kind), spec_pack_exits(p)]
}

/// The body of a `.fldx` stream: the panel records, row-major.
pub open spec fn spec_fldx_body(data: Seq<Panel>) -> Seq<u8>
    decreases data.len(),
{
    if data.len() == 0 {
        Seq::empty()
    } else {
        spec_fldx_body(data.drop_last()) + spec_fldx_record(data.last())
    }
}

/// The whole `.fldx` encoding of a field with the given dimensions.
pub open spec fn spec_fldx_bytes(w: u16, h: u16, data: Seq<Panel>) -> Seq<u8> {
    spec_u16_le_bytes(w) + spec_u16_le_bytes(h) + spec_fldx_body(data)
}

/// The body holds two bytes for each panel.
pub proof fn lemma_fldx_body_len(data: Seq<Panel>)
    ensures
        spec_fldx_body(data).len() == 2 * data.len(),
    decreases data.len(),
{
    if data.len() > 0 {
        lemma_fldx_body_len(data.drop_last());
    }
}

/// Each record of an encoded body holds its panel's kind byte and packed
/// exit byte at the right offsets.
pub proof fn lemma_fldx_body_at(data: Seq<Panel>, i: int)
    requires
        0 <= i < data.len(),
    ensures
        spec_fldx_body(data)[2 * i] == spec_kind_code(data[i].kind),
        spec_fldx_body(data)[2 * i + 1] == spec_pack_exits(data[i]),
    decreases data.len(),
{
    lemma_fldx_body_len(data.drop_last());
    if i < data.len() - 1 {
        lemma_fldx_body_at(data.drop_last(), i);
    }
}

/// Round-trip law for the `.fldx` codec: a stream encoded from well-formed
/// panels declares the dimensions it was encoded with, is made of complete
/// records with known kind bytes, and each record decodes back to exactly
/// the panel it was written from.
pub proof fn lemma_fldx_roundtrip(w: u16, h: u16, data: Seq<Panel>)
    requires
        forall|i: int| 0 <= i < data.len() ==> panel_wf(#[trigger] data[i]),
    ensures
        spec_fldx_bytes(w, h, data).len() == 4 + 2 * data.len(),
        spec_fldx_width(spec_fldx_bytes(w, h, data)) == w,
        spec_fldx_height(spec_fldx_bytes(w, h, data)) == h,
        spec_fldx_records_ok(spec_fldx_bytes(w, h, data), data.len() as int),
        forall|i: int|
            0 <= i < data.len() ==> spec_fldx_panel(spec_fldx_bytes(w, h, data), i) == #[trigger] data[i],
{
    let bytes = spec_fldx_bytes(w, h, data);
    lemma_fldx_body_len(data);
    crate::format::lemma_u16_le_roundtrip(w);
    crate::format::lemma_u16_le_roundtrip(h);
    assert forall|i: int| 0 <= i < data.len() implies spec_kind_of_code(
        #[trigger] spec_fldx_kind_byte(bytes, i),
    ) is Some && spec_fldx_panel(bytes, i) == data[i] by {
        lemma_fldx_body_at(data, i);
        assert(spec_fldx_kind_byte(bytes, i) == spec_fldx_body(data)[2 * i]);
        assert(spec_fldx_exits_byte(bytes, i) == spec_fldx_body(data)[2 * i + 1]);
        crate::panel::lemma_kind_code_roundtrip(data[i].kind);
        crate::panel::lemma_pack_exits_roundtrip(data[i]);
    }
}

/// Encode a field to the `.fldx` format.
pub fn encode(field: &Field) -> (r: Vec<u8>)
    requires
        field.wf(),
        field.spec_width() <= u16::MAX,
        field.spec_height() <= u16::MAX,
    ensures
        r@ == spec_fldx_bytes(field.spec_width() as u16, field.spec_height() as u16, field@),
        r@.len() == 4 + 2 * field@.len(),
{
    let mut out: Vec<u8> = Vec::new();
    write_u16(&mut out, field.width() as u16);
    write_u16(&mut out, field.height() as u16);
    let ghost header = out@;
    let data = field.panels();
    let n = data.len();
    proof {
        assert(field@.take(0) =~= Seq::<Panel>::empty());
        assert(out@ =~= header + spec_fldx_body(field@.take(0)));
    }
    for i in 0..n
        invariant
            n == data@.len(),
            data@ == field@,
            header == spec_u16_le_bytes(field.spec_width() as u16) + spec_u16_le_bytes(
                field.spec_height() as u16,
            ),
            out@ == header + spec_fldx_body(field@.take(i as int)),
            out@.len() == 4 + 2 * i,
    {
        let p = data[i];
        out.push(p.kind.code());
        out.push(p.exits_internal());
        proof {
            assert(field@.take(i + 1).drop_last() =~= field@.take(i as int));
            assert(field@.take(i + 1).last() == field@[i as int]);
            assert(out@ =~= header + (spec_fldx_body(field@.take(i as int)) + spec_fldx_record(
                field@[i as int],
            )));
        }
    }
    proof {
        assert(field@.take(n as int) =~= field@);
        lemma_fldx_body_len(field@);
        assert(out@ =~= spec_fldx_bytes(
            field.spec_width() as u16,
            field.spec_height() as u16,
            field@,
        ));
    }
    out
}

/// Decode a field from the `.fldx` format.
pub fn decode(input: &[u8]) -> (r: Result<Field, FormatError>)
    ensures
        (r is Ok <==> input@.len() >= 4 && (input@.len() - 4) % 2 == 0 && spec_fldx_records_ok(
            input@,
            (input@.len() - 4) / 2,
        ) && (input@.len() - 4) / 2 == spec_fldx_width(input@) * spec_fldx_height(input@)),
        match r {
            Ok(f) => {
                &&& f.spec_width() == spec_fldx_width(input@)
                &&& f.spec_height() == spec_fldx_height(input@)
                &&& f.wf()
                &&& f@.len() == (input@.len() - 4) / 2
                &&& forall|i: int|
                    0 <= i < f@.len() ==> #[trigger] f@[i] == spec_fldx_panel(input@, i)
            },
            Err(FormatError::UnknownPanelKind(b)) => input@.len() >= 4 && exists|i: int|
                0 <= i < (input@.len() - 4) / 2 && spec_fldx_records_ok(input@, i)
                    && spec_kind_of_code(#[trigger] spec_fldx_kind_byte(input@, i)) is None && b
                    == spec_fldx_kind_byte(input@, i),
            Err(FormatError::SizeMismatch(s)) => {
                &&& input@.len() >= 4
                &&& spec_fldx_records_ok(input@, (input@.len() - 4) / 2)
                &&& (input@.len() - 4) % 2 == 0
                &&& (input@.len() - 4) / 2 != spec_fldx_width(input@) * spec_fldx_height(input@)
                &&& s.expected == spec_fldx_width(input@) * spec_fldx_height(input@)
                &&& s.got == (input@.len() - 4) / 2
            },
            Err(FormatError::UnexpectedEndOfInput) => input@.len() < 4 || (spec_fldx_records_ok(
                input@,
                (input@.len() - 4) / 2,
            ) && (input@.len() - 4) % 2 != 0),
            Err(FormatError::InvalidBase64) => false,
        },
{
    let n = input.len();
    if n < 4 {
        return Err(FormatError::UnexpectedEndOfInput);
    }
    let width = read_u16(input, 0) as usize;
    let height = read_u16(input, 2) as usize;
    let nrec = (n - 4) / 2;
    let mut data: Vec<Panel> = Vec::new();
    for i in 0..nrec
        invariant
            n == input@.len(),
            n >= 4,
            nrec == (n - 4) as int / 2,
            data@.len() == i,
            spec_fldx_records_ok(input@, i as int),
            forall|j: int|
                0 <= j < i ==> #[trigger] data@[j] == spec_fldx_panel(input@, j) && panel_wf(
                    data@[j],
                ),
    {
        let kind_byte = input[4 + 2 * i];
        let exits_byte = input[5 + 2 * i];
        match PanelKind::from_code(kind_byte) {
            Some(kind) => {
                data.push(Panel::from_internal(kind, exits_byte));
            },
            None => {
                proof {
                    assert(spec_kind_of_code(spec_fldx_kind_byte(input@, i as int)) is None);
                    assert(!spec_fldx_records_ok(input@, (n - 4) as int / 2));
                }
                return Err(FormatError::UnknownPanelKind(kind_byte));
            },
        }
    }
    if (n - 4) % 2 != 0 {
        return Err(FormatError::UnexpectedEndOfInput);
    }
    proof {
        assert(width as int * height as int <= 0xFFFE0001) by (nonlinear_arith)
            requires
                width as int <= 0xFFFF,
                height as int <= 0xFFFF,
        ;
    }
    let expected = width * height;
    if data.len() != expected {
        return Err(FormatError::SizeMismatch(InvalidSize::new(expected, data.len())));
    }
    Ok(Field::new_vec(data, width, height))
}

/// Encodes a field to a Base64 string.
pub fn encode_base64(field: &Field) -> (r: String)
    requires
        field.wf(),
        field.spec_width() <= u16::MAX,
        field.spec_height() <= u16::MAX,
        4 + 2 * field@.len() <= usize::MAX / 2,
    ensures
        r@ == spec_base64(
            spec_fldx_bytes(field.spec_width() as u16, field.spec_height() as u16, field@),
        ),
{
    let bytes = encode(field);
    base64_encode(&bytes)
}

/// Decodes a field from a Base64 string.
///
/// The decoded bytes then mean exactly what [`decode`] says of them.
pub fn decode_base64(data: &str) -> (r: Result<Field, FormatError>)
    ensures
        forall|bs: Seq<u8>|
            data@ == spec_base64(bs) ==> {
                &&& (r is Ok <==> bs.len() >= 4 && (bs.len() - 4) % 2 == 0
                    && spec_fldx_records_ok(bs, (bs.len() - 4) / 2) && (bs.len() - 4) / 2
                    == spec_fldx_width(bs) * spec_fldx_height(bs))
                &&& match r {
                    Ok(f) => {
                        &&& f.spec_width() == spec_fldx_width(bs)
                        &&& f.spec_height() == spec_fldx_height(bs)
                        &&& f.wf()
                        &&& f@.len() == (bs.len() - 4) / 2
                        &&& forall|i: int|
                            0 <= i < f@.len() ==> #[trigger] f@[i] == spec_fldx_panel(bs, i)
                    },
                    _ => true,
                }
            },
        r == Err::<Field, FormatError>(FormatError::InvalidBase64) ==> !(exists|bs: Seq<u8>|
            data@ == spec_base64(bs)),
{
    match base64_decode(data) {
        Some(bytes) => decode(bytes.as_slice()),
        None => Err(FormatError::InvalidBase64),
    }
}

} // verus!
