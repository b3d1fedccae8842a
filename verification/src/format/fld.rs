//! Support for the game's own `.fld` format.
//!
//! A `.fld` stream is a flattened two-dimensional array of panels with no
//! header; the dimensions travel out of band. Each panel takes eight bytes:
//! the kind byte, three padding bytes, the packed exit byte, and three more
//! padding bytes — an artifact of a four-byte integer encoding in which only
//! the low byte ever mattered. Padding bytes are ignored on decode and
//! written as zero on encode.

use vstd::prelude::*;

use crate::field::Field;
use crate::format::FormatError;
use crate::format::InvalidSize;
use crate::format::base64_decode;
use crate::format::base64_encode;
use crate::format::spec_base64;
use crate::panel::Panel;
use crate::panel::PanelKind;
use crate::panel::panel_wf;
use crate::panel::spec_kind_code;
use crate::panel::spec_kind_of_code;
use crate::panel::spec_pack_exits;
use crate::panel::spec_unpack_panel;

verus! {

/// A square field with the dimensions `15x15`.
///
/// One canonical board size.
pub const S15: (usize, usize) = (15, 15);

/// The kind byte of record `i` of a `.fld` stream.
pub open spec fn spec_fld_kind_byte(input: Seq<u8>, i: int) -> u8 {
    input[8 * i]
}

/// The packed exit byte of record `i` of a `.fld` stream.
pub open spec fn spec_fld_exits_byte(input: Seq<u8>, i: int) -> u8 {
    input[8 * i + 4]
}

/// Each of the first `n` records of the stream carries a known kind byte.
pub open spec fn spec_fld_records_ok(input: Seq<u8>, n: int) -> bool {
    forall|i: int|
        0 <= i < n ==> spec_kind_of_code(#[trigger] spec_fld_kind_byte(input, i)) is Some
}

/// The panel that record `i` of a `.fld` stream decodes to.
pub open spec fn spec_fld_panel(input: Seq<u8>, i: int) -> Panel {
    spec_unpack_panel(
        spec_kind_of_code(spec_fld_kind_byte(input, i)).unwrap(),
        spec_fld_exits_byte(input, i),
    )
}

/// The eight bytes of one panel record in the `.fld` format.
pub open spec fn spec_fld_record(p: Panel) -> Seq<u8> {
    seq![spec_kind_code(p.kind), 0u8, 0u8, 0u8, spec_pack_exits(p), 0u8, 0u8, 0u8]
}

/// The `.fld` encoding of a sequence of panels, row-major.
pub open spec fn spec_fld_bytes(data: Seq<Panel>) -> Seq<u8>
    decreases data.len(),
{
    if data.len() == 0 {
        Seq::empty()
    } else {
        spec_fld_bytes(data.drop_last()) + spec_fld_record(data.last())
    }
}

/// An encoded stream holds eight bytes for each panel.
pub proof fn lemma_fld_bytes_len(data: Seq<Panel>)
    ensures
        spec_fld_bytes(data).len() == 8 * data.len(),
    decreases data.len(),
{
    if data.len() > 0 {
        lemma_fld_bytes_len(data.drop_last());
    }
}

/// Each record of an encoded stream holds its panel's kind byte and packed
/// exit byte at the right offsets.
pub proof fn lemma_fld_bytes_at(data: Seq<Panel>, i: int)
    requires
        0 <= i < data.len(),
    ensures
        spec_fld_kind_byte(spec_fld_bytes(data), i) == spec_kind_code(data[i].kind),
        spec_fld_exits_byte(spec_fld_bytes(data), i) == spec_pack_exits(data[i]),
    decreases data.len(),
{
    lemma_fld_bytes_len(data.drop_last());
    if i < data.len() - 1 {
        lemma_fld_bytes_at(data.drop_last(), i);
    }
}

/// Round-trip law for the `.fld` codec: a stream encoded from well-formed
/// panels is made of complete records, every kind byte is known, and each
/// record decodes back to exactly the panel it was written from.
pub proof fn lemma_fld_roundtrip(data: Seq<Panel>)
    requires
        forall|i: int| 0 <= i < data.len() ==> panel_wf(#[trigger] data[i]),
    ensures
        spec_fld_bytes(data).len() == 8 * data.len(),
        spec_fld_records_ok(spec_fld_bytes(data), data.len() as int),
        forall|i: int|
            0 <= i < data.len() ==> spec_fld_panel(spec_fld_bytes(data), i) == #[trigger] data[i],
{
    lemma_fld_bytes_len(data);
    assert forall|i: int| 0 <= i < data.len() implies spec_kind_of_code(
        #[trigger] spec_fld_kind_byte(spec_fld_bytes(data), i),
    ) is Some && spec_fld_panel(spec_fld_bytes(data), i) == data[i] by {
        lemma_fld_bytes_at(data, i);
        crate::panel::lemma_kind_code_roundtrip(data[i].kind);
        crate::panel::lemma_pack_exits_roundtrip(data[i]);
    }
}

/// Encode a field to the `.fld` format.
pub fn encode(field: &Field) -> (r: Vec<u8>)
    requires
        field.wf(),
    ensures
        r@ == spec_fld_bytes(field@),
        r@.len() == 8 * field@.len(),
{
    let data = field.panels();
    let mut out: Vec<u8> = Vec::new();
    let n = data.len();
    proof {
        assert(field@.take(0) =~= Seq::<Panel>::empty());
    }
    for i in 0..n
        invariant
            n == data@.len(),
            data@ == field@,
            out@ == spec_fld_bytes(field@.take(i as int)),
            out@.len() == 8 * i,
    {
        let p = data[i];
        out.push(p.kind.code());
        out.push(0);
        out.push(0);
        out.push(0);
        out.push(p.exits_internal());
        out.push(0);
        out.push(0);
        out.push(0);
        proof {
            assert(field@.take(i + 1).drop_last() =~= field@.take(i as int));
            assert(field@.take(i + 1).last() == field@[i as int]);
            assert(out@ =~= spec_fld_bytes(field@.take(i as int)) + spec_fld_record(
                field@[i as int],
            ));
        }
    }
    proof {
        assert(field@.take(n as int) =~= field@);
        lemma_fld_bytes_len(field@);
    }
    out
}

/// Decode a field from the `.fld` format.
///
/// Requires a width and height, as the `.fld` format does not contain this
/// data. Uses a tuple, so constants can be defined and used for different
/// field dimensions.
pub fn decode(dims: (usize, usize), input: &[u8]) -> (r: Result<Field, FormatError>)
    requires
        dims.0 * dims.1 <= usize::MAX,
    ensures
        (r is Ok <==> input@.len() % 8 == 0 && spec_fld_records_ok(
            input@,
            input@.len() as int / 8,
        ) && input@.len() as int / 8 == dims.0 * dims.1),
        match r {
            Ok(f) => {
                &&& f.spec_width() == dims.0
                &&& f.spec_height() == dims.1
                &&& f.wf()
                &&& f@.len() == input@.len() as int / 8
                &&& forall|i: int|
                    0 <= i < f@.len() ==> #[trigger] f@[i] == spec_fld_panel(input@, i)
            },
            Err(FormatError::UnknownPanelKind(b)) => exists|i: int|
                0 <= i < input@.len() as int / 8 && spec_fld_records_ok(input@, i)
                    && spec_kind_of_code(#[trigger] spec_fld_kind_byte(input@, i)) is None && b
                    == spec_fld_kind_byte(input@, i),
            Err(FormatError::SizeMismatch(s)) => {
                &&& spec_fld_records_ok(input@, input@.len() as int / 8)
                &&& input@.len() % 8 == 0
                &&& input@.len() as int / 8 != dims.0 * dims.1
                &&& s.expected == dims.0 * dims.1
                &&& s.got == input@.len() as int / 8
            },
            Err(FormatError::UnexpectedEndOfInput) => {
                &&& spec_fld_records_ok(input@, input@.len() as int / 8)
                &&& input@.len() % 8 != 0
            },
            Err(FormatError::InvalidBase64) => false,
        },
{
    let (width, height) = dims;
    let n = input.len();
    let nrec = n / 8;
    let mut data: Vec<Panel> = Vec::new();
    for i in 0..nrec
        invariant
            n == input@.len(),
            nrec == n as int / 8,
            data@.len() == i,
            spec_fld_records_ok(input@, i as int),
            forall|j: int|
                0 <= j < i ==> #[trigger] data@[j] == spec_fld_panel(input@, j) && panel_wf(
                    data@[j],
                ),
    {
        let kind_byte = input[8 * i];
        let exits_byte = input[8 * i + 4];
        match PanelKind::from_code(kind_byte) {
            Some(kind) => {
                data.push(Panel::from_internal(kind, exits_byte));
            },
            None => {
                proof {
                    assert(spec_kind_of_code(spec_fld_kind_byte(input@, i as int)) is None);
                    assert(!spec_fld_records_ok(input@, n as int / 8));
                }
                return Err(FormatError::UnknownPanelKind(kind_byte));
            },
        }
    }
    if n % 8 != 0 {
        return Err(FormatError::UnexpectedEndOfInput);
    }
    let expected = width * height;
    if data.len() != expected {
        return Err(FormatError::SizeMismatch(InvalidSize::new(expected, data.len())));
    }
    Ok(Field::new_vec(data, width, height))
}

/// Encodes a field to a Base64 string.
pub fn encode_base64(field: &Field) -> (r: String)
    requires
        field.wf(),
        8 * field@.len() <= usize::MAX / 2,
    ensures
        r@ == spec_base64(spec_fld_bytes(field@)),
{
    let bytes = encode(field);
    base64_encode(&bytes)
}

/// Decodes a field from a Base64 string.
///
/// Requires a width and height, as the `.fld` format does not contain this
/// data. The decoded bytes then mean exactly what [`decode`] says of them.
pub fn decode_base64(dims: (usize, usize), data: &str) -> (r: Result<Field, FormatError>)
    requires
        dims.0 * dims.1 <= usize::MAX,
    ensures
        forall|bs: Seq<u8>|
            data@ == spec_base64(bs) ==> {
                &&& (r is Ok <==> bs.len() % 8 == 0 && spec_fld_records_ok(bs, bs.len() as int / 8)
                    && bs.len() as int / 8 == dims.0 * dims.1)
                &&& match r {
                    Ok(f) => {
                        &&& f.spec_width() == dims.0
                        &&& f.spec_height() == dims.1
                        &&& f.wf()
                        &&& f@.len() == bs.len() as int / 8
                        &&& forall|i: int|
                            0 <= i < f@.len() ==> #[trigger] f@[i] == spec_fld_panel(bs, i)
                    },
                    _ => true,
                }
            },
        r == Err::<Field, FormatError>(FormatError::InvalidBase64) ==> !(exists|bs: Seq<u8>|
            data@ == spec_base64(bs)),
{
    match base64_decode(data) {
        Some(bytes) => decode(dims, bytes.as_slice()),
        None => Err(FormatError::InvalidBase64),
    }
}

} // verus!
