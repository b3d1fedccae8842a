use citrus_common::field::Field;
use citrus_common::format::FormatError;
use citrus_common::format::fld;
use citrus_common::format::fldx;
use citrus_common::panel::Exits;
use citrus_common::panel::Panel;
use citrus_common::panel::PanelKind;

/// A 15x15 board in the style of the training field: a ring of connected
/// panels of assorted kinds around an empty interior.
fn training_style_field() -> Field {
    let mut data: Vec<Panel> = Vec::new();
    let kinds = [
        PanelKind::Home,
        PanelKind::Neutral,
        PanelKind::Draw,
        PanelKind::Bonus,
        PanelKind::Drop,
        PanelKind::Encounter,
    ];
    for y in 0..15 {
        for x in 0..15 {
            let edge = x == 0 || y == 0 || x == 14 || y == 14;
            let mut p = if edge {
                Panel::new(kinds[(x + y) % kinds.len()])
            } else {
                Panel::new(PanelKind::Empty)
            };
            if edge {
                if y == 0 && x < 14 {
                    p.exits = p.exits.union(Exits::east());
                }
                if x == 14 && y < 14 {
                    p.exits = p.exits.union(Exits::north());
                }
                if y == 14 && x > 0 {
                    p.exits = p.exits.union(Exits::west());
                }
                if x == 0 && y > 0 {
                    p.exits = p.exits.union(Exits::south());
                }
            }
            data.push(p);
        }
    }
    Field::new_vec(data, 15, 15)
}

#[test]
fn test_fld_read() {
    let field = training_style_field();
    let bytes = fld::encode(&field);
    assert_eq!(bytes.len(), 15 * 15 * 8);

    fld::decode(fld::S15, &bytes).unwrap();
}

#[test]
fn test_fldx_read() {
    let field = training_style_field();
    let bytes = fldx::encode(&field);
    assert_eq!(bytes.len(), 4 + 15 * 15 * 2);

    fldx::decode(&bytes).unwrap();
}

// Decoding what encode produced reproduces the field, record for record.
#[test]
fn fld_roundtrip() {
    let field = training_style_field();
    let bytes = fld::encode(&field);
    let decoded = fld::decode((15, 15), &bytes).unwrap();
    assert_eq!(decoded.width(), field.width());
    assert_eq!(decoded.height(), field.height());
    assert_eq!(decoded.panels(), field.panels());
}

#[test]
fn fldx_roundtrip() {
    let field = training_style_field();
    let bytes = fldx::encode(&field);
    let decoded = fldx::decode(&bytes).unwrap();
    assert_eq!(decoded.width(), field.width());
    assert_eq!(decoded.height(), field.height());
    assert_eq!(decoded.panels(), field.panels());
}

// Encoding a 2x1 field [Home exits east, Neutral exits west] gives the
// exact documented byte stream, and decoding it reproduces the field.
#[test]
fn fldx_known_bytes() {
    let mut home = Panel::new(PanelKind::Home);
    home.exits = Exits::east();
    let mut neutral = Panel::new(PanelKind::Neutral);
    neutral.exits = Exits::west();
    let field = Field::new_vec(vec![home, neutral], 2, 1);

    let bytes = fldx::encode(&field);
    assert_eq!(bytes, vec![0x02, 0x00, 0x01, 0x00, 0x02, 0x04, 0x01, 0x01]);

    let decoded = fldx::decode(&bytes).unwrap();
    assert_eq!(decoded.width(), 2);
    assert_eq!(decoded.height(), 1);
    assert_eq!(decoded.panels(), field.panels());
}

#[test]
fn fld_known_bytes() {
    let mut home = Panel::new(PanelKind::Home);
    home.exits = Exits::east();
    let field = Field::new_vec(vec![home], 1, 1);
    let bytes = fld::encode(&field);
    assert_eq!(bytes, vec![0x02, 0x00, 0x00, 0x00, 0x04, 0x00, 0x00, 0x00]);
}

// A 2x2 header with only three panel records is a size mismatch, not a
// silently short field.
#[test]
fn fldx_missing_record_is_size_mismatch() {
    let bytes = vec![
        0x02, 0x00, // width 2
        0x02, 0x00, // height 2
        0x01, 0x00, // record 0
        0x01, 0x00, // record 1
        0x01, 0x00, // record 2: one record short
    ];
    match fldx::decode(&bytes) {
        Err(FormatError::SizeMismatch(s)) => {
            assert_eq!(s.expected, 4);
            assert_eq!(s.got, 3);
        },
        r => panic!("expected a size mismatch, got {:?}", r.map(|f| f.width())),
    }
}

// Kind byte 0xFF is unassigned: decoding fails naming that byte.
#[test]
fn fldx_unknown_kind_identifies_byte() {
    let bytes = vec![
        0x01, 0x00, // width 1
        0x01, 0x00, // height 1
        0xFF, 0x00, // record with an unassigned kind byte
    ];
    match fldx::decode(&bytes) {
        Err(FormatError::UnknownPanelKind(b)) => assert_eq!(b, 0xFF),
        r => panic!("expected an unknown kind, got {:?}", r.map(|f| f.width())),
    }
}

#[test]
fn fld_unknown_kind_identifies_byte() {
    let bytes = vec![0xFF, 0, 0, 0, 0, 0, 0, 0];
    match fld::decode((1, 1), &bytes) {
        Err(FormatError::UnknownPanelKind(b)) => assert_eq!(b, 0xFF),
        r => panic!("expected an unknown kind, got {:?}", r.map(|f| f.width())),
    }
}

#[test]
fn fld_size_mismatch() {
    let bytes = vec![0x01, 0, 0, 0, 0, 0, 0, 0];
    match fld::decode((2, 1), &bytes) {
        Err(FormatError::SizeMismatch(s)) => {
            assert_eq!(s.expected, 2);
            assert_eq!(s.got, 1);
        },
        r => panic!("expected a size mismatch, got {:?}", r.map(|f| f.width())),
    }
}

// A trailing partial record ends the stream early.
#[test]
fn fld_partial_record_is_end_of_input() {
    let bytes = vec![0x01, 0, 0, 0, 0, 0, 0, 0, 0x01, 0, 0];
    match fld::decode((1, 1), &bytes) {
        Err(FormatError::UnexpectedEndOfInput) => {},
        r => panic!("expected end of input, got {:?}", r.map(|f| f.width())),
    }
}

// A header cut short ends the stream early.
#[test]
fn fldx_short_header_is_end_of_input() {
    match fldx::decode(&vec![0x02]) {
        Err(FormatError::UnexpectedEndOfInput) => {},
        r => panic!("expected end of input, got {:?}", r.map(|f| f.width())),
    }
    match fldx::decode(&vec![0x02, 0x00, 0x02]) {
        Err(FormatError::UnexpectedEndOfInput) => {},
        r => panic!("expected end of input, got {:?}", r.map(|f| f.width())),
    }
}

// The Base64 transport is a pure wrapper: decoding what encode_base64
// produced reproduces the field.
#[test]
fn fld_base64_roundtrip() {
    let field = training_style_field();
    let text = fld::encode_base64(&field);
    let decoded = fld::decode_base64((15, 15), &text).unwrap();
    assert_eq!(decoded.panels(), field.panels());
}

#[test]
fn fldx_base64_roundtrip() {
    let field = training_style_field();
    let text = fldx::encode_base64(&field);
    let decoded = fldx::decode_base64(&text).unwrap();
    assert_eq!(decoded.width(), 15);
    assert_eq!(decoded.height(), 15);
    assert_eq!(decoded.panels(), field.panels());
}

// The Base64 text really is Base64 of the raw stream, URL-safe and padded.
#[test]
fn fldx_base64_known_text() {
    let mut home = Panel::new(PanelKind::Home);
    home.exits = Exits::east();
    let mut neutral = Panel::new(PanelKind::Neutral);
    neutral.exits = Exits::west();
    let field = Field::new_vec(vec![home, neutral], 2, 1);
    // bytes 02 00 01 00 02 04 01 01
    assert_eq!(fldx::encode_base64(&field), "AgABAAIEAQE=");
}

#[test]
fn base64_rejects_invalid_text() {
    match fldx::decode_base64("not*base64*at*all") {
        Err(FormatError::InvalidBase64) => {},
        r => panic!("expected invalid text to be rejected, got {:?}", r.map(|f| f.width())),
    }
    match fld::decode_base64((1, 1), "????") {
        Err(FormatError::InvalidBase64) => {},
        r => panic!("expected invalid text to be rejected, got {:?}", r.map(|f| f.width())),
    }
}
