use citrus_common::field::Field;
use citrus_common::panel::Exits;
use citrus_common::panel::Panel;
use citrus_common::panel::PanelKind;

#[test]
fn test_field() {
    Field::new_slice(&vec![
        vec![Panel::new(PanelKind::Home), Panel::new(PanelKind::Draw), Panel::new(PanelKind::Home)],
        vec![Panel::new(PanelKind::Bonus), Panel::new(PanelKind::Empty), Panel::new(PanelKind::Drop)],
        vec![Panel::new(PanelKind::Home), Panel::new(PanelKind::Encounter), Panel::new(PanelKind::Home)],
    ]);
}

#[test]
fn field_new_is_empty() {
    let field = Field::new();
    assert_eq!(field.width(), 0);
    assert_eq!(field.height(), 0);
    assert_eq!(field.iter().len(), 0);
}

#[test]
fn field_new_vec_dimensions() {
    let field = Field::new_vec(vec![Panel::new(PanelKind::Neutral); 6], 3, 2);
    assert_eq!(field.width(), 3);
    assert_eq!(field.height(), 2);
    assert_eq!(field.get(2, 1).panel().kind, PanelKind::Neutral);
}

#[test]
fn field_get_mut_writes_through() {
    let mut field = Field::new_vec(vec![Panel::new(PanelKind::Empty); 4], 2, 2);
    field.get_mut(1, 1).kind = PanelKind::Drop2x;
    assert_eq!(field.get(1, 1).panel().kind, PanelKind::Drop2x);
    assert_eq!(field.get(0, 0).panel().kind, PanelKind::Empty);
}

#[test]
fn field_iterators_row_major() {
    let mut field = Field::new_vec(vec![Panel::new(PanelKind::Empty); 6], 3, 2);
    field.get_mut(2, 0).kind = PanelKind::Warp;
    field.get_mut(0, 1).kind = PanelKind::Ice;

    let positions = field.iter();
    assert_eq!(positions.len(), 6);
    assert_eq!(positions[0], (0, 0));
    assert_eq!(positions[2], (2, 0));
    assert_eq!(positions[3], (0, 1));
    assert_eq!(positions[5], (2, 1));

    let row = field.row_iter(0);
    assert_eq!(row.len(), 3);
    assert_eq!(row[2].kind, PanelKind::Warp);

    let rows = field.rows_iter();
    assert_eq!(rows.len(), 2);
    assert_eq!(rows[1][0].kind, PanelKind::Ice);

    let column = field.column_iter(0);
    assert_eq!(column.len(), 2);
    assert_eq!(column[1].kind, PanelKind::Ice);

    let columns = field.columns_iter();
    assert_eq!(columns.len(), 3);
    assert_eq!(columns[2][0].kind, PanelKind::Warp);
}

// A 1x1 field: offsetting its only panel by one stays put instead of
// wrapping or panicking.
#[test]
fn offset_at_edge_stays_put() {
    let field = Field::new_vec(vec![Panel::new(PanelKind::Home)], 1, 1);
    let panel_ref = field.get(0, 0);
    assert!(panel_ref.offset(1, 0).is_err());
    let panel_ref = field.get(0, 0);
    assert!(panel_ref.offset(0, -1).is_err());
    let panel_ref = field.get(0, 0);
    assert!(panel_ref.offset(0, 0).is_ok());
}

#[test]
fn offset_walks_relative() {
    let mut field = Field::new_slice(&vec![
        vec![Panel::new(PanelKind::Draw), Panel::new(PanelKind::Encounter)],
        vec![Panel::new(PanelKind::Bonus), Panel::new(PanelKind::Drop)],
    ]);

    let panel = field.get(0, 0).offset(1, 1).ok().unwrap();
    assert_eq!(panel.panel().kind, PanelKind::Drop);

    let cursor = citrus_common::field::PanelMut::new(&field, 0, 0);
    let cursor = cursor.offset(&field, 1, 1).ok().unwrap();
    let mut drop_panel = cursor.read(&field);
    drop_panel.kind = PanelKind::Drop2x;
    cursor.write(&mut field, drop_panel);
    assert_eq!(field.get(1, 1).panel().kind, PanelKind::Drop2x);
}

// A 2x2 grid where only panel (0, 0) exits east: after reconstruction,
// panel (1, 0) has exactly the west backtrack exit and nothing else is set.
#[test]
fn backtrack_reconstruction_2x2() {
    let mut home = Panel::new(PanelKind::Home);
    home.exits = Exits::east();
    let mut field = Field::new_vec(
        vec![home, Panel::new(PanelKind::Neutral), Panel::new(PanelKind::Neutral), Panel::new(PanelKind::Neutral)],
        2,
        2,
    );

    field.build_backtrack();

    assert!(field.get(1, 0).panel().exits_backtrack.has(Exits::west()));
    assert_eq!(field.get(0, 0).panel().exits_backtrack, Exits::none());
    assert_eq!(field.get(0, 1).panel().exits_backtrack, Exits::none());
    assert_eq!(field.get(1, 1).panel().exits_backtrack, Exits::none());
    assert_eq!(
        field.get(1, 0).panel().exits_backtrack,
        Exits::west()
    );
}

// Running the reconstruction twice gives the same field as running it once.
#[test]
fn backtrack_reconstruction_idempotent() {
    let mut a = Panel::new(PanelKind::Draw);
    a.exits = Exits::east().union(Exits::north());
    let mut b = Panel::new(PanelKind::Bonus);
    b.exits = Exits::west();
    let mut c = Panel::new(PanelKind::Drop);
    c.exits = Exits::south();
    let d = Panel::new(PanelKind::Empty);

    let mut field = Field::new_vec(vec![a, b, c, d], 2, 2);
    field.build_backtrack();
    let once = field.panels().clone();
    field.build_backtrack();
    assert_eq!(field.panels(), &once);
}

// Stale backtrack bits are cleared by the pass, never accumulated.
#[test]
fn backtrack_reconstruction_clears_stale_bits() {
    let mut p = Panel::new(PanelKind::Neutral);
    p.exits_backtrack = Exits::south().union(Exits::east());
    let mut field = Field::new_vec(vec![p], 1, 1);
    field.build_backtrack();
    assert_eq!(field.get(0, 0).panel().exits_backtrack, Exits::none());
}

#[test]
fn exits_union_and_has() {
    let exits = Exits::south().union(Exits::north());
    assert!(exits.has(Exits::south()));
    assert!(exits.has(Exits::north()));
    assert!(!exits.has(Exits::east()));
    assert!(exits.has(Exits::south().union(Exits::north())));
    assert_eq!(Exits::none().union(Exits::west()), Exits::west());
}

// Packing the two exit nibbles into one byte and unpacking reproduces the
// original exits and backtrack exits exactly.
#[test]
fn exit_byte_roundtrip() {
    let mut p = Panel::new(PanelKind::Warp);
    p.exits = Exits::east().union(Exits::west());
    p.exits_backtrack = Exits::north().union(Exits::south());
    let packed = p.exits_internal();
    assert_eq!(packed, 0b1010_0101);
    let q = Panel::from_internal(p.kind, packed);
    assert_eq!(q.kind, p.kind);
    assert_eq!(q.exits, p.exits);
    assert_eq!(q.exits_backtrack, p.exits_backtrack);
}

#[test]
fn kind_codes_roundtrip() {
    let kinds = vec![
        PanelKind::Empty,
        PanelKind::Neutral,
        PanelKind::Home,
        PanelKind::Encounter,
        PanelKind::Draw,
        PanelKind::Bonus,
        PanelKind::Drop,
        PanelKind::Warp,
        PanelKind::Draw2x,
        PanelKind::Bonus2x,
        PanelKind::Drop2x,
        PanelKind::Deck,
        PanelKind::Encounter2x,
        PanelKind::Move,
        PanelKind::Move2x,
        PanelKind::WarpMove,
        PanelKind::WarpMove2x,
        PanelKind::Ice,
        PanelKind::Heal,
        PanelKind::Heal2x,
        PanelKind::Damage,
        PanelKind::Damage2x,
    ];
    for kind in kinds {
        assert_eq!(PanelKind::from_code(kind.code()), Some(kind));
    }
    assert_eq!(PanelKind::Empty.code(), 0x00);
    assert_eq!(PanelKind::Deck.code(), 0x12);
    assert_eq!(PanelKind::Damage2x.code(), 0x21);
    assert_eq!(PanelKind::from_code(0xFF), None);
    assert_eq!(PanelKind::from_code(0x13), None);
}
