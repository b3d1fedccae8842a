//! Panels: a tile kind plus two 4-bit sets of directional exits.

use vstd::prelude::*;

verus! {

/// A set of exit directions, stored as a 4-bit mask.
///
/// Bit order, low to high: West, North, East, South. The upper four bits are
/// reserved and always zero.
#[derive(Clone, Copy, Debug, PartialEq, Eq, Structural)]
pub struct Exits(u8);

impl View for Exits {
    type V = u8;

    closed spec fn view(&self) -> u8 {
        self.0
    }
}

impl Exits {
    /// The mask is confined to the low four bits.
    pub open spec fn wf(&self) -> bool {
        self@ < 16
    }

    /// An `Exits` with no directions set.
    pub fn none() -> (r: Exits)
        ensures
            r@ == 0u8,
            r.wf(),
    {
        Exits(0)
    }

    /// The single direction west (bit 0).
    pub fn west() -> (r: Exits)
        ensures
            r@ == 0b0001u8,
            r.wf(),
    {
        Exits(0b0001)
    }

    /// The single direction north (bit 1).
    pub fn north() -> (r: Exits)
        ensures
            r@ == 0b0010u8,
            r.wf(),
    {
        Exits(0b0010)
    }

    /// The single direction east (bit 2).
    pub fn east() -> (r: Exits)
        ensures
            r@ == 0b0100u8,
            r.wf(),
    {
        Exits(0b0100)
    }

    /// The single direction south (bit 3).
    pub fn south() -> (r: Exits)
        ensures
            r@ == 0b1000u8,
            r.wf(),
    {
        Exits(0b1000)
    }

    /// An `Exits` with exactly the given low four bits set.
    pub(crate) fn from_bits(bits: u8) -> (r: Exits)
        requires
            bits < 16,
        ensures
            r@ == bits,
            r.wf(),
    {
        Exits(bits)
    }

    /// True if any direction of `rhs` is also set in `self`.
    pub fn has(&self, rhs: Exits) -> (r: bool)
        ensures
            r == ((self@ & rhs@) != 0),
    {
        self.0 & rhs.0 > 0
    }

    /// The union of two exit sets.
    pub fn union(self, rhs: Exits) -> (r: Exits)
        ensures
            r@ == (self@ | rhs@),
            self.wf() && rhs.wf() ==> r.wf(),
    {
        proof {
            let a = self.0;
            let b = rhs.0;
            assert(a < 16 && b < 16 ==> (a | b) < 16) by (bit_vector);
        }
        Exits(self.0 | rhs.0)
    }
}

/// Two exit sets with the same bits are the same value.
pub proof fn lemma_exits_view_injective(a: Exits, b: Exits)
    ensures
        a@ == b@ ==> a == b,
{
}

/// A single panel: its kind and its two exit sets.
///
/// `exits` is the forward ("play") connectivity; `exits_backtrack` is the
/// reverse connectivity used by the Backtrack game mode, derived from the
/// neighbours' forward exits by [`crate::field::Field::build_backtrack`].
#[derive(Clone, Copy, Debug, PartialEq, Eq, Structural)]
pub struct Panel {
    /// The panel's kind.
    pub kind: PanelKind,
    /// The exits a panel has.
    pub exits: Exits,
    /// The exits a panel has during Backtrack.
    pub exits_backtrack: Exits,
}

/// Both exit masks of a panel fit in their four bits.
pub open spec fn panel_wf(p: Panel) -> bool {
    p.exits.wf() && p.exits_backtrack.wf()
}

/// The packed exit byte of a panel: low nibble the forward exits, high nibble
/// the backtrack exits. This is the byte the file formats store.
pub open spec fn spec_pack_exits(p: Panel) -> u8 {
    (p.exits_backtrack@ << 4) | p.exits@
}

/// The panel encoded by a kind and a packed exit byte.
pub closed spec fn spec_unpack_panel(kind: PanelKind, exits: u8) -> Panel {
    Panel {
        kind,
        exits: Exits(exits & 0x0F),
        exits_backtrack: Exits((exits >> 4) & 0x0F),
    }
}

/// What a panel unpacked from a kind and a packed exit byte holds: the kind
/// itself, the byte's low nibble as forward exits and its high nibble as
/// backtrack exits.
pub proof fn lemma_unpack_panel_fields(kind: PanelKind, exits: u8)
    ensures
        spec_unpack_panel(kind, exits).kind == kind,
        spec_unpack_panel(kind, exits).exits@ == (exits & 0x0F),
        spec_unpack_panel(kind, exits).exits_backtrack@ == ((exits >> 4) & 0x0F),
        panel_wf(spec_unpack_panel(kind, exits)),
{
    assert((exits & 0x0F) < 16 && ((exits >> 4) & 0x0F) < 16) by (bit_vector);
}

impl Panel {
    /// A panel of the given kind with no exits in either set.
    pub fn new(kind: PanelKind) -> (r: Panel)
        ensures
            r.kind == kind,
            r.exits@ == 0u8,
            r.exits_backtrack@ == 0u8,
            panel_wf(r),
    {
        Panel { kind, exits: Exits::none(), exits_backtrack: Exits::none() }
    }

    /// Rebuilds a panel from its kind and its packed exit byte.
    pub fn from_internal(kind: PanelKind, exits: u8) -> (r: Panel)
        ensures
            r == spec_unpack_panel(kind, exits),
            r.kind == kind,
            r.exits@ == (exits & 0x0F),
            r.exits_backtrack@ == ((exits >> 4) & 0x0F),
            panel_wf(r),
    {
        proof {
            assert((exits & 0x0F) < 16 && ((exits >> 4) & 0x0F) < 16) by (bit_vector);
        }
        Panel {
            kind,
            exits: Exits(exits & 0x0F),
            exits_backtrack: Exits((exits >> 4) & 0x0F),
        }
    }

    /// The packed exit byte of this panel.
    pub fn exits_internal(&self) -> (r: u8)
        ensures
            r == spec_pack_exits(*self),
    {
        (self.exits_backtrack.0 << 4) | self.exits.0
    }
}

/// Packing the two exit masks into one byte and unpacking it again gives the
/// original panel back, for any panel whose masks fit their four bits.
pub proof fn lemma_pack_exits_roundtrip(p: Panel)
    requires
        panel_wf(p),
    ensures
        spec_unpack_panel(p.kind, spec_pack_exits(p)) == p,
{
    let packed = spec_pack_exits(p);
    let e = p.exits@;
    let b = p.exits_backtrack@;
    lemma_unpack_panel_fields(p.kind, packed);
    assert(e < 16 && b < 16 ==> (((b << 4) | e) & 0x0F) == e) by (bit_vector);
    assert(e < 16 && b < 16 ==> ((((b << 4) | e) >> 4) & 0x0F) == b) by (bit_vector);
    lemma_exits_view_injective(spec_unpack_panel(p.kind, packed).exits, p.exits);
    lemma_exits_view_injective(
        spec_unpack_panel(p.kind, packed).exits_backtrack,
        p.exits_backtrack,
    );
}

/// A panel's type.
///
/// Each kind corresponds to a fixed single-byte code in the field file
/// formats; see [`spec_kind_code`]. The codes for `WarpMove2x` and `Heal2x`
/// have not been confirmed against real game data.
#[derive(Clone, Copy, Debug, PartialEq, Eq, Structural)]
pub enum PanelKind {
    Empty,
    Neutral,
    Home,
    Encounter,
    Draw,
    Bonus,
    Drop,
    Warp,
    Draw2x,
    Bonus2x,
    Drop2x,
    Deck,
    Encounter2x,
    Move,
    Move2x,
    WarpMove,
    WarpMove2x,
    Ice,
    Heal,
    Heal2x,
    Damage,
    Damage2x,
}

/// The fixed byte code of each panel kind in the field file formats.
pub open spec fn spec_kind_code(k: PanelKind) -> u8 {
    match k {
        PanelKind::Empty => 0x00,
        PanelKind::Neutral => 0x01,
        PanelKind::Home => 0x02,
        PanelKind::Encounter => 0x03,
        PanelKind::Draw => 0x04,
        PanelKind::Bonus => 0x05,
        PanelKind::Drop => 0x06,
        PanelKind::Warp => 0x07,
        PanelKind::Draw2x => 0x08,
        PanelKind::Bonus2x => 0x09,
        PanelKind::Drop2x => 0x0A,
        PanelKind::Deck => 0x12,
        PanelKind::Encounter2x => 0x14,
        PanelKind::Move => 0x15,
        PanelKind::Move2x => 0x16,
        PanelKind::WarpMove => 0x17,
        PanelKind::WarpMove2x => 0x18,
        PanelKind::Ice => 0x19,
        PanelKind::Heal => 0x1B,
        PanelKind::Heal2x => 0x1C,
        PanelKind::Damage => 0x20,
        PanelKind::Damage2x => 0x21,
    }
}

/// The panel kind a byte code stands for, or `None` for an unassigned code.
pub open spec fn spec_kind_of_code(code: u8) -> Option<PanelKind> {
    if code == 0x00 {
        Some(PanelKind::Empty)
    } else if code == 0x01 {
        Some(PanelKind::Neutral)
    } else if code == 0x02 {
        Some(PanelKind::Home)
    } else if code == 0x03 {
        Some(PanelKind::Encounter)
    } else if code == 0x04 {
        Some(PanelKind::Draw)
    } else if code == 0x05 {
        Some(PanelKind::Bonus)
    } else if code == 0x06 {
        Some(PanelKind::Drop)
    } else if code == 0x07 {
        Some(PanelKind::Warp)
    } else if code == 0x08 {
        Some(PanelKind::Draw2x)
    } else if code == 0x09 {
        Some(PanelKind::Bonus2x)
    } else if code == 0x0A {
        Some(PanelKind::Drop2x)
    } else if code == 0x12 {
        Some(PanelKind::Deck)
    } else if code == 0x14 {
        Some(PanelKind::Encounter2x)
    } else if code == 0x15 {
        Some(PanelKind::Move)
    } else if code == 0x16 {
        Some(PanelKind::Move2x)
    } else if code == 0x17 {
        Some(PanelKind::WarpMove)
    } else if code == 0x18 {
        Some(PanelKind::WarpMove2x)
    } else if code == 0x19 {
        Some(PanelKind::Ice)
    } else if code == 0x1B {
        Some(PanelKind::Heal)
    } else if code == 0x1C {
        Some(PanelKind::Heal2x)
    } else if code == 0x20 {
        Some(PanelKind::Damage)
    } else if code == 0x21 {
        Some(PanelKind::Damage2x)
    } else {
        None
    }
}

impl PanelKind {
    /// The byte code of this kind in the field file formats.
    pub fn code(self) -> (r: u8)
        ensures
            r == spec_kind_code(self),
    {
        match self {
            PanelKind::Empty => 0x00,
            PanelKind::Neutral => 0x01,
            PanelKind::Home => 0x02,
            PanelKind::Encounter => 0x03,
            PanelKind::Draw => 0x04,
            PanelKind::Bonus => 0x05,
            PanelKind::Drop => 0x06,
            PanelKind::Warp => 0x07,
            PanelKind::Draw2x => 0x08,
            PanelKind::Bonus2x => 0x09,
            PanelKind::Drop2x => 0x0A,
            PanelKind::Deck => 0x12,
            PanelKind::Encounter2x => 0x14,
            PanelKind::Move => 0x15,
            PanelKind::Move2x => 0x16,
            PanelKind::WarpMove => 0x17,
            PanelKind::WarpMove2x => 0x18,
            PanelKind::Ice => 0x19,
            PanelKind::Heal => 0x1B,
            PanelKind::Heal2x => 0x1C,
            PanelKind::Damage => 0x20,
            PanelKind::Damage2x => 0x21,
        }
    }

    /// The kind a byte code stands for; `None` when the code is unassigned.
    pub fn from_code(code: u8) -> (r: Option<PanelKind>)
        ensures
            r == spec_kind_of_code(code),
    {
        if code == 0x00 {
            Some(PanelKind::Empty)
        } else if code == 0x01 {
            Some(PanelKind::Neutral)
        } else if code == 0x02 {
            Some(PanelKind::Home)
        } else if code == 0x03 {
            Some(PanelKind::Encounter)
        } else if code == 0x04 {
            Some(PanelKind::Draw)
        } else if code == 0x05 {
            Some(PanelKind::Bonus)
        } else if code == 0x06 {
            Some(PanelKind::Drop)
        } else if code == 0x07 {
            Some(PanelKind::Warp)
        } else if code == 0x08 {
            Some(PanelKind::Draw2x)
        } else if code == 0x09 {
            Some(PanelKind::Bonus2x)
        } else if code == 0x0A {
            Some(PanelKind::Drop2x)
        } else if code == 0x12 {
            Some(PanelKind::Deck)
        } else if code == 0x14 {
            Some(PanelKind::Encounter2x)
        } else if code == 0x15 {
            Some(PanelKind::Move)
        } else if code == 0x16 {
            Some(PanelKind::Move2x)
        } else if code == 0x17 {
            Some(PanelKind::WarpMove)
        } else if code == 0x18 {
            Some(PanelKind::WarpMove2x)
        } else if code == 0x19 {
            Some(PanelKind::Ice)
        } else if code == 0x1B {
            Some(PanelKind::Heal)
        } else if code == 0x1C {
            Some(PanelKind::Heal2x)
        } else if code == 0x20 {
            Some(PanelKind::Damage)
        } else if code == 0x21 {
            Some(PanelKind::Damage2x)
        } else {
            None
        }
    }
}

/// A kind's byte code always decodes back to that kind.
pub proof fn lemma_kind_code_roundtrip(k: PanelKind)
    ensures
        spec_kind_of_code(spec_kind_code(k)) == Some(k),
{
}

} // verus!
