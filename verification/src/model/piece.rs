//! Piece kinds of both rule families and their movement tables.

use vstd::prelude::*;
use super::types::PlayerId;

verus! {

/// Every kind of piece. `S_` kinds follow shogi rules, `C_` kinds chess rules.
#[allow(non_camel_case_types)]
#[derive(Debug, Clone, Copy, PartialEq, Eq, Hash, Structural)]
pub enum PieceKind {
    S_King,
    S_Rook,
    S_Bishop,
    S_Gold,
    S_Silver,
    S_Knight,
    S_Lance,
    S_Pawn,
    S_ProRook,
    S_ProBishop,
    S_ProSilver,
    S_ProKnight,
    S_ProLance,
    S_ProPawn,
    C_King,
    C_Queen,
    C_Rook,
    C_Bishop,
    C_Knight,
    C_Pawn,
}

/// The number of piece kinds.
pub const PIECE_KINDS: usize = 20;

impl PieceKind {
    /// The position of the kind in the enumeration, from 0.
    pub open spec fn index(self) -> int {
        match self {
            PieceKind::S_King => 0,
            PieceKind::S_Rook => 1,
            PieceKind::S_Bishop => 2,
            PieceKind::S_Gold => 3,
            PieceKind::S_Silver => 4,
            PieceKind::S_Knight => 5,
            PieceKind::S_Lance => 6,
            PieceKind::S_Pawn => 7,
            PieceKind::S_ProRook => 8,
            PieceKind::S_ProBishop => 9,
            PieceKind::S_ProSilver => 10,
            PieceKind::S_ProKnight => 11,
            PieceKind::S_ProLance => 12,
            PieceKind::S_ProPawn => 13,
            PieceKind::C_King => 14,
            PieceKind::C_Queen => 15,
            PieceKind::C_Rook => 16,
            PieceKind::C_Bishop => 17,
            PieceKind::C_Knight => 18,
            PieceKind::C_Pawn => 19,
        }
    }

    /// The kind at a position of the enumeration; positions past the end give
    /// the last kind.
    pub open spec fn at(i: int) -> PieceKind {
        if i == 0 {
            PieceKind::S_King
        } else if i == 1 {
            PieceKind::S_Rook
        } else if i == 2 {
            PieceKind::S_Bishop
        } else if i == 3 {
            PieceKind::S_Gold
        } else if i == 4 {
            PieceKind::S_Silver
        } else if i == 5 {
            PieceKind::S_Knight
        } else if i == 6 {
            PieceKind::S_Lance
        } else if i == 7 {
            PieceKind::S_Pawn
        } else if i == 8 {
            PieceKind::S_ProRook
        } else if i == 9 {
            PieceKind::S_ProBishop
        } else if i == 10 {
            PieceKind::S_ProSilver
        } else if i == 11 {
            PieceKind::S_ProKnight
        } else if i == 12 {
            PieceKind::S_ProLance
        } else if i == 13 {
            PieceKind::S_ProPawn
        } else if i == 14 {
            PieceKind::C_King
        } else if i == 15 {
            PieceKind::C_Queen
        } else if i == 16 {
            PieceKind::C_Rook
        } else if i == 17 {
            PieceKind::C_Bishop
        } else if i == 18 {
            PieceKind::C_Knight
        } else {
            PieceKind::C_Pawn
        }
    }

    /// Whether the kind belongs to the shogi family.
    pub open spec fn is_shogi(self) -> bool {
        self.index() <= 13
    }

    /// Whether the kind is one of the two kings.
    pub open spec fn is_king(self) -> bool {
        self == PieceKind::S_King || self == PieceKind::C_King
    }

    /// Whether the kind is one of the two unpromoted pawns.
    pub open spec fn is_pawn(self) -> bool {
        self == PieceKind::S_Pawn || self == PieceKind::C_Pawn
    }

    /// The kind a piece of this kind turns into when it promotes, if it can.
    /// For the chess pawn this names the default target, the queen.
    pub open spec fn promoted(self) -> Option<PieceKind> {
        match self {
            PieceKind::S_Rook => Some(PieceKind::S_ProRook),
            PieceKind::S_Bishop => Some(PieceKind::S_ProBishop),
            PieceKind::S_Silver => Some(PieceKind::S_ProSilver),
            PieceKind::S_Knight => Some(PieceKind::S_ProKnight),
            PieceKind::S_Lance => Some(PieceKind::S_ProLance),
            PieceKind::S_Pawn => Some(PieceKind::S_ProPawn),
            PieceKind::C_Pawn => Some(PieceKind::C_Queen),
            _ => None,
        }
    }

    /// The kind a piece of this kind has in a hand: promotion is undone.
    pub open spec fn unpromoted(self) -> PieceKind {
        match self {
            PieceKind::S_ProRook => PieceKind::S_Rook,
            PieceKind::S_ProBishop => PieceKind::S_Bishop,
            PieceKind::S_ProSilver => PieceKind::S_Silver,
            PieceKind::S_ProKnight => PieceKind::S_Knight,
            PieceKind::S_ProLance => PieceKind::S_Lance,
            PieceKind::S_ProPawn => PieceKind::S_Pawn,
            _ => self,
        }
    }

    /// The character that stands for the kind on a rendered board.
    pub open spec fn glyph(self) -> char {
        match self {
            PieceKind::S_King => '王',
            PieceKind::S_Rook => '飛',
            PieceKind::S_Bishop => '角',
            PieceKind::S_Gold => '金',
            PieceKind::S_Silver => '銀',
            PieceKind::S_Knight => '桂',
            PieceKind::S_Lance => '香',
            PieceKind::S_Pawn => '歩',
            PieceKind::S_ProRook => '竜',
            PieceKind::S_ProBishop => '馬',
            PieceKind::S_ProSilver => '全',
            PieceKind::S_ProKnight => '圭',
            PieceKind::S_ProLance => '杏',
            PieceKind::S_ProPawn => 'と',
            PieceKind::C_King => 'K',
            PieceKind::C_Queen => 'Q',
            PieceKind::C_Rook => 'R',
            PieceKind::C_Bishop => 'B',
            PieceKind::C_Knight => 'N',
            PieceKind::C_Pawn => 'P',
        }
    }

    pub fn display_char(&self) -> (c: char)
        ensures
            c == self.glyph(),
    {
        match self {
            PieceKind::S_King => '王',
            PieceKind::S_Rook => '飛',
            PieceKind::S_Bishop => '角',
            PieceKind::S_Gold => '金',
            PieceKind::S_Silver => '銀',
            PieceKind::S_Knight => '桂',
            PieceKind::S_Lance => '香',
            PieceKind::S_Pawn => '歩',
            PieceKind::S_ProRook => '竜',
            PieceKind::S_ProBishop => '馬',
            PieceKind::S_ProSilver => '全',
            PieceKind::S_ProKnight => '圭',
            PieceKind::S_ProLance => '杏',
            PieceKind::S_ProPawn => 'と',
            PieceKind::C_King => 'K',
            PieceKind::C_Queen => 'Q',
            PieceKind::C_Rook => 'R',
            PieceKind::C_Bishop => 'B',
            PieceKind::C_Knight => 'N',
            PieceKind::C_Pawn => 'P',
        }
    }

    /// The position of the kind in the enumeration.
    pub fn to_index(self) -> (i: usize)
        ensures
            i == self.index(),
            i < PIECE_KINDS,
    {
        match self {
            PieceKind::S_King => 0,
            PieceKind::S_Rook => 1,
            PieceKind::S_Bishop => 2,
            PieceKind::S_Gold => 3,
            PieceKind::S_Silver => 4,
            PieceKind::S_Knight => 5,
            PieceKind::S_Lance => 6,
            PieceKind::S_Pawn => 7,
            PieceKind::S_ProRook => 8,
            PieceKind::S_ProBishop => 9,
            PieceKind::S_ProSilver => 10,
            PieceKind::S_ProKnight => 11,
            PieceKind::S_ProLance => 12,
            PieceKind::S_ProPawn => 13,
            PieceKind::C_King => 14,
            PieceKind::C_Queen => 15,
            PieceKind::C_Rook => 16,
            PieceKind::C_Bishop => 17,
            PieceKind::C_Knight => 18,
            PieceKind::C_Pawn => 19,
        }
    }

    /// The kind at a position of the enumeration.
    pub fn from_index(i: usize) -> (k: PieceKind)
        requires
            i < PIECE_KINDS,
        ensures
            k == PieceKind::at(i as int),
            k.index() == i,
    {
        if i == 0 {
            PieceKind::S_King
        } else if i == 1 {
            PieceKind::S_Rook
        } else if i == 2 {
            PieceKind::S_Bishop
        } else if i == 3 {
            PieceKind::S_Gold
        } else if i == 4 {
            PieceKind::S_Silver
        } else if i == 5 {
            PieceKind::S_Knight
        } else if i == 6 {
            PieceKind::S_Lance
        } else if i == 7 {
            PieceKind::S_Pawn
        } else if i == 8 {
            PieceKind::S_ProRook
        } else if i == 9 {
            PieceKind::S_ProBishop
        } else if i == 10 {
            PieceKind::S_ProSilver
        } else if i == 11 {
            PieceKind::S_ProKnight
        } else if i == 12 {
            PieceKind::S_ProLance
        } else if i == 13 {
            PieceKind::S_ProPawn
        } else if i == 14 {
            PieceKind::C_King
        } else if i == 15 {
            PieceKind::C_Queen
        } else if i == 16 {
            PieceKind::C_Rook
        } else if i == 17 {
            PieceKind::C_Bishop
        } else if i == 18 {
            PieceKind::C_Knight
        } else {
            PieceKind::C_Pawn
        }
    }

    /// The name of the kind, as it is written in this library.
    pub open spec fn name_text(self) -> Seq<char> {
        match self {
            PieceKind::S_King => "S_King"@,
            PieceKind::S_Rook => "S_Rook"@,
            PieceKind::S_Bishop => "S_Bishop"@,
            PieceKind::S_Gold => "S_Gold"@,
            PieceKind::S_Silver => "S_Silver"@,
            PieceKind::S_Knight => "S_Knight"@,
            PieceKind::S_Lance => "S_Lance"@,
            PieceKind::S_Pawn => "S_Pawn"@,
            PieceKind::S_ProRook => "S_ProRook"@,
            PieceKind::S_ProBishop => "S_ProBishop"@,
            PieceKind::S_ProSilver => "S_ProSilver"@,
            PieceKind::S_ProKnight => "S_ProKnight"@,
            PieceKind::S_ProLance => "S_ProLance"@,
            PieceKind::S_ProPawn => "S_ProPawn"@,
            PieceKind::C_King => "C_King"@,
            PieceKind::C_Queen => "C_Queen"@,
            PieceKind::C_Rook => "C_Rook"@,
            PieceKind::C_Bishop => "C_Bishop"@,
            PieceKind::C_Knight => "C_Knight"@,
            PieceKind::C_Pawn => "C_Pawn"@,
        }
    }

    /// The name of the kind.
    pub fn name(self) -> (n: &'static str)
        ensures
            n@ == self.name_text(),
    {
        match self {
            PieceKind::S_King => "S_King",
            PieceKind::S_Rook => "S_Rook",
            PieceKind::S_Bishop => "S_Bishop",
            PieceKind::S_Gold => "S_Gold",
            PieceKind::S_Silver => "S_Silver",
            PieceKind::S_Knight => "S_Knight",
            PieceKind::S_Lance => "S_Lance",
            PieceKind::S_Pawn => "S_Pawn",
            PieceKind::S_ProRook => "S_ProRook",
            PieceKind::S_ProBishop => "S_ProBishop",
            PieceKind::S_ProSilver => "S_ProSilver",
            PieceKind::S_ProKnight => "S_ProKnight",
            PieceKind::S_ProLance => "S_ProLance",
            PieceKind::S_ProPawn => "S_ProPawn",
            PieceKind::C_King => "C_King",
            PieceKind::C_Queen => "C_Queen",
            PieceKind::C_Rook => "C_Rook",
            PieceKind::C_Bishop => "C_Bishop",
            PieceKind::C_Knight => "C_Knight",
            PieceKind::C_Pawn => "C_Pawn",
        }
    }

    pub fn is_king_kind(self) -> (b: bool)
        ensures
            b == self.is_king(),
    {
        self == PieceKind::S_King || self == PieceKind::C_King
    }

    pub fn is_pawn_kind(self) -> (b: bool)
        ensures
            b == self.is_pawn(),
    {
        self == PieceKind::S_Pawn || self == PieceKind::C_Pawn
    }
}

/// One entry of a movement table, as an offset (files, ranks).
#[derive(Debug, Clone, Copy, PartialEq, Eq, Structural)]
pub enum MoveStep {
    /// A single jump to the square at the offset.
    Step(i32, i32),
    /// A ray in the direction of the offset, up to the first occupied square.
    Slide(i32, i32),
}

/// The single step by the offset (`dx`, `dy`).
pub open spec fn step(dx: int, dy: int) -> MoveStep {
    MoveStep::Step(dx as i32, dy as i32)
}

/// The ray in the direction (`dx`, `dy`).
pub open spec fn slide(dx: int, dy: int) -> MoveStep {
    MoveStep::Slide(dx as i32, dy as i32)
}

/// The eight neighbouring offsets, as single steps.
pub open spec fn king_steps() -> Seq<MoveStep> {
    seq![
        step(-1, -1),
        step(0, -1),
        step(1, -1),
        step(-1, 0),
        step(1, 0),
        step(-1, 1),
        step(0, 1),
        step(1, 1),
    ]
}

/// The four rays along files and ranks.
pub open spec fn rook_slides() -> Seq<MoveStep> {
    seq![
        slide(0, -1),
        slide(0, 1),
        slide(-1, 0),
        slide(1, 0),
    ]
}

/// The four diagonal rays.
pub open spec fn bishop_slides() -> Seq<MoveStep> {
    seq![
        slide(-1, -1),
        slide(-1, 1),
        slide(1, -1),
        slide(1, 1),
    ]
}

/// The four diagonal neighbours, as single steps.
pub open spec fn diagonal_steps() -> Seq<MoveStep> {
    seq![
        step(-1, -1),
        step(-1, 1),
        step(1, -1),
        step(1, 1),
    ]
}

/// The four neighbours along files and ranks, as single steps.
pub open spec fn straight_steps() -> Seq<MoveStep> {
    seq![
        step(0, -1),
        step(0, 1),
        step(-1, 0),
        step(1, 0),
    ]
}

/// The six steps of a gold general that advances in direction `f`.
pub open spec fn gold_steps(f: int) -> Seq<MoveStep> {
    seq![
        step(-1, f),
        step(0, f),
        step(1, f),
        step(-1, 0),
        step(1, 0),
        step(0, -f),
    ]
}

/// The five steps of a silver general that advances in direction `f`.
pub open spec fn silver_steps(f: int) -> Seq<MoveStep> {
    seq![
        step(-1, f),
        step(0, f),
        step(1, f),
        step(-1, -f),
        step(1, -f),
    ]
}

/// The eight jumps of a chess knight.
pub open spec fn chess_knight_steps() -> Seq<MoveStep> {
    seq![
        step(-2, -1),
        step(-2, 1),
        step(2, -1),
        step(2, 1),
        step(-1, -2),
        step(-1, 2),
        step(1, -2),
        step(1, 2),
    ]
}

/// The movement table of a kind for a given owner. The chess pawn has none:
/// it moves and captures differently and is generated on its own.
pub open spec fn movement_table(kind: PieceKind, owner: PlayerId) -> Seq<MoveStep> {
    let f = owner.forward();
    match kind {
        PieceKind::S_King | PieceKind::C_King => king_steps(),
        PieceKind::S_Rook | PieceKind::C_Rook => rook_slides(),
        PieceKind::S_Bishop | PieceKind::C_Bishop => bishop_slides(),
        PieceKind::C_Queen => rook_slides() + bishop_slides(),
        PieceKind::S_Gold
        | PieceKind::S_ProSilver
        | PieceKind::S_ProKnight
        | PieceKind::S_ProLance
        | PieceKind::S_ProPawn => gold_steps(f),
        PieceKind::S_Silver => silver_steps(f),
        PieceKind::S_Knight => seq![
            step(-1, 2 * f),
            step(1, 2 * f),
        ],
        PieceKind::S_Lance => seq![slide(0, f)],
        PieceKind::S_Pawn => seq![step(0, f)],
        PieceKind::C_Knight => chess_knight_steps(),
        PieceKind::S_ProRook => rook_slides() + diagonal_steps(),
        PieceKind::S_ProBishop => bishop_slides() + straight_steps(),
        PieceKind::C_Pawn => Seq::empty(),
    }
}

/// A piece on the board or in play.
#[derive(Debug, Clone, Copy, PartialEq, Eq, Structural)]
pub struct Piece {
    pub kind: PieceKind,
    pub owner: PlayerId,
    /// Whether the piece belongs to the shogi family; follows from the kind.
    pub is_shogi: bool,
}

impl Piece {
    /// The piece of a kind and an owner, with the family flag that the kind gives.
    pub open spec fn of(kind: PieceKind, owner: PlayerId) -> Piece {
        Piece { kind, owner, is_shogi: kind.is_shogi() }
    }

    pub fn new(kind: PieceKind, owner: PlayerId) -> (p: Self)
        ensures
            p == Piece::of(kind, owner),
    {
        let is_shogi = kind.to_index() <= 13;
        Piece { kind, owner, is_shogi }
    }

    /// The movement table of the piece.
    pub fn movement_rules(&self) -> (rules: Vec<MoveStep>)
        ensures
            rules@ == movement_table(self.kind, self.owner),
    {
        let f: i32 = match self.owner {
            PlayerId::Player1 => -1,
            PlayerId::Player2 => 1,
        };
        let b: i32 = -f;
        let f2: i32 = 2 * f;
        let rules = match self.kind {
            PieceKind::S_King | PieceKind::C_King => vec![
                MoveStep::Step(-1, -1),
                MoveStep::Step(0, -1),
                MoveStep::Step(1, -1),
                MoveStep::Step(-1, 0),
                MoveStep::Step(1, 0),
                MoveStep::Step(-1, 1),
                MoveStep::Step(0, 1),
                MoveStep::Step(1, 1),
            ],
            PieceKind::S_Rook | PieceKind::C_Rook => vec![
                MoveStep::Slide(0, -1),
                MoveStep::Slide(0, 1),
                MoveStep::Slide(-1, 0),
                MoveStep::Slide(1, 0),
            ],
            PieceKind::S_Bishop | PieceKind::C_Bishop => vec![
                MoveStep::Slide(-1, -1),
                MoveStep::Slide(-1, 1),
                MoveStep::Slide(1, -1),
                MoveStep::Slide(1, 1),
            ],
            PieceKind::C_Queen => vec![
                MoveStep::Slide(0, -1),
                MoveStep::Slide(0, 1),
                MoveStep::Slide(-1, 0),
                MoveStep::Slide(1, 0),
                MoveStep::Slide(-1, -1),
                MoveStep::Slide(-1, 1),
                MoveStep::Slide(1, -1),
                MoveStep::Slide(1, 1),
            ],
            PieceKind::S_Gold
            | PieceKind::S_ProSilver
            | PieceKind::S_ProKnight
            | PieceKind::S_ProLance
            | PieceKind::S_ProPawn => vec![
                MoveStep::Step(-1, f),
                MoveStep::Step(0, f),
                MoveStep::Step(1, f),
                MoveStep::Step(-1, 0),
                MoveStep::Step(1, 0),
                MoveStep::Step(0, b),
            ],
            PieceKind::S_Silver => vec![
                MoveStep::Step(-1, f),
                MoveStep::Step(0, f),
                MoveStep::Step(1, f),
                MoveStep::Step(-1, b),
                MoveStep::Step(1, b),
            ],
            PieceKind::S_Knight => vec![MoveStep::Step(-1, f2), MoveStep::Step(1, f2)],
            PieceKind::S_Lance => vec![MoveStep::Slide(0, f)],
            PieceKind::S_Pawn => vec![MoveStep::Step(0, f)],
            PieceKind::C_Knight => vec![
                MoveStep::Step(-2, -1),
                MoveStep::Step(-2, 1),
                MoveStep::Step(2, -1),
                MoveStep::Step(2, 1),
                MoveStep::Step(-1, -2),
                MoveStep::Step(-1, 2),
                MoveStep::Step(1, -2),
                MoveStep::Step(1, 2),
            ],
            PieceKind::S_ProRook => vec![
                MoveStep::Slide(0, -1),
                MoveStep::Slide(0, 1),
                MoveStep::Slide(-1, 0),
                MoveStep::Slide(1, 0),
                MoveStep::Step(-1, -1),
                MoveStep::Step(-1, 1),
                MoveStep::Step(1, -1),
                MoveStep::Step(1, 1),
            ],
            PieceKind::S_ProBishop => vec![
                MoveStep::Slide(-1, -1),
                MoveStep::Slide(-1, 1),
                MoveStep::Slide(1, -1),
                MoveStep::Slide(1, 1),
                MoveStep::Step(0, -1),
                MoveStep::Step(0, 1),
                MoveStep::Step(-1, 0),
                MoveStep::Step(1, 0),
            ],
            PieceKind::C_Pawn => Vec::new(),
        };
        assert(rules@ =~= movement_table(self.kind, self.owner));
        rules
    }

    pub fn display_char(&self) -> (c: char)
        ensures
            c == self.kind.glyph(),
    {
        self.kind.display_char()
    }

    /// The kind that the piece becomes when it promotes, if it has one.
    pub fn promotable_kind(&self) -> (r: Option<PieceKind>)
        ensures
            r == self.kind.promoted(),
    {
        match self.kind {
            PieceKind::S_Rook => Some(PieceKind::S_ProRook),
            PieceKind::S_Bishop => Some(PieceKind::S_ProBishop),
            PieceKind::S_Silver => Some(PieceKind::S_ProSilver),
            PieceKind::S_Knight => Some(PieceKind::S_ProKnight),
            PieceKind::S_Lance => Some(PieceKind::S_ProLance),
            PieceKind::S_Pawn => Some(PieceKind::S_ProPawn),
            PieceKind::C_Pawn => Some(PieceKind::C_Queen),
            _ => None,
        }
    }

    /// The kind under which the piece enters a hand.
    pub fn unpromoted_kind(&self) -> (r: PieceKind)
        ensures
            r == self.kind.unpromoted(),
    {
        match self.kind {
            PieceKind::S_ProRook => PieceKind::S_Rook,
            PieceKind::S_ProBishop => PieceKind::S_Bishop,
            PieceKind::S_ProSilver => PieceKind::S_Silver,
            PieceKind::S_ProKnight => PieceKind::S_Knight,
            PieceKind::S_ProLance => PieceKind::S_Lance,
            PieceKind::S_ProPawn => PieceKind::S_Pawn,
            _ => self.kind,
        }
    }
}

} // verus!
