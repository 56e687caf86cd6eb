//! Sides, piece kinds and piece codes. A piece code is `side * 7 + kind`:
//! 0..6 are Red's pieces, 7..13 Black's, and 14 or above marks an empty square.
use vstd::prelude::*;

verus! {

/// A side: Red moves first.
#[derive(Clone, Copy, Debug, PartialEq, Eq, PartialOrd, Ord, Hash, Structural)]
pub enum Color {
    Red,
    Black,
}

impl Color {
    /// Index of the side: 0 for Red, 1 for Black.
    pub open spec fn spec_index(self) -> nat {
        match self {
            Color::Red => 0,
            Color::Black => 1,
        }
    }

    /// The other side.
    pub fn flip(self) -> (r: Self)
        ensures
            r.spec_index() == 1 - self.spec_index(),
    {
        match self {
            Self::Red => Self::Black,
            Self::Black => Self::Red,
        }
    }

    /// Index of the side for array lookups.
    pub fn index(self) -> (r: usize)
        ensures
            r == self.spec_index(),
    {
        match self {
            Self::Red => 0,
            Self::Black => 1,
        }
    }

    /// The side's letter in FEN: `w` for Red, `b` for Black.
    pub fn char(self) -> (r: char)
        ensures
            r == (if self.spec_index() == 0 {
                'w'
            } else {
                'b'
            }),
    {
        match self {
            Self::Red => 'w',
            Self::Black => 'b',
        }
    }
}

/// The seven piece kinds.
#[derive(Clone, Copy, Debug, PartialEq, Eq, PartialOrd, Ord, Hash, Structural)]
pub enum Role {
    King,
    Advisor,
    Bishop,
    Knight,
    Rook,
    Cannon,
    Pawn,
}

/// Upper-case FEN letter of the kind with index `k` (0..6).
pub open spec fn role_letter(k: int) -> char {
    if k == 0 {
        'K'
    } else if k == 1 {
        'A'
    } else if k == 2 {
        'B'
    } else if k == 3 {
        'N'
    } else if k == 4 {
        'R'
    } else if k == 5 {
        'C'
    } else {
        'P'
    }
}

/// Lower-case FEN letter of the kind with index `k` (0..6).
pub open spec fn role_lower(k: int) -> char {
    if k == 0 {
        'k'
    } else if k == 1 {
        'a'
    } else if k == 2 {
        'b'
    } else if k == 3 {
        'n'
    } else if k == 4 {
        'r'
    } else if k == 5 {
        'c'
    } else {
        'p'
    }
}

impl Role {
    /// Index of the kind (King 0 .. Pawn 6).
    pub open spec fn spec_index(self) -> nat {
        match self {
            Role::King => 0,
            Role::Advisor => 1,
            Role::Bishop => 2,
            Role::Knight => 3,
            Role::Rook => 4,
            Role::Cannon => 5,
            Role::Pawn => 6,
        }
    }

    /// Index of the kind for array lookups.
    pub fn index(self) -> (r: usize)
        ensures
            r == self.spec_index(),
    {
        match self {
            Self::King => 0,
            Self::Advisor => 1,
            Self::Bishop => 2,
            Self::Knight => 3,
            Self::Rook => 4,
            Self::Cannon => 5,
            Self::Pawn => 6,
        }
    }

    /// Upper-case FEN letter of the kind.
    pub fn char(self) -> (r: char)
        ensures
            r == role_letter(self.spec_index() as int),
    {
        match self {
            Self::King => 'K',
            Self::Advisor => 'A',
            Self::Bishop => 'B',
            Self::Knight => 'N',
            Self::Rook => 'R',
            Self::Cannon => 'C',
            Self::Pawn => 'P',
        }
    }
}

/// FEN letter of piece code `p`: upper case for Red, lower case for Black,
/// `.` for an empty square.
pub open spec fn piece_letter(p: int) -> char {
    if p >= 14 {
        '.'
    } else if p < 7 {
        role_letter(p % 7)
    } else {
        role_lower(p % 7)
    }
}

/// Piece code of a FEN letter; 14 (empty) for any other character.
pub open spec fn code_of_letter(c: char) -> u8 {
    if c == 'K' {
        0
    } else if c == 'A' {
        1
    } else if c == 'B' {
        2
    } else if c == 'N' {
        3
    } else if c == 'R' {
        4
    } else if c == 'C' {
        5
    } else if c == 'P' {
        6
    } else if c == 'k' {
        7
    } else if c == 'a' {
        8
    } else if c == 'b' {
        9
    } else if c == 'n' {
        10
    } else if c == 'r' {
        11
    } else if c == 'c' {
        12
    } else if c == 'p' {
        13
    } else {
        14
    }
}

/// A piece code: 0..6 Red, 7..13 Black, 14 and above empty.
#[derive(Clone, Copy, Debug, PartialEq, Eq, PartialOrd, Ord, Hash, Structural)]
pub struct Piece(pub u8);

impl Piece {
    /// The piece of side `color` and kind `role`: code `color * 7 + role`.
    pub fn new(color: Color, role: Role) -> (r: Self)
        ensures
            r.0 == color.spec_index() * 7 + role.spec_index(),
    {
        Self((color.index() * 7 + role.index()) as u8)
    }

    /// The piece with code `code`.
    pub fn make(code: u8) -> (r: Self)
        ensures
            r.0 == code,
    {
        Self(code)
    }

    /// The empty square (code 14).
    pub fn none() -> (r: Self)
        ensures
            r.0 == 14,
    {
        Self(14)
    }

    /// The code as an array index.
    pub fn index(self) -> (r: usize)
        ensures
            r == self.0,
    {
        self.0 as usize
    }

    /// Whether the code marks an empty square (14 or above).
    pub fn empty(self) -> (r: bool)
        ensures
            r == (self.0 >= 14),
    {
        self.0 >= 14
    }

    /// Whether the code is a piece (below 14).
    pub fn valid(self) -> (r: bool)
        ensures
            r == (self.0 < 14),
    {
        self.0 < 14
    }

    /// Side of the piece, `None` for an empty square.
    pub fn color(self) -> (r: Option<Color>)
        ensures
            self.0 < 7 ==> r == Some(Color::Red),
            7 <= self.0 < 14 ==> r == Some(Color::Black),
            self.0 >= 14 ==> r.is_none(),
    {
        if self.0 < 7 {
            Some(Color::Red)
        } else if self.0 < 14 {
            Some(Color::Black)
        } else {
            None
        }
    }

    /// Kind of the piece (`code % 7`), `None` for an empty square.
    pub fn role(self) -> (r: Option<Role>)
        ensures
            self.0 < 14 ==> r.is_some() && r.unwrap().spec_index() == self.0 % 7,
            self.0 >= 14 ==> r.is_none(),
    {
        if self.0 >= 14 {
            return None;
        }
        match self.0 % 7 {
            0 => Some(Role::King),
            1 => Some(Role::Advisor),
            2 => Some(Role::Bishop),
            3 => Some(Role::Knight),
            4 => Some(Role::Rook),
            5 => Some(Role::Cannon),
            _ => Some(Role::Pawn),
        }
    }

    /// FEN letter of the piece: upper case for Red, lower case for Black, `.` when empty.
    pub fn char(self) -> (r: char)
        ensures
            r == piece_letter(self.0 as int),
    {
        if self.0 >= 14 {
            return '.';
        }
        let k = self.0 % 7;
        if self.0 < 7 {
            match k {
                0 => 'K',
                1 => 'A',
                2 => 'B',
                3 => 'N',
                4 => 'R',
                5 => 'C',
                _ => 'P',
            }
        } else {
            match k {
                0 => 'k',
                1 => 'a',
                2 => 'b',
                3 => 'n',
                4 => 'r',
                5 => 'c',
                _ => 'p',
            }
        }
    }

    /// The piece that a FEN letter names; the empty square for any other character.
    pub fn parse(char: char) -> (r: Self)
        ensures
            r.0 == code_of_letter(char),
    {
        match char {
            'K' => Self(0),
            'A' => Self(1),
            'B' => Self(2),
            'N' => Self(3),
            'R' => Self(4),
            'C' => Self(5),
            'P' => Self(6),
            'k' => Self(7),
            'a' => Self(8),
            'b' => Self(9),
            'n' => Self(10),
            'r' => Self(11),
            'c' => Self(12),
            'p' => Self(13),
            _ => Self(14),
        }
    }
}

/// Reading back the letter of a piece gives the piece: `parse` undoes `char`.
pub proof fn lemma_letter_roundtrip(p: u8)
    requires
        p < 14,
    ensures
        code_of_letter(piece_letter(p as int)) == p,
{
}

} // verus!
