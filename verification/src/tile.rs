//! The closed palette of tile colours and its integer encoding.

use vstd::prelude::*;

verus! {

/// One cell value: eight colours and the `Empty` sentinel.
#[derive(Debug, Copy, Clone, PartialEq, Eq, PartialOrd, Ord, Hash, Structural)]
pub enum Tile {
    Red,
    Green,
    Blue,
    Yellow,
    Orange,
    Purple,
    Brown,
    Pink,
    Empty,
}

/// The mood drawn on a cell: whether it already matches the goal.
#[derive(Debug, Copy, Clone, PartialEq, Eq, Hash, Structural)]
pub enum Face {
    Happy,
    Sad,
    Thinking,
}

/// Number of values in the palette, the sentinel included.
pub const PALETTE_SIZE: usize = 9;

/// The tile that a stored code stands for. Codes past the last colour all
/// decode to `Empty`.
pub open spec fn tile_of_code(code: u8) -> Tile {
    if code == 0 {
        Tile::Red
    } else if code == 1 {
        Tile::Green
    } else if code == 2 {
        Tile::Blue
    } else if code == 3 {
        Tile::Yellow
    } else if code == 4 {
        Tile::Orange
    } else if code == 5 {
        Tile::Purple
    } else if code == 6 {
        Tile::Brown
    } else if code == 7 {
        Tile::Pink
    } else {
        Tile::Empty
    }
}

/// The code under which a tile is stored: its position in the palette.
pub open spec fn code_of_tile(tile: Tile) -> u8 {
    match tile {
        Tile::Red => 0,
        Tile::Green => 1,
        Tile::Blue => 2,
        Tile::Yellow => 3,
        Tile::Orange => 4,
        Tile::Purple => 5,
        Tile::Brown => 6,
        Tile::Pink => 7,
        Tile::Empty => 8,
    }
}

/// The palette in code order.
pub open spec fn palette() -> Seq<Tile> {
    seq![
        Tile::Red,
        Tile::Green,
        Tile::Blue,
        Tile::Yellow,
        Tile::Orange,
        Tile::Purple,
        Tile::Brown,
        Tile::Pink,
        Tile::Empty,
    ]
}

impl Tile {
    /// Decodes a stored code.
    pub fn from_u8(value: u8) -> (tile: Tile)
        ensures
            tile == tile_of_code(value),
    {
        match value {
            0 => Tile::Red,
            1 => Tile::Green,
            2 => Tile::Blue,
            3 => Tile::Yellow,
            4 => Tile::Orange,
            5 => Tile::Purple,
            6 => Tile::Brown,
            7 => Tile::Pink,
            _ => Tile::Empty,
        }
    }

    /// Encodes the tile as the code a grid stores for it.
    pub fn code(self) -> (code: u8)
        ensures
            code == code_of_tile(self),
            code < 9,
    {
        match self {
            Tile::Red => 0,
            Tile::Green => 1,
            Tile::Blue => 2,
            Tile::Yellow => 3,
            Tile::Orange => 4,
            Tile::Purple => 5,
            Tile::Brown => 6,
            Tile::Pink => 7,
            Tile::Empty => 8,
        }
    }

    /// Every tile of the palette, in code order.
    pub fn all() -> (tiles: [Tile; 9])
        ensures
            tiles@ == palette(),
    {
        let tiles = [
            Tile::Red,
            Tile::Green,
            Tile::Blue,
            Tile::Yellow,
            Tile::Orange,
            Tile::Purple,
            Tile::Brown,
            Tile::Pink,
            Tile::Empty,
        ];
        assert(tiles@ =~= palette());
        tiles
    }
}

impl Tile {
    /// The picture of the tile in the tile sheet: the tiles come first, in
    /// code order.
    pub fn atlas_index(self) -> (picture: usize)
        ensures
            picture == code_of_tile(self),
    {
        let code = self.code();
        code as usize
    }
}

/// The picture of a face in the tile sheet: the faces follow the nine tiles.
pub open spec fn face_picture(face: Face) -> nat {
    match face {
        Face::Happy => 9,
        Face::Sad => 10,
        Face::Thinking => 11,
    }
}

impl Face {
    /// The picture of the face in the tile sheet.
    pub fn atlas_index(self) -> (picture: usize)
        ensures
            picture == face_picture(self),
    {
        match self {
            Face::Happy => 9,
            Face::Sad => 10,
            Face::Thinking => 11,
        }
    }
}

impl Default for Face {
    fn default() -> (face: Face)
        ensures
            face == Face::Thinking,
    {
        Face::Thinking
    }
}

impl Default for Tile {
    fn default() -> (tile: Tile)
        ensures
            tile == Tile::Empty,
    {
        Tile::Empty
    }
}

/// Decoding inverts encoding: every tile is recovered from its own code.
pub proof fn lemma_decode_encode(tile: Tile)
    ensures
        tile_of_code(code_of_tile(tile)) == tile,
        code_of_tile(tile) < 9,
{
}

/// Encoding inverts decoding on the codes of the palette, and every other
/// code is read as `Empty`.
pub proof fn lemma_encode_decode(code: u8)
    ensures
        code <= 8 ==> code_of_tile(tile_of_code(code)) == code,
        code >= 8 ==> tile_of_code(code) == Tile::Empty,
{
}

/// Distinct tiles are stored under distinct codes.
pub proof fn lemma_code_injective(a: Tile, b: Tile)
    requires
        code_of_tile(a) == code_of_tile(b),
    ensures
        a == b,
{
}

} // verus!
