//! The picture of a chessboard: where each tile goes for the side that looks
//! at it, which colour it takes, and the sprites laid over it (file and rank
//! strips, the check marker, the pieces). Tiles are painted onto a canvas
//! here; the sprites are blended in by whoever holds the sprite images.
//!
//! The picture is 576 pixels square: a 32 pixel margin around a board of
//! eight by eight tiles of 64 pixels.
use vstd::prelude::*;

verus! {

pub const TILE: u32 = 64;
pub const EDGE: u32 = 32;
pub const BOARD: u32 = 512;
pub const BOARD_FULL: u32 = 576;

/// A colour in red, green and blue.
#[derive(Debug, Clone, Copy, PartialEq, Eq, Structural)]
pub struct Rgb {
    pub r: u8,
    pub g: u8,
    pub b: u8,
}

pub open spec fn rgb(r: u8, g: u8, b: u8) -> Rgb {
    Rgb { r, g, b }
}

pub open spec fn dark() -> Rgb { rgb(0xb5, 0x88, 0x63) }
pub open spec fn light() -> Rgb { rgb(0xf0, 0xd9, 0xb5) }
pub open spec fn dark_highlight() -> Rgb { rgb(0xaa, 0xa2, 0x3b) }
pub open spec fn light_highlight() -> Rgb { rgb(0xce, 0xd2, 0x6b) }
pub open spec fn neutral() -> Rgb { rgb(0xc9, 0xa3, 0x7e) }

/// The colour of the margin around the board.
pub fn neutral_color() -> (r: Rgb)
    ensures r == neutral(),
{
    Rgb { r: 0xc9, g: 0xa3, b: 0x7e }
}

/// The side whose player sits at the bottom of the picture.
#[derive(Debug, Clone, Copy, PartialEq, Eq, Structural)]
pub enum Side {
    White,
    Black,
}

/// The kind of a chess piece.
#[derive(Debug, Clone, Copy, PartialEq, Eq, Structural)]
pub enum Role {
    Queen,
    King,
    Rook,
    Bishop,
    Knight,
    Pawn,
}

/// Whether the square of `file` and `rank` (both from 0) is dark: the board
/// has dark squares in the bottom left and top right corners.
pub open spec fn is_dark(file: int, rank: int) -> bool {
    file % 2 == rank % 2
}

/// The colour of a dark or light square, highlighted or not.
pub open spec fn tone(dark_square: bool, highlighted: bool) -> Rgb {
    if dark_square {
        if highlighted { dark_highlight() } else { dark() }
    } else {
        if highlighted { light_highlight() } else { light() }
    }
}

pub open spec fn square_color_spec(file: int, rank: int, highlighted: bool) -> Rgb {
    tone(is_dark(file, rank), highlighted)
}

fn tone_of(dark_square: bool, highlighted: bool) -> (r: Rgb)
    ensures r == tone(dark_square, highlighted),
{
    if dark_square {
        if highlighted { Rgb { r: 0xaa, g: 0xa2, b: 0x3b } } else { Rgb { r: 0xb5, g: 0x88, b: 0x63 } }
    } else {
        if highlighted { Rgb { r: 0xce, g: 0xd2, b: 0x6b } } else { Rgb { r: 0xf0, g: 0xd9, b: 0xb5 } }
    }
}

/// The colour of a square, highlighted or not.
pub fn square_color(file: u32, rank: u32, highlighted: bool) -> (r: Rgb)
    ensures r == square_color_spec(file as int, rank as int, highlighted),
{
    if file % 2 == rank % 2 {
        if highlighted { Rgb { r: 0xaa, g: 0xa2, b: 0x3b } } else { Rgb { r: 0xb5, g: 0x88, b: 0x63 } }
    } else {
        if highlighted { Rgb { r: 0xce, g: 0xd2, b: 0x6b } } else { Rgb { r: 0xf0, g: 0xd9, b: 0xb5 } }
    }
}

/// The column and row (from the top left) at which the square of `file` and
/// `rank` is drawn: the player of `side` looks from the bottom, so White's
/// first rank is the bottom row and Black's view is turned around.
pub open spec fn tile_cell(side: Side, file: int, rank: int) -> (int, int) {
    match side {
        Side::Black => (7 - file, rank),
        Side::White => (file, 7 - rank),
    }
}

/// The top left pixel of a square's tile, with margins `mx` and `my` to the
/// left of and above the board.
pub open spec fn origin_in(side: Side, file: int, rank: int, mx: int, my: int) -> (int, int) {
    let (x, y) = tile_cell(side, file, rank);
    (x * 64 + mx, y * 64 + my)
}

pub open spec fn tile_origin_spec(side: Side, file: int, rank: int) -> (int, int) {
    origin_in(side, file, rank, 32, 32)
}

/// The top left pixel of a square's tile, with margins `mx` and `my`.
pub fn tile_origin_in(side: Side, file: u32, rank: u32, mx: u32, my: u32) -> (r: (u32, u32))
    requires file < 8, rank < 8, mx <= 64, my <= 64,
    ensures r.0 as int == origin_in(side, file as int, rank as int, mx as int, my as int).0,
        r.1 as int == origin_in(side, file as int, rank as int, mx as int, my as int).1,
{
    let (x, y) = match side {
        Side::Black => (7 - file, rank),
        Side::White => (file, 7 - rank),
    };
    (x * TILE + mx, y * TILE + my)
}

/// The top left pixel of the tile of a square.
pub fn tile_origin(side: Side, file: u32, rank: u32) -> (r: (u32, u32))
    requires file < 8, rank < 8,
    ensures r.0 as int == tile_origin_spec(side, file as int, rank as int).0,
        r.1 as int == tile_origin_spec(side, file as int, rank as int).1,
{
    let (x, y) = match side {
        Side::Black => (7 - file, rank),
        Side::White => (file, 7 - rank),
    };
    (x * TILE + EDGE, y * TILE + EDGE)
}

/// The square (file, rank) whose tile covers the pixel at `x`, `y`, where
/// the pixel lies on the board.
pub open spec fn square_at(side: Side, x: int, y: int) -> (int, int) {
    let cx = (x - 32) / 64;
    let cy = (y - 32) / 64;
    match side {
        Side::Black => (7 - cx, cy),
        Side::White => (cx, 7 - cy),
    }
}

pub open spec fn on_board(x: int, y: int) -> bool {
    32 <= x < 544 && 32 <= y < 544
}

/// The colour of the pixel at `x`, `y` once the tiles are painted.
pub open spec fn board_pixel(side: Side, highlighted: Seq<(u32, u32)>, x: int, y: int) -> Rgb {
    if on_board(x, y) {
        let (file, rank) = square_at(side, x, y);
        square_color_spec(file, rank, highlighted.contains((file as u32, rank as u32)))
    } else {
        neutral()
    }
}

/// Whether `(file, rank)` is among `squares`.
pub fn contains_square(squares: &Vec<(u32, u32)>, file: u32, rank: u32) -> (r: bool)
    ensures r == squares@.contains((file, rank)),
{
    let mut i: usize = 0;
    while i < squares.len()
        invariant
            i <= squares@.len(),
            forall|k: int| 0 <= k < i ==> squares@[k] != (file, rank),
        decreases squares@.len() - i,
    {
        if squares[i].0 == file && squares[i].1 == rank {
            assert(squares@[i as int] == (file, rank));
            return true;
        }
        i = i + 1;
    }
    false
}

/// A picture: `height` rows of `width` pixels.
#[derive(Debug, Clone)]
pub struct Canvas {
    width: u32,
    height: u32,
    rows: Vec<Vec<Rgb>>,
}

impl Canvas {
    pub closed spec fn w(&self) -> nat {
        self.width as nat
    }

    pub closed spec fn h(&self) -> nat {
        self.height as nat
    }

    /// The width in pixels.
    pub fn width(&self) -> (r: u32)
        ensures r == self.w(),
    {
        self.width
    }

    /// The height in pixels.
    pub fn height(&self) -> (r: u32)
        ensures r == self.h(),
    {
        self.height
    }

    pub closed spec fn wf(&self) -> bool {
        &&& self.rows@.len() == self.height
        &&& forall|y: int| 0 <= y < self.height ==> (#[trigger] self.rows@[y])@.len() == self.width
    }

    /// The pixel at column `x` of row `y`.
    pub closed spec fn at(&self, x: int, y: int) -> Rgb {
        self.rows@[y]@[x]
    }

    /// A picture of one colour.
    pub fn filled(width: u32, height: u32, color: Rgb) -> (r: Canvas)
        ensures
            r.wf(),
            r.w() == width,
            r.h() == height,
            forall|x: int, y: int| 0 <= x < width && 0 <= y < height ==> #[trigger] r.at(x, y) == color,
    {
        let mut row: Vec<Rgb> = Vec::new();
        let mut i: u32 = 0;
        while i < width
            invariant
                i <= width,
                row@.len() == i,
                forall|x: int| 0 <= x < i ==> row@[x] == color,
            decreases width - i,
        {
            row.push(color);
            i = i + 1;
        }
        let mut rows: Vec<Vec<Rgb>> = Vec::new();
        let mut j: u32 = 0;
        while j < height
            invariant
                j <= height,
                rows@.len() == j,
                row@.len() == width,
                forall|x: int| 0 <= x < width ==> row@[x] == color,
                forall|y: int| 0 <= y < j ==> (#[trigger] rows@[y])@ == row@,
            decreases height - j,
        {
            rows.push(row.clone());
            j = j + 1;
        }
        Canvas { width, height, rows }
    }

    /// The pixel at column `x` of row `y`.
    pub fn pixel(&self, x: u32, y: u32) -> (r: Rgb)
        requires self.wf(), x < self.w(), y < self.h(),
        ensures r == self.at(x as int, y as int),
    {
        self.rows[y as usize][x as usize]
    }

    /// Paints the `size` by `size` square whose top left pixel is at `x`, `y`;
    /// it must end short of the right and bottom edges.
    pub fn fill_square(&mut self, color: Rgb, x: u32, y: u32, size: u32)
        requires
            old(self).wf(),
            x + size < old(self).w(),
            y + size < old(self).h(),
        ensures
            final(self).wf(),
            final(self).w() == old(self).w(),
            final(self).h() == old(self).h(),
            forall|px: int, py: int| 0 <= px < old(self).w() && 0 <= py < old(self).h() ==>
                #[trigger] final(self).at(px, py) == if x <= px < x + size && y <= py < y + size {
                    color
                } else {
                    old(self).at(px, py)
                },
    {
        let ghost before = *self;
        let mut sy: u32 = y;
        while sy < y + size
            invariant
                self.wf(),
                self.w() == before.w(),
                self.h() == before.h(),
                before.wf(),
                x + size < before.w(),
                y + size < before.h(),
                y <= sy <= y + size,
                forall|px: int, py: int| 0 <= px < before.w() && 0 <= py < before.h() ==>
                    #[trigger] self.at(px, py) == if x <= px < x + size && y <= py < sy {
                        color
                    } else {
                        before.at(px, py)
                    },
            decreases y + size - sy,
        {
            let mut sx: u32 = x;
            while sx < x + size
                invariant
                    self.wf(),
                    self.w() == before.w(),
                    self.h() == before.h(),
                    before.wf(),
                    x + size < before.w(),
                    y + size < before.h(),
                    y <= sy < y + size,
                    x <= sx <= x + size,
                    forall|px: int, py: int| 0 <= px < before.w() && 0 <= py < before.h() ==>
                        #[trigger] self.at(px, py) == if (x <= px < x + size && y <= py < sy)
                            || (x <= px < sx && py == sy) {
                            color
                        } else {
                            before.at(px, py)
                        },
                decreases x + size - sx,
            {
                self.set_pixel(sx, sy, color);
                sx = sx + 1;
            }
            sy = sy + 1;
        }
    }

    fn set_pixel(&mut self, x: u32, y: u32, color: Rgb)
        requires old(self).wf(), x < old(self).w(), y < old(self).h(),
        ensures
            final(self).wf(),
            final(self).w() == old(self).w(),
            final(self).h() == old(self).h(),
            forall|px: int, py: int| 0 <= px < old(self).w() && 0 <= py < old(self).h() ==>
                #[trigger] final(self).at(px, py) == if px == x && py == y { color } else { old(self).at(px, py) },
    {
        let ghost before = *self;
        let mut row: Vec<Rgb> = Vec::new();
        std::mem::swap(&mut row, &mut self.rows[y as usize]);
        row.set(x as usize, color);
        std::mem::swap(&mut row, &mut self.rows[y as usize]);
        assert forall|py: int| 0 <= py < self.h() implies (#[trigger] self.rows@[py])@.len() == self.w() by {
            if py != y {
                assert(self.rows@[py] == before.rows@[py]);
            }
        }
    }
}

/// The board of `side` with the squares in `highlighted` lit: a margin of the
/// neutral colour round eight by eight painted tiles. The sprites are not
/// drawn; `board_overlays` lists them.
pub fn paint_board(side: Side, highlighted: &Vec<(u32, u32)>) -> (r: Canvas)
    ensures
        r.wf(),
        r.w() == BOARD_FULL,
        r.h() == BOARD_FULL,
        forall|x: int, y: int| 0 <= x < 576 && 0 <= y < 576 ==>
            #[trigger] r.at(x, y) == board_pixel(side, highlighted@, x, y),
{
    let mut img = Canvas::filled(BOARD_FULL, BOARD_FULL, neutral_color());
    let mut bx: u32 = 0;
    while bx < 8
        invariant
            bx <= 8,
            img.wf(),
            img.w() == 576,
            img.h() == 576,
            forall|x: int, y: int| 0 <= x < 576 && 0 <= y < 576 ==>
                #[trigger] img.at(x, y) == if on_board(x, y) && square_at(side, x, y).0 < bx {
                    board_pixel(side, highlighted@, x, y)
                } else {
                    neutral()
                },
        decreases 8 - bx,
    {
        let mut by: u32 = 0;
        while by < 8
            invariant
                bx < 8,
                by <= 8,
                img.wf(),
                img.w() == 576,
                img.h() == 576,
                forall|x: int, y: int| 0 <= x < 576 && 0 <= y < 576 ==>
                    #[trigger] img.at(x, y) == if on_board(x, y) && (square_at(side, x, y).0 < bx
                        || (square_at(side, x, y).0 == bx && square_at(side, x, y).1 < by)) {
                        board_pixel(side, highlighted@, x, y)
                    } else {
                        neutral()
                    },
            decreases 8 - by,
        {
            let (ox, oy) = tile_origin(side, bx, by);
            let lit = contains_square(highlighted, bx, by);
            let color = square_color(bx, by, lit);
            proof {
                assert forall|x: int, y: int| 0 <= x < 576 && 0 <= y < 576 implies
                    ((ox <= x < ox + 64 && oy <= y < oy + 64)
                        <==> (on_board(x, y) && square_at(side, x, y) == (bx as int, by as int))) by {
                    lemma_tile_covers(side, bx as int, by as int, x, y);
                }
            }
            img.fill_square(color, ox, oy, TILE);
            by = by + 1;
        }
        bx = bx + 1;
    }
    img
}

/// The tile of a square covers exactly the pixels that map back to it.
proof fn lemma_tile_covers(side: Side, file: int, rank: int, x: int, y: int)
    requires 0 <= file < 8, 0 <= rank < 8, 0 <= x < 576, 0 <= y < 576,
    ensures
        ({
            let (ox, oy) = tile_origin_spec(side, file, rank);
            (ox <= x < ox + 64 && oy <= y < oy + 64) <==> (on_board(x, y) && square_at(side, x, y) == (file, rank))
        }),
{
    let (cx, cy) = tile_cell(side, file, rank);
    assert(0 <= cx < 8 && 0 <= cy < 8);
    if on_board(x, y) {
        let qx = (x - 32) / 64;
        let qy = (y - 32) / 64;
        assert(64 * qx <= x - 32 < 64 * qx + 64);
        assert(64 * qy <= y - 32 < 64 * qy + 64);
        assert((qx == cx) <==> (cx * 64 + 32 <= x < cx * 64 + 96));
        assert((qy == cy) <==> (cy * 64 + 32 <= y < cy * 64 + 96));
    }
}


/// A picture laid over the board: the strip of file letters, the strip of
/// rank numbers, the red glow of a king in check, or a piece.
#[derive(Debug, Clone, Copy, PartialEq, Eq, Structural)]
pub enum Sprite {
    Files(Side),
    Ranks(Side),
    Check,
    Piece(Role, Side),
}

/// A sprite and the pixel at which its top left corner is drawn.
#[derive(Debug, Clone, Copy, PartialEq, Eq, Structural)]
pub struct Overlay {
    pub sprite: Sprite,
    pub x: u32,
    pub y: u32,
}

/// A piece on the square of `file` and `rank` (both from 0).
#[derive(Debug, Clone, Copy, PartialEq, Eq, Structural)]
pub struct PlacedPiece {
    pub file: u32,
    pub rank: u32,
    pub role: Role,
    pub side: Side,
}

pub open spec fn sprite_rect_spec(sprite: Sprite) -> (u32, u32, u32, u32) {
    match sprite {
        Sprite::Files(side) => (0, if side == Side::White { 0 } else { 32 }, 512, 32),
        Sprite::Ranks(side) => (if side == Side::White { 0 } else { 32 }, 0, 32, 512),
        Sprite::Check => (0, 0, 64, 64),
        Sprite::Piece(role, side) => (
            match role {
                Role::Queen => 0u32,
                Role::King => 64,
                Role::Rook => 128,
                Role::Bishop => 192,
                Role::Knight => 256,
                Role::Pawn => 320,
            },
            if side == Side::White { 0 } else { 64 },
            64,
            64,
        ),
    }
}

/// Where a sprite is cut from its sheet: left, top, width and height. The
/// file and rank strips hold one row (or column) per side; the piece sheet
/// holds the queen, king, rook, bishop, knight and pawn, White above Black.
pub fn sprite_rect(sprite: Sprite) -> (r: (u32, u32, u32, u32))
    ensures r == sprite_rect_spec(sprite),
{
    match sprite {
        Sprite::Files(side) => (0, match side { Side::White => 0, Side::Black => EDGE }, BOARD, EDGE),
        Sprite::Ranks(side) => (match side { Side::White => 0, Side::Black => EDGE }, 0, EDGE, BOARD),
        Sprite::Check => (0, 0, TILE, TILE),
        Sprite::Piece(role, side) => {
            let column: u32 = match role {
                Role::Queen => 0,
                Role::King => 1,
                Role::Rook => 2,
                Role::Bishop => 3,
                Role::Knight => 4,
                Role::Pawn => 5,
            };
            let row: u32 = match side {
                Side::White => 0,
                Side::Black => 1,
            };
            (column * TILE, row * TILE, TILE, TILE)
        },
    }
}

/// The piece sheet holds the queen, king, rook, bishop, knight and pawn in
/// that order, one 64-pixel cell each: the piece that stands `k`-th in that
/// order is cut at `x = 64 * k`, from the top row for White and the second
/// row for Black, so no two pieces share a cell.
pub proof fn law_piece_sheet_order(k: int, side: Side)
    requires 0 <= k < 6,
    ensures
        sprite_rect_spec(Sprite::Piece(
            seq![Role::Queen, Role::King, Role::Rook, Role::Bishop, Role::Knight, Role::Pawn][k], side))
            == ((64 * k) as u32, if side == Side::White { 0u32 } else { 64u32 }, 64u32, 64u32),
{
    let order = seq![Role::Queen, Role::King, Role::Rook, Role::Bishop, Role::Knight, Role::Pawn];
    assert(order[0] == Role::Queen && order[1] == Role::King && order[2] == Role::Rook);
    assert(order[3] == Role::Bishop && order[4] == Role::Knight && order[5] == Role::Pawn);
}

/// The piece standing on a square: the first listed there.
pub open spec fn piece_at(pieces: Seq<PlacedPiece>, file: u32, rank: u32) -> Option<PlacedPiece>
    decreases pieces.len(),
{
    if pieces.len() == 0 {
        None
    } else if pieces[0].file == file && pieces[0].rank == rank {
        Some(pieces[0])
    } else {
        piece_at(pieces.drop_first(), file, rank)
    }
}

fn find_piece(pieces: &Vec<PlacedPiece>, file: u32, rank: u32) -> (r: Option<PlacedPiece>)
    ensures r == piece_at(pieces@, file, rank),
{
    let mut i: usize = 0;
    assert(pieces@.skip(0) =~= pieces@);
    while i < pieces.len()
        invariant
            i <= pieces@.len(),
            piece_at(pieces@, file, rank) == piece_at(pieces@.skip(i as int), file, rank),
        decreases pieces@.len() - i,
    {
        assert(pieces@.skip(i as int).drop_first() =~= pieces@.skip(i + 1));
        if pieces[i].file == file && pieces[i].rank == rank {
            return Some(pieces[i]);
        }
        i = i + 1;
    }
    assert(pieces@.skip(i as int) =~= Seq::<PlacedPiece>::empty());
    None
}


/// How a text is placed horizontally against its anchor.
#[derive(Debug, Clone, Copy, PartialEq, Eq, Structural)]
pub enum HAlign {
    Left,
    Center,
    Right,
}

/// How a text is placed vertically against its anchor.
#[derive(Debug, Clone, Copy, PartialEq, Eq, Structural)]
pub enum VAlign {
    Top,
    Middle,
    Bottom,
}

/// What a text says: one character, or the name of the player of a side.
#[derive(Debug, Clone, Copy, PartialEq, Eq, Structural)]
pub enum TextContent {
    Letter(char),
    Player(Side),
}

/// A text to write: its content, anchor, colour, size in pixels, alignment
/// and the square window it is laid out in.
#[derive(Debug, Clone, Copy, PartialEq, Eq, Structural)]
pub struct TextStep {
    pub content: TextContent,
    pub x: u32,
    pub y: u32,
    pub color: Rgb,
    pub size: u32,
    pub h_align: HAlign,
    pub v_align: VAlign,
    pub window: u32,
}

/// One step of drawing a board picture.
#[derive(Debug, Clone, Copy, PartialEq, Eq, Structural)]
pub enum Step {
    /// Paint the `size` by `size` square at `x`, `y` in `color`.
    Fill { x: u32, y: u32, size: u32, color: Rgb },
    /// Blend a sprite in.
    Sprite(Overlay),
    /// Write a text.
    Text(TextStep),
}

pub open spec fn other_side(side: Side) -> Side {
    match side {
        Side::White => Side::Black,
        Side::Black => Side::White,
    }
}

#[verifier::opaque]
pub open spec fn fill_steps(side: Side, lit: bool, mx: int, my: int, file: u32, rank: u32) -> Seq<Step> {
    let (ox, oy) = origin_in(side, file as int, rank as int, mx, my);
    seq![Step::Fill { x: ox as u32, y: oy as u32, size: 64, color: tone(is_dark(file as int, rank as int), lit) }]
}

#[verifier::opaque]
pub open spec fn file_label_steps(side: Side, lit: bool, mx: int, my: int, labels: bool, file: u32, rank: u32) -> Seq<Step> {
    let (ox, oy) = origin_in(side, file as int, rank as int, mx, my);
    if labels && tile_cell(side, file as int, rank as int).1 == 7 {
        seq![Step::Text(TextStep {
            content: TextContent::Letter((65 + file) as char),
            x: (ox + 62) as u32,
            y: (oy + 64) as u32,
            color: tone(!is_dark(file as int, rank as int), lit),
            size: 12,
            h_align: HAlign::Right,
            v_align: VAlign::Bottom,
            window: 256,
        })]
    } else {
        Seq::empty()
    }
}

#[verifier::opaque]
pub open spec fn rank_label_steps(side: Side, lit: bool, mx: int, my: int, labels: bool, file: u32, rank: u32) -> Seq<Step> {
    let (ox, oy) = origin_in(side, file as int, rank as int, mx, my);
    if labels && tile_cell(side, file as int, rank as int).0 == 0 {
        seq![Step::Text(TextStep {
            content: TextContent::Letter((49 + rank) as char),
            x: (ox + 2) as u32,
            y: oy as u32,
            color: tone(!is_dark(file as int, rank as int), lit),
            size: 12,
            h_align: HAlign::Left,
            v_align: VAlign::Top,
            window: 256,
        })]
    } else {
        Seq::empty()
    }
}

#[verifier::opaque]
pub open spec fn sprite_steps(
    side: Side,
    pieces: Seq<PlacedPiece>,
    checks: Seq<(u32, u32)>,
    mx: int,
    my: int,
    file: u32,
    rank: u32,
) -> Seq<Step> {
    let (ox, oy) = origin_in(side, file as int, rank as int, mx, my);
    (if checks.contains((file, rank)) {
        seq![Step::Sprite(Overlay { sprite: Sprite::Check, x: ox as u32, y: oy as u32 })]
    } else {
        Seq::empty()
    }) + match piece_at(pieces, file, rank) {
        Some(p) => seq![Step::Sprite(Overlay { sprite: Sprite::Piece(p.role, p.side), x: ox as u32, y: oy as u32 })],
        None => Seq::empty(),
    }
}

/// The steps that draw one square: its tile; with `labels`, the file letter
/// in the bottom row and the rank number in the left column, in the colour
/// of the other kind of square; then the check glow where its king is in
/// check, then the piece standing there.
pub open spec fn square_steps(
    side: Side,
    highlighted: Seq<(u32, u32)>,
    pieces: Seq<PlacedPiece>,
    checks: Seq<(u32, u32)>,
    mx: int,
    my: int,
    labels: bool,
    file: u32,
    rank: u32,
) -> Seq<Step> {
    let lit = highlighted.contains((file, rank));
    fill_steps(side, lit, mx, my, file, rank)
        + file_label_steps(side, lit, mx, my, labels, file, rank)
        + rank_label_steps(side, lit, mx, my, labels, file, rank)
        + sprite_steps(side, pieces, checks, mx, my, file, rank)
}

/// The steps of the first `t` squares, taken file by file and, within a
/// file, from the first rank up.
pub open spec fn steps_upto(
    side: Side,
    highlighted: Seq<(u32, u32)>,
    pieces: Seq<PlacedPiece>,
    checks: Seq<(u32, u32)>,
    mx: int,
    my: int,
    labels: bool,
    t: nat,
) -> Seq<Step>
    decreases t,
{
    if t == 0 {
        Seq::empty()
    } else {
        let k = (t - 1) as nat;
        steps_upto(side, highlighted, pieces, checks, mx, my, labels, k)
            + square_steps(side, highlighted, pieces, checks, mx, my, labels, (k / 8) as u32, (k % 8) as u32)
    }
}

fn push_labels(out: &mut Vec<Step>, side: Side, lit: bool, mx: u32, my: u32, labels: bool, file: u32, rank: u32)
    requires file < 8, rank < 8, mx <= 64, my <= 64,
    ensures final(out)@ == old(out)@ + file_label_steps(side, lit, mx as int, my as int, labels, file, rank)
        + rank_label_steps(side, lit, mx as int, my as int, labels, file, rank),
{
    reveal(file_label_steps);
    reveal(rank_label_steps);
    let ghost before = out@;
    let (ox, oy) = tile_origin_in(side, file, rank, mx, my);
    let (cx, cy) = match side {
        Side::Black => (7 - file, rank),
        Side::White => (file, 7 - rank),
    };
    let inverted = tone_of(file % 2 != rank % 2, lit);
    if labels && cy == 7 {
        let letter = (65u8 + file as u8) as char;
        out.push(Step::Text(TextStep {
            content: TextContent::Letter(letter),
            x: ox + TILE - 2,
            y: oy + TILE,
            color: inverted,
            size: 12,
            h_align: HAlign::Right,
            v_align: VAlign::Bottom,
            window: 256,
        }));
    }
    assert(out@ =~= before + file_label_steps(side, lit, mx as int, my as int, labels, file, rank));
    let ghost mid = out@;
    if labels && cx == 0 {
        let number = (49u8 + rank as u8) as char;
        out.push(Step::Text(TextStep {
            content: TextContent::Letter(number),
            x: ox + 2,
            y: oy,
            color: inverted,
            size: 12,
            h_align: HAlign::Left,
            v_align: VAlign::Top,
            window: 256,
        }));
    }
    assert(out@ =~= mid + rank_label_steps(side, lit, mx as int, my as int, labels, file, rank));
}

fn push_sprites(
    out: &mut Vec<Step>,
    side: Side,
    pieces: &Vec<PlacedPiece>,
    checks: &Vec<(u32, u32)>,
    mx: u32,
    my: u32,
    file: u32,
    rank: u32,
)
    requires file < 8, rank < 8, mx <= 64, my <= 64,
    ensures final(out)@ == old(out)@ + sprite_steps(side, pieces@, checks@, mx as int, my as int, file, rank),
{
    reveal(sprite_steps);
    let ghost before = out@;
    let (ox, oy) = tile_origin_in(side, file, rank, mx, my);
    if contains_square(checks, file, rank) {
        out.push(Step::Sprite(Overlay { sprite: Sprite::Check, x: ox, y: oy }));
    }
    match find_piece(pieces, file, rank) {
        Some(p) => out.push(Step::Sprite(Overlay { sprite: Sprite::Piece(p.role, p.side), x: ox, y: oy })),
        None => {},
    }
    assert(out@ =~= before + sprite_steps(side, pieces@, checks@, mx as int, my as int, file, rank));
}

fn push_square_steps(
    out: &mut Vec<Step>,
    side: Side,
    highlighted: &Vec<(u32, u32)>,
    pieces: &Vec<PlacedPiece>,
    checks: &Vec<(u32, u32)>,
    mx: u32,
    my: u32,
    labels: bool,
    file: u32,
    rank: u32,
)
    requires file < 8, rank < 8, mx <= 64, my <= 64,
    ensures final(out)@ == old(out)@ + square_steps(side, highlighted@, pieces@, checks@, mx as int, my as int, labels, file, rank),
{
    let ghost before = out@;
    let (ox, oy) = tile_origin_in(side, file, rank, mx, my);
    let lit = contains_square(highlighted, file, rank);
    out.push(Step::Fill { x: ox, y: oy, size: TILE, color: tone_of(file % 2 == rank % 2, lit) });
    assert(out@ =~= before + fill_steps(side, lit, mx as int, my as int, file, rank)) by {
        reveal(fill_steps);
    }
    push_labels(out, side, lit, mx, my, labels, file, rank);
    push_sprites(out, side, pieces, checks, mx, my, file, rank);
    assert(out@ =~= before + square_steps(side, highlighted@, pieces@, checks@, mx as int, my as int, labels, file, rank));
}

fn push_all_squares(
    out: &mut Vec<Step>,
    side: Side,
    highlighted: &Vec<(u32, u32)>,
    pieces: &Vec<PlacedPiece>,
    checks: &Vec<(u32, u32)>,
    mx: u32,
    my: u32,
    labels: bool,
)
    requires mx <= 64, my <= 64,
    ensures final(out)@ == old(out)@ + steps_upto(side, highlighted@, pieces@, checks@, mx as int, my as int, labels, 64),
{
    let ghost head = out@;
    let mut bx: u32 = 0;
    while bx < 8
        invariant
            bx <= 8,
            mx <= 64,
            my <= 64,
            out@ == head + steps_upto(side, highlighted@, pieces@, checks@, mx as int, my as int, labels, (bx * 8) as nat),
        decreases 8 - bx,
    {
        let mut by: u32 = 0;
        while by < 8
            invariant
                bx < 8,
                by <= 8,
                mx <= 64,
                my <= 64,
                out@ == head + steps_upto(side, highlighted@, pieces@, checks@, mx as int, my as int, labels, (bx * 8 + by) as nat),
            decreases 8 - by,
        {
            let ghost before = out@;
            push_square_steps(out, side, highlighted, pieces, checks, mx, my, labels, bx, by);
            proof {
                let t = (bx * 8 + by) as nat;
                assert(t / 8 == bx as nat && t % 8 == by as nat);
                assert(steps_upto(side, highlighted@, pieces@, checks@, mx as int, my as int, labels, t + 1)
                    == steps_upto(side, highlighted@, pieces@, checks@, mx as int, my as int, labels, t)
                    + square_steps(side, highlighted@, pieces@, checks@, mx as int, my as int, labels, bx, by));
                assert(out@ =~= head + steps_upto(side, highlighted@, pieces@, checks@, mx as int, my as int, labels, t + 1));
            }
            by = by + 1;
        }
        bx = bx + 1;
    }
}

pub open spec fn board_steps_spec(
    side: Side,
    highlighted: Seq<(u32, u32)>,
    pieces: Seq<PlacedPiece>,
    checks: Seq<(u32, u32)>,
) -> Seq<Step> {
    seq![
        Step::Sprite(Overlay { sprite: Sprite::Files(side), x: 32, y: 544 }),
        Step::Sprite(Overlay { sprite: Sprite::Ranks(side), x: 0, y: 32 }),
    ] + steps_upto(side, highlighted, pieces, checks, 32, 32, false, 64)
}

/// How to draw the board seen by `side` on a 576 by 576 picture of the
/// neutral colour: the file strip below the board and the rank strip to its
/// left, then square by square the tile, the check glow (`checks` are the
/// squares of kings in check) and the piece. Squares in `highlighted` are lit.
pub fn board_steps(
    side: Side,
    highlighted: &Vec<(u32, u32)>,
    pieces: &Vec<PlacedPiece>,
    checks: &Vec<(u32, u32)>,
) -> (r: Vec<Step>)
    ensures r@ == board_steps_spec(side, highlighted@, pieces@, checks@),
{
    let mut out: Vec<Step> = Vec::new();
    out.push(Step::Sprite(Overlay { sprite: Sprite::Files(side), x: EDGE, y: BOARD + EDGE }));
    out.push(Step::Sprite(Overlay { sprite: Sprite::Ranks(side), x: 0, y: EDGE }));
    push_all_squares(&mut out, side, highlighted, pieces, checks, EDGE, EDGE, false);
    out
}

pub open spec fn named_board_steps_spec(
    side: Side,
    highlighted: Seq<(u32, u32)>,
    pieces: Seq<PlacedPiece>,
    checks: Seq<(u32, u32)>,
) -> Seq<Step> {
    seq![
        Step::Text(TextStep {
            content: TextContent::Player(other_side(side)),
            x: 272,
            y: 16,
            color: rgb(0, 0, 0),
            size: 24,
            h_align: HAlign::Center,
            v_align: VAlign::Middle,
            window: 1024,
        }),
        Step::Text(TextStep {
            content: TextContent::Player(side),
            x: 272,
            y: 560,
            color: rgb(0, 0, 0),
            size: 24,
            h_align: HAlign::Center,
            v_align: VAlign::Middle,
            window: 1024,
        }),
    ] + steps_upto(side, highlighted, pieces, checks, 16, 32, true, 64)
}

/// How to draw the board seen by `side` on a 544 by 576 picture of the
/// neutral colour, with the players' names above and below it: the name of
/// the other side's player at the top and that of `side`'s at the bottom,
/// then square by square the tile, the file letters along the bottom row and
/// the rank numbers along the left column, the check glow and the piece.
pub fn named_board_steps(
    side: Side,
    highlighted: &Vec<(u32, u32)>,
    pieces: &Vec<PlacedPiece>,
    checks: &Vec<(u32, u32)>,
) -> (r: Vec<Step>)
    ensures r@ == named_board_steps_spec(side, highlighted@, pieces@, checks@),
{
    let black = Rgb { r: 0, g: 0, b: 0 };
    let top = match side {
        Side::White => Side::Black,
        Side::Black => Side::White,
    };
    let mut out: Vec<Step> = Vec::new();
    out.push(Step::Text(TextStep {
        content: TextContent::Player(top),
        x: 272,
        y: 16,
        color: black,
        size: 24,
        h_align: HAlign::Center,
        v_align: VAlign::Middle,
        window: 1024,
    }));
    out.push(Step::Text(TextStep {
        content: TextContent::Player(side),
        x: 272,
        y: 560,
        color: black,
        size: 24,
        h_align: HAlign::Center,
        v_align: VAlign::Middle,
        window: 1024,
    }));
    push_all_squares(&mut out, side, highlighted, pieces, checks, 16, 32, true);
    out
}


pub open spec fn pixel_bytes(p: Rgb) -> Seq<u8> {
    seq![p.r, p.g, p.b]
}

/// The bytes of the first `n` pixels of row `y`, three to a pixel.
pub open spec fn row_bytes(c: Canvas, y: int, n: nat) -> Seq<u8>
    decreases n,
{
    if n == 0 { Seq::empty() } else { row_bytes(c, y, (n - 1) as nat) + pixel_bytes(c.at(n - 1, y)) }
}

/// The bytes of the first `n` rows, row after row.
pub open spec fn canvas_bytes(c: Canvas, n: nat) -> Seq<u8>
    decreases n,
{
    if n == 0 { Seq::empty() } else { canvas_bytes(c, (n - 1) as nat) + row_bytes(c, n - 1, c.w()) }
}

impl Canvas {
    /// The picture as bytes, row after row from the top, each pixel as red,
    /// green and blue: the layout a PNG encoder takes.
    pub fn to_raw(&self) -> (r: Vec<u8>)
        requires self.wf(),
        ensures r@ == canvas_bytes(*self, self.h()),
    {
        let mut out: Vec<u8> = Vec::new();
        let mut y: u32 = 0;
        while y < self.height
            invariant
                self.wf(),
                y <= self.h(),
                out@ == canvas_bytes(*self, y as nat),
            decreases self.h() - y,
        {
            let ghost start = out@;
            let mut x: u32 = 0;
            while x < self.width
                invariant
                    self.wf(),
                    y < self.h(),
                    x <= self.w(),
                    out@ == start + row_bytes(*self, y as int, x as nat),
                decreases self.w() - x,
            {
                let p = self.rows[y as usize][x as usize];
                out.push(p.r);
                out.push(p.g);
                out.push(p.b);
                assert(out@ =~= start + row_bytes(*self, y as int, (x + 1) as nat));
                x = x + 1;
            }
            y = y + 1;
        }
        out
    }
}

} // verus!
