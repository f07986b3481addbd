use melody::chess_board::{
    board_steps, named_board_steps, neutral_color, paint_board, sprite_rect, square_color, tile_origin, Canvas,
    HAlign, Overlay, PlacedPiece, Rgb, Role, Side, Sprite, Step, TextContent, TextStep, VAlign,
};

const DARK: Rgb = Rgb { r: 0xb5, g: 0x88, b: 0x63 };
const LIGHT: Rgb = Rgb { r: 0xf0, g: 0xd9, b: 0xb5 };
const DARK_HIGHLIGHT: Rgb = Rgb { r: 0xaa, g: 0xa2, b: 0x3b };
const LIGHT_HIGHLIGHT: Rgb = Rgb { r: 0xce, g: 0xd2, b: 0x6b };
const NEUTRAL: Rgb = Rgb { r: 0xc9, g: 0xa3, b: 0x7e };

#[test]
fn square_colors() {
    assert_eq!(square_color(0, 0, false), DARK);
    assert_eq!(square_color(1, 0, false), LIGHT);
    assert_eq!(square_color(7, 7, true), DARK_HIGHLIGHT);
    assert_eq!(square_color(0, 7, true), LIGHT_HIGHLIGHT);
    assert_eq!(neutral_color(), NEUTRAL);
}

#[test]
fn tile_origins() {
    assert_eq!(tile_origin(Side::White, 0, 0), (32, 480));
    assert_eq!(tile_origin(Side::White, 7, 7), (480, 32));
    assert_eq!(tile_origin(Side::Black, 0, 0), (480, 32));
    assert_eq!(tile_origin(Side::Black, 7, 7), (32, 480));
}

#[test]
fn sprite_rects() {
    assert_eq!(sprite_rect(Sprite::Files(Side::White)), (0, 0, 512, 32));
    assert_eq!(sprite_rect(Sprite::Files(Side::Black)), (0, 32, 512, 32));
    assert_eq!(sprite_rect(Sprite::Ranks(Side::Black)), (32, 0, 32, 512));
    assert_eq!(sprite_rect(Sprite::Check), (0, 0, 64, 64));
    assert_eq!(sprite_rect(Sprite::Piece(Role::Knight, Side::Black)), (256, 64, 64, 64));
    assert_eq!(sprite_rect(Sprite::Piece(Role::Queen, Side::White)), (0, 0, 64, 64));
}

#[test]
fn canvas_fill_and_raw() {
    let mut c = Canvas::filled(4, 3, NEUTRAL);
    c.fill_square(DARK, 1, 1, 1);
    assert_eq!(c.width(), 4);
    assert_eq!(c.height(), 3);
    assert_eq!(c.pixel(1, 1), DARK);
    assert_eq!(c.pixel(2, 1), NEUTRAL);
    let raw = c.to_raw();
    assert_eq!(raw.len(), 36);
    assert_eq!(&raw[0..3], &[0xc9, 0xa3, 0x7e]);
    assert_eq!(&raw[15..18], &[0xb5, 0x88, 0x63]);
}

#[test]
fn painted_boards() {
    let white = paint_board(Side::White, &vec![(4, 3)]);
    assert_eq!(white.width(), 576);
    assert_eq!(white.pixel(0, 0), NEUTRAL);
    assert_eq!(white.pixel(31, 300), NEUTRAL);
    assert_eq!(white.pixel(32, 480), DARK);
    assert_eq!(white.pixel(543, 543), LIGHT);
    assert_eq!(white.pixel(544, 543), NEUTRAL);
    // e4 is light and lit: file 4, rank 3, drawn at column 4, row 4
    assert_eq!(white.pixel(32 + 4 * 64 + 10, 32 + 4 * 64 + 10), LIGHT_HIGHLIGHT);
    let black = paint_board(Side::Black, &vec![]);
    assert_eq!(black.pixel(480, 32), DARK);
}

#[test]
fn plain_board_steps() {
    let pieces = vec![PlacedPiece { file: 4, rank: 0, role: Role::King, side: Side::White }];
    let steps = board_steps(Side::White, &vec![], &pieces, &vec![(4, 0)]);
    assert_eq!(steps.len(), 2 + 64 + 2);
    assert_eq!(steps[0], Step::Sprite(Overlay { sprite: Sprite::Files(Side::White), x: 32, y: 544 }));
    assert_eq!(steps[1], Step::Sprite(Overlay { sprite: Sprite::Ranks(Side::White), x: 0, y: 32 }));
    assert_eq!(steps[2], Step::Fill { x: 32, y: 480, size: 64, color: DARK });
    // file 4 starts after 4 files of 8 tiles; its first square is e1
    let e1 = 2 + 32;
    assert_eq!(steps[e1], Step::Fill { x: 288, y: 480, size: 64, color: DARK });
    assert_eq!(steps[e1 + 1], Step::Sprite(Overlay { sprite: Sprite::Check, x: 288, y: 480 }));
    assert_eq!(steps[e1 + 2], Step::Sprite(Overlay { sprite: Sprite::Piece(Role::King, Side::White), x: 288, y: 480 }));
}

#[test]
fn named_board_labels() {
    let steps = named_board_steps(Side::White, &vec![], &vec![], &vec![]);
    assert_eq!(steps.len(), 2 + 64 + 8 + 8);
    assert_eq!(
        steps[0],
        Step::Text(TextStep {
            content: TextContent::Player(Side::Black),
            x: 272,
            y: 16,
            color: Rgb { r: 0, g: 0, b: 0 },
            size: 24,
            h_align: HAlign::Center,
            v_align: VAlign::Middle,
            window: 1024,
        })
    );
    // a1: tile, then the letter A and the number 1, both in the light colour
    assert_eq!(steps[2], Step::Fill { x: 16, y: 480, size: 64, color: DARK });
    assert_eq!(
        steps[3],
        Step::Text(TextStep {
            content: TextContent::Letter('A'),
            x: 78,
            y: 544,
            color: LIGHT,
            size: 12,
            h_align: HAlign::Right,
            v_align: VAlign::Bottom,
            window: 256,
        })
    );
    assert_eq!(
        steps[4],
        Step::Text(TextStep {
            content: TextContent::Letter('1'),
            x: 18,
            y: 480,
            color: LIGHT,
            size: 12,
            h_align: HAlign::Left,
            v_align: VAlign::Top,
            window: 256,
        })
    );
    let letters: String = steps
        .iter()
        .filter_map(|s| match s {
            Step::Text(TextStep { content: TextContent::Letter(c), h_align: HAlign::Right, .. }) => Some(*c),
            _ => None,
        })
        .collect();
    assert_eq!(letters, "ABCDEFGH");
    let black = named_board_steps(Side::Black, &vec![], &vec![], &vec![]);
    let numbers: String = black
        .iter()
        .filter_map(|s| match s {
            Step::Text(TextStep { content: TextContent::Letter(c), h_align: HAlign::Left, .. }) => Some(*c),
            _ => None,
        })
        .collect();
    assert_eq!(numbers, "12345678");
}
