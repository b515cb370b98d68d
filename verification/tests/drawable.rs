use haldvance::video::structs::Pos;
use haldvance::video::tile::drawable::{
    blank_out, empty_line, empty_rows, lines_of_text, Clear, ConstEmptyLine, ConstEmptyRect,
    Drawable, EmptyLine, EmptyRect, Line, Windowed,
};
use haldvance::video::tile::map::{AffineSize, Rect, TextSize};
use haldvance::video::tile::Tile;

fn plain(lines: &[Line]) -> Vec<(Pos, Vec<u16>)> {
    lines
        .iter()
        .map(|line| (line.pos, line.tiles.iter().map(|tile| tile.get()).collect()))
        .collect()
}

#[test]
fn text_is_split_at_newlines() {
    assert_eq!(
        vec![
            (Pos { x: 0, y: 0 }, vec![33, 66]),
            (Pos { x: 0, y: 1 }, vec![]),
            (Pos { x: 0, y: 2 }, vec![0, 94]),
            (Pos { x: 0, y: 3 }, vec![]),
        ],
        plain(&"Ab\n\n ~\n".for_each_line())
    );
    assert_eq!(vec![(Pos { x: 0, y: 0 }, vec![])], plain(&"".for_each_line()));
    assert_eq!(vec![(Pos { x: 0, y: 0 }, vec![30])], plain(&lines_of_text(b">")));
}

#[test]
fn characters_below_the_space_wrap_around() {
    assert_eq!(
        vec![(Pos { x: 0, y: 0 }, vec![233, 255, 0, 95, 223])],
        plain(&lines_of_text(&[9, 31, 32, 127, 255]))
    );
}

#[test]
fn wiping_text_covers_its_tiles() {
    assert_eq!(
        vec![(Pos { x: 0, y: 0 }, vec![0, 0]), (Pos { x: 0, y: 1 }, vec![0])],
        plain(&"ab\nc".all_tiles())
    );
    assert_eq!(
        vec![(Pos { x: 0, y: 0 }, vec![0, 0]), (Pos { x: 0, y: 1 }, vec![0])],
        plain(&Clear("ab\nc").for_each_line())
    );
    assert_eq!(
        vec![(Pos { x: 0, y: 0 }, vec![0, 0]), (Pos { x: 0, y: 1 }, vec![0])],
        plain(&Clear("ab\nc").all_tiles())
    );
    assert_eq!(
        plain(&"ab\nc".for_each_line()),
        plain(&(&"ab\nc").for_each_line())
    );
}

#[test]
fn empty_lines_and_rectangles() {
    assert_eq!(vec![(Pos { x: 0, y: 0 }, vec![0, 0, 0])], plain(&EmptyLine(3).for_each_line()));
    assert_eq!(vec![(Pos { x: 0, y: 0 }, vec![0, 0, 0])], plain(&EmptyLine(3).all_tiles()));
    assert_eq!(vec![(Pos { x: 0, y: 0 }, vec![0, 0])], plain(&ConstEmptyLine::<2>.for_each_line()));
    assert_eq!(vec![(Pos { x: 0, y: 0 }, vec![])], plain(&ConstEmptyLine::<0>.all_tiles()));
    let rows = vec![(Pos { x: 0, y: 0 }, vec![0, 0]), (Pos { x: 0, y: 1 }, vec![0, 0])];
    assert_eq!(rows, plain(&EmptyRect(Rect { width: 2, height: 2 }).for_each_line()));
    assert_eq!(rows, plain(&EmptyRect(Rect { width: 2, height: 2 }).all_tiles()));
    assert_eq!(rows, plain(&ConstEmptyRect::<2, 2>.for_each_line()));
    assert_eq!(rows, plain(&ConstEmptyRect::<2, 2>.all_tiles()));
    assert_eq!(rows, plain(&empty_rows(2, 2)));
    assert_eq!(0, EmptyRect(Rect { width: 2, height: 0 }).for_each_line().len());
    assert_eq!((Pos { x: 4, y: 5 }, vec![0]), plain(&[empty_line(Pos { x: 4, y: 5 }, 1)])[0]);
}

#[test]
fn a_window_cuts_each_line_and_covers_its_rectangle() {
    let window = Windowed { inner: "abcdef\n\nxy", window: Rect { width: 3, height: 2 } };
    assert_eq!(
        vec![
            (Pos { x: 0, y: 0 }, vec![65, 66, 67]),
            (Pos { x: 0, y: 1 }, vec![]),
            (Pos { x: 0, y: 2 }, vec![88, 89]),
        ],
        plain(&window.for_each_line())
    );
    assert_eq!(
        vec![(Pos { x: 0, y: 0 }, vec![0, 0, 0]), (Pos { x: 0, y: 1 }, vec![0, 0, 0])],
        plain(&window.all_tiles())
    );
    let nothing = Windowed { inner: "abc", window: Rect { width: 0, height: 9 } };
    assert_eq!(vec![(Pos { x: 0, y: 0 }, vec![])], plain(&nothing.for_each_line()));
}

#[test]
fn blanking_keeps_positions_and_lengths() {
    let lines = vec![
        Line { pos: Pos { x: 3, y: 4 }, tiles: vec![Tile(7), Tile(8)] },
        Line { pos: Pos { x: 0, y: 9 }, tiles: vec![] },
    ];
    assert_eq!(
        vec![(Pos { x: 3, y: 4 }, vec![0, 0]), (Pos { x: 0, y: 9 }, vec![])],
        plain(&blank_out(&lines))
    );
}

#[test]
fn map_sizes() {
    let text = [
        (TextSize::Base, 32, 32, 0),
        (TextSize::Long, 64, 32, 1),
        (TextSize::Tall, 32, 64, 2),
        (TextSize::Large, 64, 64, 3),
    ];
    for (size, width, height, code) in text {
        assert_eq!(Rect { width, height }, size.region());
        assert_eq!(width, size.width());
        assert_eq!(height, size.height());
        assert_eq!(code, size.bits());
    }
    let affine = [
        (AffineSize::Base, 16, 0),
        (AffineSize::Double, 32, 1),
        (AffineSize::Quad, 64, 2),
        (AffineSize::Octo, 128, 3),
    ];
    for (size, side, code) in affine {
        assert_eq!(Rect { width: side, height: side }, size.region());
        assert_eq!(side, size.width());
        assert_eq!(side, size.height());
        assert_eq!(side * side, size.surface_size());
        assert_eq!(code, size.bits());
    }
    let rect = Rect { width: 3, height: 2 };
    assert!(rect.contains(Pos { x: 2, y: 1 }));
    assert!(!rect.contains(Pos { x: 3, y: 1 }));
    assert!(!rect.contains(Pos { x: 2, y: 2 }));
}

#[test]
fn positions_add_and_subtract() {
    assert_eq!(Pos { x: 5, y: 0 }, Pos::x(5));
    assert_eq!(Pos { x: 0, y: 6 }, Pos::y(6));
    assert_eq!(Pos { x: 0, y: 0 }, Pos::default());
    assert_eq!(Pos { x: 5, y: 6 }, Pos::x(5) + Pos::y(6));
    assert_eq!(Pos { x: 3, y: 6 }, Pos { x: 5, y: 6 } - Pos::x(2));
}
