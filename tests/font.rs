use olive_rs::{default_font, glyph_from_str, unknown_glyph, Font, Glyph, Point};

#[test]
fn test_glyph_from_str() {
    let glyph = glyph_from_str(" $\n$ $\n$$$\n$ $\n$ $\n");
    assert_eq!(glyph.width(), 3);
    assert_eq!(glyph.height(), 5);
    assert_eq!(glyph.points().len(), 10);
}

#[test]
fn glyph_points_and_last_line() {
    let glyph = glyph_from_str("$ \n $");
    assert_eq!(glyph.width(), 2);
    assert_eq!(glyph.height(), 2);
    assert_eq!(glyph.points(), &[Point { x: 0, y: 0 }, Point { x: 1, y: 1 }]);
    let empty = glyph_from_str("");
    assert_eq!((empty.width(), empty.height(), empty.points().len()), (0, 0, 0));
}

#[test]
fn unknown_glyph_is_a_block() {
    let g = unknown_glyph();
    assert_eq!((g.width(), g.height(), g.points().len()), (3, 5, 15));
}

#[test]
fn font_lookup() {
    let font = default_font();
    assert_eq!(font.glyph('A').unwrap().points().len(), 10);
    assert!(font.glyph('\u{e9}').is_none());
    let own = Font::new(vec![('x', glyph_from_str("$")), ('x', glyph_from_str("$$"))]);
    assert_eq!(own.glyph('x').unwrap().width(), 2);
    assert!(own.glyph('y').is_none());
}

#[test]
fn glyph_lines_end_at_crlf() {
    let glyph = glyph_from_str("$\r\n");
    assert_eq!((glyph.width(), glyph.height()), (1, 1));
    assert_eq!(glyph.points(), &[Point { x: 0, y: 0 }]);
    let glyph = glyph_from_str("$ \r\n $\r\n");
    assert_eq!((glyph.width(), glyph.height()), (2, 2));
    assert_eq!(glyph.points(), &[Point { x: 0, y: 0 }, Point { x: 1, y: 1 }]);
}

#[test]
fn glyph_columns_count_characters() {
    // The width is a line's length in bytes; a point's column counts characters.
    let glyph = glyph_from_str("\u{e9}$\n");
    assert_eq!((glyph.width(), glyph.height()), (3, 1));
    assert_eq!(glyph.points(), &[Point { x: 1, y: 0 }]);
    let own = Font::new(vec![('w', Glyph { width: 1, height: 1, points: vec![] })]);
    assert!(own.glyph('w').is_some());
}
