use numpty::grid::{
    chars_from_lines, indexedcolor_from_lines, palette_color, render_lines, text_from_lines,
    truecolor_from_lines, Cell, Color, Layer, Rgb,
};

fn cell(ch: char, fg: Option<Color>, bg: Option<Color>) -> Cell {
    Cell { ch, fg, bg }
}

fn sample() -> Vec<Vec<Cell>> {
    vec![
        vec![
            cell('a', Some(Color::Indexed(1)), None),
            cell('b', Some(Color::Indexed(1)), Some(Color::Rgb(10, 20, 30))),
        ],
        vec![cell('c', None, None), cell('d', Some(Color::Indexed(196)), None)],
    ]
}

#[test]
fn code_points_row_major() {
    let p = chars_from_lines(&sample());
    assert_eq!((p.rows, p.cols), (2, 2));
    assert_eq!(p.data, vec![97u32, 98, 99, 100]);
}

#[test]
fn indexed_colors_and_default_mask() {
    let (fg, mask) = indexedcolor_from_lines(&sample(), Layer::Foreground);
    assert_eq!(fg.data, vec![1u8, 1, 0, 196]);
    assert_eq!(mask.data, vec![false, false, true, false]);
    let (bg, bmask) = indexedcolor_from_lines(&sample(), Layer::Background);
    assert_eq!(bg.data, vec![0u8, 0, 0, 0]);
    assert_eq!(bmask.data, vec![true, false, true, true]);
}

#[test]
fn true_colors_in_three_planes() {
    let (bg, mask) = truecolor_from_lines(&sample(), Layer::Background);
    assert_eq!((bg.rows, bg.cols), (2, 2));
    assert_eq!(bg.data, vec![0u8, 10, 0, 0, 0, 20, 0, 0, 0, 30, 0, 0]);
    assert_eq!(mask.data, vec![true, false, true, true]);
    let (fg, _) = truecolor_from_lines(&sample(), Layer::Foreground);
    assert_eq!(fg.data, vec![205u8, 205, 0, 255, 0, 0, 0, 0, 0, 0, 0, 0]);
}

#[test]
fn palette_entries() {
    assert_eq!(palette_color(0), Rgb { r: 0, g: 0, b: 0 });
    assert_eq!(palette_color(12), Rgb { r: 92, g: 92, b: 255 });
    assert_eq!(palette_color(16), Rgb { r: 0, g: 0, b: 0 });
    assert_eq!(palette_color(196), Rgb { r: 255, g: 0, b: 0 });
    assert_eq!(palette_color(110), Rgb { r: 135, g: 175, b: 215 });
    assert_eq!(palette_color(231), Rgb { r: 255, g: 255, b: 255 });
    assert_eq!(palette_color(232), Rgb { r: 8, g: 8, b: 8 });
    assert_eq!(palette_color(255), Rgb { r: 238, g: 238, b: 238 });
}

#[test]
fn plain_text_joins_rows() {
    assert_eq!(text_from_lines(&sample()), "ab\ncd");
    assert_eq!(text_from_lines(&Vec::new()), "");
}

#[test]
fn styled_text_marks_color_changes() {
    let expected = "\x1b[38;5;1ma\x1b[48;2;10;20;30mb\x1b[0m\nc\x1b[38;5;196md\x1b[0m\n";
    assert_eq!(render_lines(&sample()), expected);
}
