//! A captured screen: rows of cells, each a character with optional
//! foreground and background colors, and the views taken of it (code point
//! and color planes, plain text, and text with color escape codes).
use vstd::prelude::*;
use vstd::string::*;

verus! {

/// A cell color: an index into the 256-color palette, or a true-color triple.
#[derive(PartialEq, Eq, Structural, Clone, Copy, Debug)]
pub enum Color {
    Indexed(u8),
    Rgb(u8, u8, u8),
}

/// One character cell of the screen.
#[derive(PartialEq, Eq, Structural, Clone, Copy, Debug)]
pub struct Cell {
    pub ch: char,
    pub fg: Option<Color>,
    pub bg: Option<Color>,
}

/// Which color of a cell a view reads.
#[derive(PartialEq, Eq, Structural, Clone, Copy, Debug)]
pub enum Layer {
    Foreground,
    Background,
}

/// A row-major matrix of `rows` by `cols` values.
pub struct Plane<T> {
    pub rows: usize,
    pub cols: usize,
    pub data: Vec<T>,
}

/// Three `rows` by `cols` planes of color intensities, red, green and blue,
/// one after the other in `data`.
pub struct ColorPlanes {
    pub rows: usize,
    pub cols: usize,
    pub data: Vec<u8>,
}

pub open spec fn layer_color(c: Cell, l: Layer) -> Option<Color> {
    match l {
        Layer::Foreground => c.fg,
        Layer::Background => c.bg,
    }
}

/// Every row has `cols` cells, and there is at least one row.
pub open spec fn is_rect(g: Seq<Vec<Cell>>, cols: nat) -> bool {
    &&& g.len() > 0
    &&& forall|i: int| 0 <= i < g.len() ==> (#[trigger] g[i])@.len() == cols
}

/// The cells of the first `n` rows, row after row.
pub open spec fn flat(g: Seq<Vec<Cell>>, n: int) -> Seq<Cell>
    decreases n,
{
    if n <= 0 {
        Seq::empty()
    } else {
        flat(g, n - 1) + g[n - 1]@
    }
}

pub open spec fn all_cells(g: Seq<Vec<Cell>>) -> Seq<Cell> {
    flat(g, g.len() as int)
}

/// The palette index a view shows for a color: its index, or 0 for a
/// true color or the default.
pub open spec fn index_of(c: Option<Color>) -> u8 {
    match c {
        Some(Color::Indexed(i)) => i,
        _ => 0,
    }
}

fn index_of_color(c: Option<Color>) -> (r: u8)
    ensures
        r == index_of(c),
{
    match c {
        Some(Color::Indexed(i)) => i,
        _ => 0,
    }
}

fn color_of(c: &Cell, l: Layer) -> (r: Option<Color>)
    ensures
        r == layer_color(*c, l),
{
    match l {
        Layer::Foreground => c.fg,
        Layer::Background => c.bg,
    }
}

proof fn lemma_flat_len(g: Seq<Vec<Cell>>, cols: nat, n: int)
    requires
        is_rect(g, cols),
        0 <= n <= g.len(),
    ensures
        flat(g, n).len() == n * cols,
    decreases n,
{
    if n > 0 {
        lemma_flat_len(g, cols, n - 1);
        assert(g[n - 1]@.len() == cols);
        assert(flat(g, n).len() == flat(g, n - 1).len() + g[n - 1]@.len());
        assert((n - 1) * cols + cols == n * cols) by (nonlinear_arith);
    } else {
        assert(0 * cols == 0);
    }
}

/// The code points of the cells, as a `rows` by `cols` matrix.
pub fn chars_from_lines(lines: &Vec<Vec<Cell>>) -> (r: Plane<u32>)
    requires
        is_rect(lines@, lines@[0]@.len()),
    ensures
        r.rows == lines@.len(),
        r.cols == lines@[0]@.len(),
        r.data@.len() == r.rows * r.cols,
        r.data@ == all_cells(lines@).map_values(|c: Cell| c.ch as u32),
{
    let rows = lines.len();
    let cols = lines[0].len();
    let mut data: Vec<u32> = Vec::new();
    let mut i: usize = 0;
    while i < rows
        invariant
            rows == lines@.len(),
            is_rect(lines@, cols as nat),
            i <= rows,
            data@ == flat(lines@, i as int).map_values(|c: Cell| c.ch as u32),
        decreases rows - i,
    {
        let row = &lines[i];
        let mut j: usize = 0;
        while j < row.len()
            invariant
                j <= row@.len(),
                data@ == (flat(lines@, i as int) + row@.subrange(0, j as int)).map_values(
                    |c: Cell| c.ch as u32,
                ),
            decreases row@.len() - j,
        {
            data.push(row[j].ch as u32);
            j = j + 1;
            proof {
                assert((flat(lines@, i as int) + row@.subrange(0, j as int)).map_values(
                    |c: Cell| c.ch as u32,
                ) =~= (flat(lines@, i as int) + row@.subrange(0, j - 1)).map_values(
                    |c: Cell| c.ch as u32,
                ).push(row@[j - 1].ch as u32));
            }
        }
        proof {
            assert(row@.subrange(0, j as int) =~= row@);
        }
        i = i + 1;
    }
    proof {
        lemma_flat_len(lines@, cols as nat, rows as int);
    }
    Plane { rows, cols, data }
}

/// The palette indices of one color of the cells (0 where the color is a
/// true color or the default), and a mask that is true where it is the default.
pub fn indexedcolor_from_lines(lines: &Vec<Vec<Cell>>, layer: Layer) -> (r: (Plane<u8>, Plane<bool>))
    requires
        is_rect(lines@, lines@[0]@.len()),
    ensures
        r.0.rows == lines@.len() && r.1.rows == lines@.len(),
        r.0.cols == lines@[0]@.len() && r.1.cols == lines@[0]@.len(),
        r.0.data@.len() == r.0.rows * r.0.cols,
        r.0.data@ == all_cells(lines@).map_values(|c: Cell| index_of(layer_color(c, layer))),
        r.1.data@ == all_cells(lines@).map_values(|c: Cell| layer_color(c, layer) is None),
{
    let rows = lines.len();
    let cols = lines[0].len();
    let mut data: Vec<u8> = Vec::new();
    let mut mask: Vec<bool> = Vec::new();
    let mut i: usize = 0;
    while i < rows
        invariant
            rows == lines@.len(),
            is_rect(lines@, cols as nat),
            i <= rows,
            data@ == flat(lines@, i as int).map_values(|c: Cell| index_of(layer_color(c, layer))),
            mask@ == flat(lines@, i as int).map_values(|c: Cell| layer_color(c, layer) is None),
        decreases rows - i,
    {
        let row = &lines[i];
        let mut j: usize = 0;
        while j < row.len()
            invariant
                j <= row@.len(),
                data@ == (flat(lines@, i as int) + row@.subrange(0, j as int)).map_values(
                    |c: Cell| index_of(layer_color(c, layer)),
                ),
                mask@ == (flat(lines@, i as int) + row@.subrange(0, j as int)).map_values(
                    |c: Cell| layer_color(c, layer) is None,
                ),
            decreases row@.len() - j,
        {
            let c = color_of(&row[j], layer);
            data.push(index_of_color(c));
            mask.push(c.is_none());
            j = j + 1;
            proof {
                let p = flat(lines@, i as int) + row@.subrange(0, j as int);
                let q = flat(lines@, i as int) + row@.subrange(0, j - 1);
                assert(p =~= q.push(row@[j - 1]));
                assert(p.map_values(|c: Cell| index_of(layer_color(c, layer))) =~= q.map_values(
                    |c: Cell| index_of(layer_color(c, layer)),
                ).push(index_of(layer_color(row@[j - 1], layer))));
                assert(p.map_values(|c: Cell| layer_color(c, layer) is None) =~= q.map_values(
                    |c: Cell| layer_color(c, layer) is None,
                ).push(layer_color(row@[j - 1], layer) is None));
            }
        }
        proof {
            assert(row@.subrange(0, j as int) =~= row@);
        }
        i = i + 1;
    }
    proof {
        lemma_flat_len(lines@, cols as nat, rows as int);
    }
    (Plane { rows, cols, data }, Plane { rows, cols, data: mask })
}

/// Relies on `String::push` of std: the character is appended.
#[verifier::external_body]
fn push_char(s: &mut String, c: char)
    ensures
        final(s)@ == old(s)@.push(c),
{
    s.push(c)
}

/// Appends the characters of `t` to `s`.
fn push_chars(s: &mut String, t: &Vec<char>)
    ensures
        final(s)@ == old(s)@ + t@,
{
    let mut i: usize = 0;
    while i < t.len()
        invariant
            i <= t@.len(),
            s@ == old(s)@ + t@.subrange(0, i as int),
        decreases t@.len() - i,
    {
        push_char(s, t[i]);
        i = i + 1;
        proof {
            assert(s@ =~= old(s)@ + t@.subrange(0, i as int));
        }
    }
    proof {
        assert(t@.subrange(0, i as int) =~= t@);
    }
}

pub open spec fn digit(d: u8) -> char {
    ((48 + d) as u8) as char
}

/// The decimal digits of a byte, without leading zeros.
pub open spec fn decimal(n: u8) -> Seq<char> {
    if n >= 100 {
        seq![digit(n / 100), digit((n / 10) % 10), digit(n % 10)]
    } else if n >= 10 {
        seq![digit(n / 10), digit(n % 10)]
    } else {
        seq![digit(n)]
    }
}

fn decimal_of(n: u8) -> (r: Vec<char>)
    ensures
        r@ == decimal(n),
{
    if n >= 100 {
        vec![(48 + n / 100) as char, (48 + (n / 10) % 10) as char, (48 + n % 10) as char]
    } else if n >= 10 {
        vec![(48 + n / 10) as char, (48 + n % 10) as char]
    } else {
        vec![(48 + n) as char]
    }
}

/// The characters of a row of cells.
pub open spec fn row_chars(r: Seq<Cell>) -> Seq<char> {
    r.map_values(|c: Cell| c.ch)
}

/// The first `n` rows as text, separated by line feeds.
pub open spec fn joined_rows(g: Seq<Vec<Cell>>, n: int) -> Seq<char>
    decreases n,
{
    if n <= 0 {
        Seq::empty()
    } else if n == 1 {
        row_chars(g[0]@)
    } else {
        joined_rows(g, n - 1) + seq!['\n'] + row_chars(g[n - 1]@)
    }
}

/// Appends the characters of the cells of `row` to `s`.
fn push_row_chars(s: &mut String, row: &Vec<Cell>)
    ensures
        final(s)@ == old(s)@ + row_chars(row@),
{
    let mut j: usize = 0;
    while j < row.len()
        invariant
            j <= row@.len(),
            s@ == old(s)@ + row_chars(row@.subrange(0, j as int)),
        decreases row@.len() - j,
    {
        push_char(s, row[j].ch);
        j = j + 1;
        proof {
            assert(s@ =~= old(s)@ + row_chars(row@.subrange(0, j as int)));
        }
    }
    proof {
        assert(row@.subrange(0, j as int) =~= row@);
    }
}

/// The text of the screen: the characters of each row, rows separated by
/// line feeds.
pub fn text_from_lines(lines: &Vec<Vec<Cell>>) -> (r: String)
    ensures
        r@ == joined_rows(lines@, lines@.len() as int),
{
    let mut s = String::new();
    let mut i: usize = 0;
    while i < lines.len()
        invariant
            i <= lines@.len(),
            s@ == joined_rows(lines@, i as int),
        decreases lines@.len() - i,
    {
        if i > 0 {
            push_char(&mut s, '\n');
        }
        push_row_chars(&mut s, &lines[i]);
        i = i + 1;
    }
    s
}

/// The escape sequence that selects a color: `layer` is `3` for the
/// foreground and `4` for the background; `None` selects the default.
pub open spec fn sgr(layer: char, c: Option<Color>) -> Seq<char> {
    match c {
        None => seq!['\x1b', '[', layer, '9', 'm'],
        Some(Color::Indexed(i)) => seq!['\x1b', '[', layer, '8', ';', '5', ';'] + decimal(i) + seq!['m'],
        Some(Color::Rgb(r, g, b)) => seq!['\x1b', '[', layer, '8', ';', '2', ';'] + decimal(r) + seq![';']
            + decimal(g) + seq![';'] + decimal(b) + seq!['m'],
    }
}

/// The styled text of a run of cells, given the colors in force before it:
/// a color sequence wherever a color changes, then the character.
pub open spec fn render_cells(cells: Seq<Cell>, fg: Option<Color>, bg: Option<Color>) -> Seq<char>
    decreases cells.len(),
{
    if cells.len() == 0 {
        Seq::empty()
    } else {
        let c = cells[0];
        (if c.fg != fg {
            sgr('3', c.fg)
        } else {
            Seq::empty()
        }) + (if c.bg != bg {
            sgr('4', c.bg)
        } else {
            Seq::empty()
        }) + seq![c.ch] + render_cells(cells.drop_first(), c.fg, c.bg)
    }
}

/// A row rendered with colors from the defaults on, then a reset and a line feed.
pub open spec fn render_row(r: Seq<Cell>) -> Seq<char> {
    render_cells(r, None, None) + seq!['\x1b', '[', '0', 'm', '\n']
}

pub open spec fn render_rows(g: Seq<Vec<Cell>>, n: int) -> Seq<char>
    decreases n,
{
    if n <= 0 {
        Seq::empty()
    } else {
        render_rows(g, n - 1) + render_row(g[n - 1]@)
    }
}

fn same_color(a: Option<Color>, b: Option<Color>) -> (r: bool)
    ensures
        r == (a == b),
{
    match (a, b) {
        (None, None) => true,
        (Some(x), Some(y)) => x == y,
        _ => false,
    }
}

fn push_sgr(s: &mut String, layer: char, c: Option<Color>)
    ensures
        final(s)@ == old(s)@ + sgr(layer, c),
{
    match c {
        None => {
            push_chars(s, &vec!['\x1b', '[', layer, '9', 'm']);
            proof {
                assert(s@ =~= old(s)@ + sgr(layer, c));
            }
        },
        Some(Color::Indexed(i)) => {
            push_chars(s, &vec!['\x1b', '[', layer, '8', ';', '5', ';']);
            push_chars(s, &decimal_of(i));
            push_char(s, 'm');
            proof {
                assert(s@ =~= old(s)@ + sgr(layer, c));
            }
        },
        Some(Color::Rgb(r, g, b)) => {
            push_chars(s, &vec!['\x1b', '[', layer, '8', ';', '2', ';']);
            push_chars(s, &decimal_of(r));
            push_char(s, ';');
            push_chars(s, &decimal_of(g));
            push_char(s, ';');
            push_chars(s, &decimal_of(b));
            push_char(s, 'm');
            proof {
                assert(s@ =~= old(s)@ + sgr(layer, c));
            }
        },
    }
}

/// The text of the screen with color escape sequences: in each row, a
/// sequence wherever the foreground or background changes (starting from
/// the defaults), and a reset and a line feed after each row.
pub fn render_lines(lines: &Vec<Vec<Cell>>) -> (r: String)
    ensures
        r@ == render_rows(lines@, lines@.len() as int),
{
    let mut s = String::new();
    let mut i: usize = 0;
    while i < lines.len()
        invariant
            i <= lines@.len(),
            s@ == render_rows(lines@, i as int),
        decreases lines@.len() - i,
    {
        let row = &lines[i];
        let ghost start = s@;
        let mut fg: Option<Color> = None;
        let mut bg: Option<Color> = None;
        let mut j: usize = 0;
        proof {
            assert(row@.subrange(0, row@.len() as int) =~= row@);
        }
        while j < row.len()
            invariant
                j <= row@.len(),
                s@ + render_cells(row@.subrange(j as int, row@.len() as int), fg, bg) == start
                    + render_cells(row@, None, None),
            decreases row@.len() - j,
        {
            let c = row[j];
            let ghost before = s@;
            let ghost tail = row@.subrange(j as int, row@.len() as int);
            proof {
                assert(tail.drop_first() =~= row@.subrange(j + 1, row@.len() as int));
            }
            if !same_color(c.fg, fg) {
                push_sgr(&mut s, '3', c.fg);
            }
            if !same_color(c.bg, bg) {
                push_sgr(&mut s, '4', c.bg);
            }
            push_char(&mut s, c.ch);
            proof {
                assert(s@ + render_cells(row@.subrange(j + 1, row@.len() as int), c.fg, c.bg)
                    =~= before + render_cells(tail, fg, bg));
            }
            fg = c.fg;
            bg = c.bg;
            j = j + 1;
        }
        proof {
            assert(row@.subrange(j as int, row@.len() as int) =~= Seq::<Cell>::empty());
            assert(s@ =~= start + render_cells(row@, None, None));
        }
        push_chars(&mut s, &vec!['\x1b', '[', '0', 'm', '\n']);
        proof {
            assert(s@ =~= render_rows(lines@, i + 1));
        }
        i = i + 1;
    }
    s
}

/// A true-color triple.
#[derive(PartialEq, Eq, Structural, Clone, Copy, Debug)]
pub struct Rgb {
    pub r: u8,
    pub g: u8,
    pub b: u8,
}

/// The xterm system colors, 0 to 15.
pub open spec fn system_color(i: u8) -> Rgb {
    match i {
        0 => Rgb { r: 0, g: 0, b: 0 },
        1 => Rgb { r: 205, g: 0, b: 0 },
        2 => Rgb { r: 0, g: 205, b: 0 },
        3 => Rgb { r: 205, g: 205, b: 0 },
        4 => Rgb { r: 0, g: 0, b: 238 },
        5 => Rgb { r: 205, g: 0, b: 205 },
        6 => Rgb { r: 0, g: 205, b: 205 },
        7 => Rgb { r: 229, g: 229, b: 229 },
        8 => Rgb { r: 127, g: 127, b: 127 },
        9 => Rgb { r: 255, g: 0, b: 0 },
        10 => Rgb { r: 0, g: 255, b: 0 },
        11 => Rgb { r: 255, g: 255, b: 0 },
        12 => Rgb { r: 92, g: 92, b: 255 },
        13 => Rgb { r: 255, g: 0, b: 255 },
        14 => Rgb { r: 0, g: 255, b: 255 },
        15 => Rgb { r: 255, g: 255, b: 255 },
        _ => Rgb { r: 255, g: 255, b: 255 },
    }
}

/// An intensity of the 6 by 6 by 6 color cube: 0, then 95 to 255 in steps of 40.
pub open spec fn cube_level(v: u8) -> u8 {
    if v == 0 {
        0
    } else {
        (55 + 40 * v) as u8
    }
}

/// The xterm 256-color palette: the system colors, the color cube from 16
/// to 231, and the gray ramp from 232 on.
pub open spec fn palette(i: u8) -> Rgb {
    if i < 16 {
        system_color(i)
    } else if i < 232 {
        let k = (i - 16) as u8;
        Rgb { r: cube_level(k / 36), g: cube_level((k / 6) % 6), b: cube_level(k % 6) }
    } else {
        let v = (8 + 10 * (i - 232)) as u8;
        Rgb { r: v, g: v, b: v }
    }
}

fn system_color_of(i: u8) -> (c: Rgb)
    ensures
        c == system_color(i),
{
    match i {
        0 => Rgb { r: 0, g: 0, b: 0 },
        1 => Rgb { r: 205, g: 0, b: 0 },
        2 => Rgb { r: 0, g: 205, b: 0 },
        3 => Rgb { r: 205, g: 205, b: 0 },
        4 => Rgb { r: 0, g: 0, b: 238 },
        5 => Rgb { r: 205, g: 0, b: 205 },
        6 => Rgb { r: 0, g: 205, b: 205 },
        7 => Rgb { r: 229, g: 229, b: 229 },
        8 => Rgb { r: 127, g: 127, b: 127 },
        9 => Rgb { r: 255, g: 0, b: 0 },
        10 => Rgb { r: 0, g: 255, b: 0 },
        11 => Rgb { r: 255, g: 255, b: 0 },
        12 => Rgb { r: 92, g: 92, b: 255 },
        13 => Rgb { r: 255, g: 0, b: 255 },
        14 => Rgb { r: 0, g: 255, b: 255 },
        15 => Rgb { r: 255, g: 255, b: 255 },
        _ => Rgb { r: 255, g: 255, b: 255 },
    }
}

fn cube_level_of(v: u8) -> (r: u8)
    requires
        v < 6,
    ensures
        r == cube_level(v),
{
    if v == 0 {
        0
    } else {
        55 + 40 * v
    }
}

/// The true color of a palette index.
pub fn palette_color(i: u8) -> (c: Rgb)
    ensures
        c == palette(i),
{
    if i < 16 {
        system_color_of(i)
    } else if i < 232 {
        let k: u8 = i - 16;
        Rgb { r: cube_level_of(k / 36), g: cube_level_of((k / 6) % 6), b: cube_level_of(k % 6) }
    } else {
        let v: u8 = 8 + 10 * (i - 232);
        Rgb { r: v, g: v, b: v }
    }
}

/// The true color a view shows for a cell color: the palette's color of an
/// index, the triple itself, or black for the default.
pub open spec fn rgb_of(c: Option<Color>) -> Rgb {
    match c {
        None => Rgb { r: 0, g: 0, b: 0 },
        Some(Color::Indexed(i)) => palette(i),
        Some(Color::Rgb(r, g, b)) => Rgb { r, g, b },
    }
}

fn rgb_of_color(c: Option<Color>) -> (r: Rgb)
    ensures
        r == rgb_of(c),
{
    match c {
        None => Rgb { r: 0, g: 0, b: 0 },
        Some(Color::Indexed(i)) => palette_color(i),
        Some(Color::Rgb(r, g, b)) => Rgb { r, g, b },
    }
}

pub open spec fn red_of(c: Cell, l: Layer) -> u8 {
    rgb_of(layer_color(c, l)).r
}

pub open spec fn green_of(c: Cell, l: Layer) -> u8 {
    rgb_of(layer_color(c, l)).g
}

pub open spec fn blue_of(c: Cell, l: Layer) -> u8 {
    rgb_of(layer_color(c, l)).b
}

/// One color of the cells as true colors: the red plane, then the green,
/// then the blue, each `rows` by `cols`; and a mask that is true where the
/// color is the default.
pub fn truecolor_from_lines(lines: &Vec<Vec<Cell>>, layer: Layer) -> (r: (ColorPlanes, Plane<bool>))
    requires
        is_rect(lines@, lines@[0]@.len()),
    ensures
        r.0.rows == lines@.len() && r.1.rows == lines@.len(),
        r.0.cols == lines@[0]@.len() && r.1.cols == lines@[0]@.len(),
        r.0.data@ == all_cells(lines@).map_values(|c: Cell| red_of(c, layer)) + all_cells(
            lines@,
        ).map_values(|c: Cell| green_of(c, layer)) + all_cells(lines@).map_values(
            |c: Cell| blue_of(c, layer),
        ),
        r.1.data@ == all_cells(lines@).map_values(|c: Cell| layer_color(c, layer) is None),
{
    let rows = lines.len();
    let cols = lines[0].len();
    let mut reds: Vec<u8> = Vec::new();
    let mut greens: Vec<u8> = Vec::new();
    let mut blues: Vec<u8> = Vec::new();
    let mut mask: Vec<bool> = Vec::new();
    let mut i: usize = 0;
    while i < rows
        invariant
            rows == lines@.len(),
            is_rect(lines@, cols as nat),
            i <= rows,
            reds@ == flat(lines@, i as int).map_values(|c: Cell| red_of(c, layer)),
            greens@ == flat(lines@, i as int).map_values(|c: Cell| green_of(c, layer)),
            blues@ == flat(lines@, i as int).map_values(|c: Cell| blue_of(c, layer)),
            mask@ == flat(lines@, i as int).map_values(|c: Cell| layer_color(c, layer) is None),
        decreases rows - i,
    {
        let row = &lines[i];
        let mut j: usize = 0;
        while j < row.len()
            invariant
                j <= row@.len(),
                reds@ == (flat(lines@, i as int) + row@.subrange(0, j as int)).map_values(
                    |c: Cell| red_of(c, layer),
                ),
                greens@ == (flat(lines@, i as int) + row@.subrange(0, j as int)).map_values(
                    |c: Cell| green_of(c, layer),
                ),
                blues@ == (flat(lines@, i as int) + row@.subrange(0, j as int)).map_values(
                    |c: Cell| blue_of(c, layer),
                ),
                mask@ == (flat(lines@, i as int) + row@.subrange(0, j as int)).map_values(
                    |c: Cell| layer_color(c, layer) is None,
                ),
            decreases row@.len() - j,
        {
            let c = color_of(&row[j], layer);
            let t = rgb_of_color(c);
            reds.push(t.r);
            greens.push(t.g);
            blues.push(t.b);
            mask.push(c.is_none());
            j = j + 1;
            proof {
                let p = flat(lines@, i as int) + row@.subrange(0, j as int);
                let q = flat(lines@, i as int) + row@.subrange(0, j - 1);
                let x = row@[j - 1];
                assert(p =~= q.push(x));
                assert(p.map_values(|c: Cell| red_of(c, layer)) =~= q.map_values(
                    |c: Cell| red_of(c, layer),
                ).push(red_of(x, layer)));
                assert(p.map_values(|c: Cell| green_of(c, layer)) =~= q.map_values(
                    |c: Cell| green_of(c, layer),
                ).push(green_of(x, layer)));
                assert(p.map_values(|c: Cell| blue_of(c, layer)) =~= q.map_values(
                    |c: Cell| blue_of(c, layer),
                ).push(blue_of(x, layer)));
                assert(p.map_values(|c: Cell| layer_color(c, layer) is None) =~= q.map_values(
                    |c: Cell| layer_color(c, layer) is None,
                ).push(layer_color(x, layer) is None));
            }
        }
        proof {
            assert(row@.subrange(0, j as int) =~= row@);
        }
        i = i + 1;
    }
    let ghost rv = reds@;
    let ghost gv = greens@;
    let ghost bv = blues@;
    let mut data = reds;
    data.append(&mut greens);
    data.append(&mut blues);
    proof {
        assert(data@ =~= rv + gv + bv);
    }
    (ColorPlanes { rows, cols, data }, Plane { rows, cols, data: mask })
}

} // verus!
