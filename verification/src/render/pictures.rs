//! Formulas as pictures: the grid of cells that a picture takes in a terminal with
//! graphics, and what a picture program printed as lines.

use crate::numbers::{decimal, decimal_text};
use crate::render::raster::{div_up, sample, sampled, MathArt, MathArtModel, Pixel, Raster};
use crate::text::{
    chars_of, contains_text, is_empty_text, law_a_part_occurs, lossy_utf8, occurs, pieces, split_on,
    text_from_utf8_lossy, texts,
};
use vstd::prelude::*;
use vstd::string::*;

verus! {

/// The most lines that a formula takes in a terminal with graphics.
pub const MAX_GRID_ROWS: usize = 8;

/// Whether a terminal shows pictures: one that does so natively, or one whose name
/// or surroundings say so.
pub fn kitty_graphics_supported(native: bool, term: Option<&str>, resources: bool) -> (r: bool)
    ensures
        r == (native || resources || (term is Some && occurs(term->0@, "ghostty"@))),
{
    if native || resources {
        return true;
    }
    match term {
        Some(name) => contains_text(name, "ghostty"),
        None => false,
    }
}

/// A number between two bounds.
pub open spec fn between(n: int, lo: int, hi: int) -> int {
    if n < lo {
        lo
    } else if n > hi {
        hi
    } else {
        n
    }
}

/// The columns and the lines of a picture: half its pixels, at most `max_cols`
/// columns and `MAX_GRID_ROWS` lines. One that is too wide shrinks evenly.
pub open spec fn grid_of(width: int, height: int, cell_width: int, cell_height: int, max_cols: int) -> (
    int,
    int,
) {
    let most = between(max_cols, 8, 200);
    let cols = div_up(div_up(width, 2), cell_width);
    let rows = between(div_up(div_up(height, 2), cell_height), 1, MAX_GRID_ROWS as int);
    if cols > most {
        (most, div_up(rows * most, cols))
    } else {
        (cols, rows)
    }
}

proof fn lemma_div_up(a: int, b: int)
    requires
        a > 0,
        b > 0,
    ensures
        1 <= div_up(a, b) <= a,
{
    assert(1 <= (a + b - 1) / b <= a) by (nonlinear_arith)
        requires
            a > 0,
            b > 0,
    ;
}

proof fn lemma_div_up_less(a: int, b: int, c: int)
    requires
        a > 0,
        b > 0,
        c > 0,
        a <= b * c,
    ensures
        1 <= div_up(a, b) <= c,
{
    lemma_div_up(a, b);
    assert((a + b - 1) / b <= c) by (nonlinear_arith)
        requires
            a <= b * c,
            b > 0,
    ;
}

/// Whatever the picture and the terminal, the grid has at least one column and one
/// line, at most 200 columns and `max_cols` (eight, if fewer), and at most
/// `MAX_GRID_ROWS` lines.
pub proof fn law_grid_is_bounded(
    width: int,
    height: int,
    cell_width: int,
    cell_height: int,
    max_cols: int,
)
    requires
        width > 0,
        height > 0,
        cell_width > 0,
        cell_height > 0,
    ensures
        1 <= grid_of(width, height, cell_width, cell_height, max_cols).0 <= between(
            max_cols,
            8,
            200,
        ),
        1 <= grid_of(width, height, cell_width, cell_height, max_cols).1 <= MAX_GRID_ROWS,
{
    let most = between(max_cols, 8, 200);
    lemma_div_up(width, 2);
    lemma_div_up(div_up(width, 2), cell_width);
    let cols = div_up(div_up(width, 2), cell_width);
    let rows = between(div_up(div_up(height, 2), cell_height), 1, MAX_GRID_ROWS as int);
    if cols > most {
        assert(0 < rows * most <= cols * rows) by (nonlinear_arith)
            requires
                rows >= 1,
                most >= 8,
                cols > most,
        ;
        lemma_div_up_less(rows * most, cols, rows);
    }
}

fn ceil_div(a: usize, b: usize) -> (r: usize)
    requires
        a > 0,
        b > 0,
    ensures
        r == div_up(a as int, b as int),
        1 <= r <= a,
{
    proof {
        lemma_div_up(a as int, b as int);
    }
    (((a as u128) + (b as u128) - 1) / (b as u128)) as usize
}

/// The columns and the lines of a picture in a terminal with graphics. `cell_width`
/// and `cell_height` are the size of a character in pixels.
pub fn kitty_grid(width: usize, height: usize, cell_width: u16, cell_height: u16, max_cols: usize) -> (r: (
    usize,
    usize,
))
    requires
        width > 0,
        height > 0,
    ensures
        (r.0 as int, r.1 as int) == grid_of(
            width as int,
            height as int,
            between(cell_width as int, 1, u16::MAX as int),
            between(cell_height as int, 1, u16::MAX as int),
            max_cols as int,
        ),
        1 <= r.0 <= 200,
        1 <= r.1 <= MAX_GRID_ROWS,
{
    let cw: usize = if cell_width < 1 { 1 } else { cell_width as usize };
    let ch: usize = if cell_height < 1 { 1 } else { cell_height as usize };
    let most: usize = if max_cols < 8 {
        8
    } else if max_cols > 200 {
        200
    } else {
        max_cols
    };
    proof {
        law_grid_is_bounded(
            width as int,
            height as int,
            cw as int,
            ch as int,
            max_cols as int,
        );
    }
    let cols: usize = ceil_div(ceil_div(width, 2), cw);
    let natural: usize = ceil_div(ceil_div(height, 2), ch);
    let rows: usize = if natural > MAX_GRID_ROWS { MAX_GRID_ROWS } else { natural };
    if cols > most {
        assert(0 < rows * most <= 1600) by (nonlinear_arith)
            requires
                1 <= rows <= 8,
                8 <= most <= 200,
        ;
        (most, ceil_div(rows * most, cols))
    } else {
        (cols, rows)
    }
}

/// The pixel at a place of a canvas: the picture scaled to a size, at the left and
/// in the middle of the height, on nothing.
pub open spec fn canvas_pixel(r: Raster, x: int, y: int, draw: (int, int), height: int) -> Pixel {
    let top = (height - draw.1) / 2;
    if x < draw.0 && top <= y < top + draw.1 {
        sampled(r, x, y - top, draw.0, draw.1)
    } else {
        Pixel { r: 0, g: 0, b: 0, a: 0 }
    }
}

/// A canvas that holds the picture scaled to a size, at the left and in the middle of
/// the height, on nothing.
pub fn kitty_canvas(raster: &Raster, draw_width: usize, draw_height: usize, width: usize, height: usize) -> (r:
    Raster)
    requires
        raster.wf(),
        0 < draw_width <= width,
        0 < draw_height <= height,
        width * height <= usize::MAX,
    ensures
        r.wf(),
        r.width == width,
        r.height == height,
        forall|x: int, y: int|
            0 <= x < width && 0 <= y < height ==> #[trigger] r.at(x, y) == canvas_pixel(
                *raster,
                x,
                y,
                (draw_width as int, draw_height as int),
                height as int,
            ),
{
    let top: usize = (height - draw_height) / 2;
    let ghost draw = (draw_width as int, draw_height as int);
    let mut pixels: Vec<Pixel> = Vec::new();
    let mut y: usize = 0;
    assert(0 * width == 0) by (nonlinear_arith);
    while y < height
        invariant
            raster.wf(),
            0 < draw_width <= width,
            0 < draw_height <= height,
            top == (height - draw_height) / 2,
            draw == (draw_width as int, draw_height as int),
            y <= height,
            pixels.len() == y * width,
            forall|px: int, py: int|
                0 <= px < width && 0 <= py < y ==> #[trigger] pixels@[py * width + px]
                    == canvas_pixel(*raster, px, py, draw, height as int),
        decreases height - y,
    {
        let mut x: usize = 0;
        while x < width
            invariant
                raster.wf(),
                0 < draw_width <= width,
                0 < draw_height <= height,
                top == (height - draw_height) / 2,
                draw == (draw_width as int, draw_height as int),
                y < height,
                x <= width,
                pixels.len() == y * width + x,
                forall|px: int, py: int|
                    0 <= px < width && 0 <= py < y ==> #[trigger] pixels@[py * width + px]
                        == canvas_pixel(*raster, px, py, draw, height as int),
                forall|px: int|
                    0 <= px < x ==> #[trigger] pixels@[y * width + px] == canvas_pixel(
                        *raster,
                        px,
                        y as int,
                        draw,
                        height as int,
                    ),
            decreases width - x,
        {
            let p: Pixel = if x < draw_width && top <= y && y - top < draw_height {
                sample(raster, x, y - top, draw_width, draw_height)
            } else {
                Pixel { r: 0, g: 0, b: 0, a: 0 }
            };
            let ghost before = pixels@;
            pixels.push(p);
            proof {
                assert forall|px: int, py: int| 0 <= px < width && 0 <= py < y implies
                    #[trigger] pixels@[py * width + px] == canvas_pixel(
                    *raster,
                    px,
                    py,
                    draw,
                    height as int,
                ) by {
                    assert(0 <= py * width + px < y * width) by (nonlinear_arith)
                        requires
                            0 <= px < width,
                            0 <= py < y,
                    ;
                    assert(before[py * width + px] == pixels@[py * width + px]);
                }
            }
            x += 1;
        }
        assert((y + 1) * width == y * width + width) by (nonlinear_arith);
        proof {
            assert forall|px: int, py: int| 0 <= px < width && 0 <= py < y + 1 implies
                #[trigger] pixels@[py * width + px] == canvas_pixel(
                *raster,
                px,
                py,
                draw,
                height as int,
            ) by {
                if py == y {
                    assert(pixels@[y * width + px] == canvas_pixel(
                        *raster,
                        px,
                        y as int,
                        draw,
                        height as int,
                    ));
                }
            }
        }
        y += 1;
    }
    assert(height * width == width * height) by (nonlinear_arith);
    let r: Raster = Raster { pixels: pixels, width: width, height: height };
    assert forall|px: int, py: int| 0 <= px < width && 0 <= py < height implies #[trigger] r.at(px, py)
        == canvas_pixel(*raster, px, py, draw, height as int) by {
        assert(r.at(px, py) == pixels@[py * width + px]);
    }
    r
}

// ---------------------------------------------------------------------------
// A picture program

/// What the picture program is asked for, after what its version needs.
pub open spec fn chafa_options(max_cols: nat, rows: nat) -> Seq<Seq<char>> {
    seq!["-t"@, "0.9"@, "--size"@, decimal(max_cols) + "x"@ + decimal(rows), "-"@]
}

/// What the picture program is asked for, after what its version needs: where a
/// pixel counts as empty, the size, and to read its input.
pub fn chafa_args(max_cols: usize, rows: usize) -> (r: Vec<String>)
    ensures
        texts(r@) == chafa_options(max_cols as nat, rows as nat),
{
    let mut size: String = decimal_text(max_cols as u64);
    size.append("x");
    let n: String = decimal_text(rows as u64);
    size.append(&n);
    let r: Vec<String> = vec![
        "-t".to_owned(),
        "0.9".to_owned(),
        "--size".to_owned(),
        size,
        "-".to_owned(),
    ];
    assert(texts(r@) =~= chafa_options(max_cols as nat, rows as nat));
    r
}

/// A text with an index, ESC D, as the end of a line.
pub open spec fn index_as_newline(s: Seq<char>) -> Seq<char>
    decreases s.len(),
{
    if s.len() == 0 {
        seq![]
    } else if s.len() >= 2 && s[0] == '\x1b' && s[1] == 'D' {
        seq!['\n'] + index_as_newline(s.skip(2))
    } else {
        seq![s[0]] + index_as_newline(s.skip(1))
    }
}

fn replace_index(s: &str) -> (r: String)
    ensures
        r@ == index_as_newline(s@),
{
    let v: Vec<char> = chars_of(s);
    let mut out: String = String::new();
    let mut i: usize = 0;
    assert(v@.skip(0) =~= s@);
    assert(out@ + index_as_newline(s@) =~= index_as_newline(s@));
    while i < v.len()
        invariant
            i <= v.len(),
            out@ + index_as_newline(v@.skip(i as int)) == index_as_newline(s@),
        decreases v.len() - i,
    {
        let ghost rest = v@.skip(i as int);
        let ghost before = out@;
        if v.len() - i >= 2 && v[i] == '\x1b' && v[i + 1] == 'D' {
            out.push('\n');
            assert(rest.skip(2) =~= v@.skip(i + 2));
            assert(before + (seq!['\n'] + index_as_newline(rest.skip(2))) =~= out@
                + index_as_newline(v@.skip(i + 2)));
            i += 2;
        } else {
            out.push(v[i]);
            assert(rest.skip(1) =~= v@.skip(i + 1));
            assert(before + (seq![rest[0]] + index_as_newline(rest.skip(1))) =~= out@
                + index_as_newline(v@.skip(i + 1)));
            i += 1;
        }
    }
    assert(out@ + Seq::<char>::empty() =~= out@);
    out
}

/// Lines without an empty one at the end.
pub open spec fn without_empty_last(l: Seq<Seq<char>>) -> Seq<Seq<char>> {
    if l.len() > 0 && l.last().len() == 0 {
        l.drop_last()
    } else {
        l
    }
}

/// Lines, filled up with empty ones to a number.
pub open spec fn filled(l: Seq<Seq<char>>, rows: nat) -> Seq<Seq<char>> {
    l + Seq::new(
        (if l.len() < rows {
            rows - l.len()
        } else {
            0
        }) as nat,
        |i: int| Seq::<char>::empty(),
    )
}

/// What a picture program printed as lines: at least `rows` of them, nothing where
/// it printed none.
pub open spec fn printed_art(printed: Seq<u8>, max_cols: usize, rows: usize) -> Option<MathArtModel> {
    let l = without_empty_last(split_on(index_as_newline(lossy_utf8(printed)), '\n'));
    if l.len() == 0 {
        None
    } else {
        Some(MathArtModel { lines: filled(l, rows as nat), cols: max_cols })
    }
}

/// What a picture program printed as lines. An index counts as the end of a line, and
/// empty lines stand for what the picture covers without ending a line.
pub fn chafa_art(printed: &Vec<u8>, max_cols: usize, rows: usize) -> (r: Option<MathArt>)
    ensures
        match r {
            Some(a) => printed_art(printed@, max_cols, rows) == Some(a@),
            None => printed_art(printed@, max_cols, rows) is None,
        },
{
    let raw: String = text_from_utf8_lossy(printed);
    chafa_lines(&raw, max_cols, rows)
}

/// What a picture program printed, as text, as lines.
pub fn chafa_lines(raw: &str, max_cols: usize, rows: usize) -> (r: Option<MathArt>)
    ensures
        ({
            let l = without_empty_last(split_on(index_as_newline(raw@), '\n'));
            match r {
                Some(a) => l.len() > 0 && a@ == (MathArtModel {
                    lines: filled(l, rows as nat),
                    cols: max_cols,
                }),
                None => l.len() == 0,
            }
        }),
{
    let flat: String = replace_index(raw);
    let mut lines: Vec<String> = pieces(&flat, '\n');
    let ghost all = split_on(index_as_newline(raw@), '\n');
    let ghost l = without_empty_last(all);
    assert(texts(lines@).last() == lines@.last()@);
    if is_empty_text(&lines[lines.len() - 1]) {
        let _ = lines.pop();
        assert(texts(lines@) =~= all.drop_last());
    }
    assert(texts(lines@) =~= l);
    if lines.len() == 0 {
        return None;
    }
    let ghost n = lines.len();
    while lines.len() < rows
        invariant
            n == l.len(),
            n <= lines.len(),
            lines.len() <= rows || lines.len() == n,
            texts(lines@) =~= l + Seq::new((lines.len() - n) as nat, |i: int| Seq::<char>::empty()),
        decreases rows - lines.len(),
    {
        let ghost before = texts(lines@);
        let blank: String = String::new();
        assert(blank@ =~= seq![]);
        lines.push(blank);
        assert(texts(lines@) =~= before.push(Seq::<char>::empty()));
    }
    let a: MathArt = MathArt { lines: lines, cols: max_cols };
    assert(a@.lines =~= filled(l, rows as nat));
    Some(a)
}

/// However the program ended its lines, the picture takes at least the lines that it
/// was asked for.
pub proof fn law_printed_picture_fills_its_rows(printed: Seq<u8>, max_cols: usize, rows: usize)
    requires
        printed_art(printed, max_cols, rows) is Some,
    ensures
        printed_art(printed, max_cols, rows)->0.lines.len() >= rows,
        printed_art(printed, max_cols, rows)->0.cols == max_cols,
{
}

/// A picture that is narrow enough takes just as many columns as half its width needs.
pub proof fn law_pictures_take_the_columns_they_need(
    width: int,
    height: int,
    cell_width: int,
    cell_height: int,
    max_cols: int,
)
    requires
        width > 0,
        height > 0,
        cell_width > 0,
        cell_height > 0,
    ensures
        ({
            let g = grid_of(width, height, cell_width, cell_height, max_cols);
            &&& width <= 2 * (8 * cell_width) ==> 2 * (g.0 * cell_width) >= width && 2 * ((g.0 - 1)
                * cell_width) < width
            &&& 8 <= max_cols <= 200 ==> g.0 <= max_cols
        }),
{
    let h = div_up(width, 2);
    let c = div_up(h, cell_width);
    assert(2 * h >= width && 2 * (h - 1) < width);
    assert(c * cell_width >= h && (c - 1) * cell_width < h) by (nonlinear_arith)
        requires
            c == (h + cell_width - 1) / cell_width,
            cell_width > 0,
            h > 0,
    ;
    if width <= 2 * (8 * cell_width) {
        assert(h <= 8 * cell_width);
        assert(c <= 8) by (nonlinear_arith)
            requires
                (c - 1) * cell_width < h,
                h <= 8 * cell_width,
                cell_width > 0,
        ;
    }
}

/// What lies beside a picture on its canvas is clear, and the picture stands in the middle.
pub proof fn law_beside_a_picture_all_is_clear(r: Raster, x: int, y: int, draw: (int, int), height: int)
    requires
        0 < draw.1 <= height,
    ensures
        x >= draw.0 ==> canvas_pixel(r, x, y, draw, height).a == 0,
        y < (height - draw.1) / 2 ==> canvas_pixel(r, x, y, draw, height).a == 0,
        y >= (height - draw.1) / 2 + draw.1 ==> canvas_pixel(r, x, y, draw, height).a == 0,
        draw.1 == height && x < draw.0 && 0 <= y < height ==> canvas_pixel(r, x, y, draw, height)
            == sampled(r, x, y, draw.0, draw.1),
{
}

/// The picture program is told the size, and what it prints is kept line by line.
pub proof fn law_printed_lines_are_kept(cols: nat, rows: nat, s: Seq<char>, l: Seq<Seq<char>>)
    ensures
        chafa_options(cols, rows).len() == 5,
        chafa_options(cols, rows)[3] == decimal(cols) + "x"@ + decimal(rows),
        (forall|i: int| 0 <= i < s.len() ==> #[trigger] s[i] != '\x1b') ==> index_as_newline(s) == s,
        index_as_newline(seq!['\x1b', 'D'] + s) == seq!['\n'] + index_as_newline(s),
        l.is_prefix_of(filled(l, rows)),
        filled(l, rows).len() >= rows,
        l.len() >= rows ==> filled(l, rows) == l,
        forall|i: int| l.len() <= i < filled(l, rows).len() ==> (#[trigger] filled(l, rows)[i]).len()
            == 0,
    decreases s.len(),
{
    let t = seq!['\x1b', 'D'] + s;
    assert(t.skip(2) =~= s);
    if l.len() >= rows {
        assert(filled(l, rows) =~= l);
    }
    if (forall|i: int| 0 <= i < s.len() ==> #[trigger] s[i] != '\x1b') {
        if s.len() > 0 {
            let rest = s.skip(1);
            assert forall|i: int| 0 <= i < rest.len() implies #[trigger] rest[i] != '\x1b' by {
                assert(rest[i] == s[i + 1]);
            }
            law_printed_lines_are_kept(cols, rows, rest, l);
            assert(s[0] != '\x1b');
            assert(index_as_newline(s) =~= s);
        } else {
            assert(index_as_newline(s) =~= s);
        }
    }
}

/// Pictures are shown where the terminal says in any way that it can.
pub proof fn law_terminals_that_show_pictures(
    native: bool,
    term: Option<&str>,
    resources: bool,
    r: bool,
)
    requires
        call_ensures(kitty_graphics_supported, (native, term, resources), r),
    ensures
        native || resources ==> r,
        !native && !resources && term is None ==> !r,
        term is Some && term->0@ == "ghostty"@ ==> r,
        !native && !resources && r ==> occurs(term->0@, "ghostty"@),
{
    if term is Some && term->0@ == "ghostty"@ {
        law_a_part_occurs(seq![], "ghostty"@, seq![]);
        assert(seq![] + "ghostty"@ + seq![] =~= "ghostty"@);
    }
}

} // verus!
