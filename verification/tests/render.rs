use gqy::render::blocks::{
    begin_marker, expand_under, expandable_text_lines, parse_marker, BlockMarker, BlockRegistry,
    END_MARKER, MAX_LINES,
};
use gqy::render::math::{
    center_to_width, frac_box, hcat, pad_to_width, parenthesize, text_display_width, to_script,
    unicode_math, unicode_math_lines, MathTextBox,
};
use gqy::render::pictures::{
    chafa_args, chafa_art, chafa_lines, kitty_canvas, kitty_graphics_supported, kitty_grid,
};
use gqy::render::raster::{
    decode_and_trim, halfblock_art, halfblock_cell, natural_block_rows, render_block_math, sample,
    trim_pixels, MathArt, Pixel, Raster,
};
use gqy::render::symbols::symbol_for;
use gqy::render::table::{
    aligned_cell, bounded_table_widths, cell_formula, escape_table_cell, is_table_separator,
    looks_like_table_row, parse_table_alignments, parse_table_row, render_table, render_table_cell,
    render_todo_table, row_cells, table_cells, todo_lines, todos_in, visible_width, wrap_ansi_text,
    write_todo_table, TableAlign, TodoItem,
};
use ratex_layout::{layout, to_display_list, LayoutOptions};
use ratex_parser::parser::parse;
use ratex_render::{render_to_png, RenderOptions};
use ratex_types::color::Color;
use ratex_types::math_style::MathStyle;

const BOLD_STYLE: &str = "\x1b[1m";
const RESET: &str = "\x1b[0m";

/// The height of a line of a terminal, in pixels.
const CELL_HEIGHT: u16 = 20;

fn drawn(tex: &str, style: MathStyle, font_size: f32, padding: f32, ratio: f32) -> Option<Vec<u8>> {
    let normalized = tex.split_whitespace().collect::<Vec<_>>().join(" ");
    if normalized.is_empty() {
        return None;
    }
    let ast = parse(&normalized).ok()?;
    let color = Color { r: 0.843, g: 0.890, b: 1.0, a: 1.0 };
    let options = LayoutOptions::default().with_style(style).with_color(color);
    let render = RenderOptions {
        font_size,
        padding,
        background_color: Color { r: 0.0, g: 0.0, b: 0.0, a: 0.0 },
        font_dir: String::new(),
        device_pixel_ratio: ratio,
    };
    render_to_png(&to_display_list(&layout(&ast, &options)), &render).ok()
}

fn block_png(tex: &str) -> Option<Vec<u8>> {
    drawn(tex, MathStyle::Display, 28.0, 4.0, 2.0)
}

fn cell_png(tex: &str) -> Option<Vec<u8>> {
    drawn(tex, MathStyle::Text, 24.0, 1.0, 2.0)
}

fn block_math(tex: &str, rows: usize, cols: usize) -> Option<MathArt> {
    halfblock_art(&block_png(tex)?, rows, cols)
}

#[test]
fn a_formula_is_never_wider_than_there_is_room() {
    for cols in 0..12 {
        for rows in [0, 1, 3] {
            let art = block_math(r"\frac{a+b}{c}+d", rows, cols).expect("a picture");
            assert!(art.cols >= 1 && art.cols <= cols.max(1));
            assert!(!art.lines.is_empty() && art.lines.len() <= rows.max(1));
            let block = render_block_math(&block_png(r"\frac{a}{b}").unwrap(), cols, 4, 16);
            assert!(block.expect("a picture").cols <= cols.max(1));
        }
    }
}

#[test]
fn renders_block_formula_to_halfblock_lines() {
    let art = block_math(
        r"\operatorname{softmax}\left(\frac{QK^\top}{\sqrt{d_k}}\right)V",
        9,
        100,
    )
    .expect("ratex should render the attention formula");
    assert!(!art.lines.is_empty());
    assert!(art.cols > 10 && art.cols <= 100);
    assert!(art.lines[0].contains("\u{1b}["));
    assert!(art
        .lines
        .iter()
        .any(|line| line.contains('▀') || line.contains('▄')));
}

#[test]
fn block_math_rows_follow_content_and_respect_the_cap() {
    let natural = |tex: &str, cols: usize, rows: usize| {
        render_block_math(&block_png(tex).expect("renders"), cols, rows, CELL_HEIGHT)
    };
    let simple = natural(r"E=mc^2", 100, 8).expect("renders");
    let tall = natural(
        r"\int_{0}^{\infty} \frac{x^{2}}{\sqrt{1+x^{4}}}\,dx",
        100,
        8,
    )
    .expect("renders");
    println!(
        "  E=mc^2 → {} 行 / {} 列；积分 → {} 行 / {} 列",
        simple.lines.len(),
        simple.cols,
        tall.lines.len(),
        tall.cols
    );
    assert!(
        simple.lines.len() < 5,
        "E=mc^2 占了 {} 行",
        simple.lines.len()
    );
    assert!(tall.lines.len() >= simple.lines.len());
    assert!(tall.lines.len() <= 8);
    let capped = natural(
        r"\int_{0}^{\infty} \frac{x^{2}}{\sqrt{1+x^{4}}}\,dx",
        100,
        2,
    )
    .expect("renders");
    assert!(capped.lines.len() <= 2);
}

#[test]
fn font_warm_up_uses_a_cjk_formula() {
    let warm = drawn(r"\text{中}", MathStyle::Text, 12.0, 0.0, 1.0);
    assert!(
        warm.is_some(),
        "预热公式渲染失败,字体缓存填不上"
    );
    assert!(block_png(r"\text{中文}").is_some());
}

#[test]
fn unparseable_input_falls_back_to_none() {
    assert!(block_math(r"\undefinedmacro{", 8, 80).is_none());
    assert!(cell_png("").and_then(|png| halfblock_art(&png, 2, 40)).is_none());
    // Neither does something that is no picture become art.
    assert!(halfblock_art(&b"no picture".to_vec(), 2, 40).is_none());
    assert!(decode_and_trim(&Vec::new()).is_none());
}

#[test]
fn converts_common_inline_formulas() {
    assert_eq!(unicode_math(r"E=mc^2"), "E=mc²");
    assert_eq!(
        unicode_math(r"x_{n+1}=x_n-\frac{f(x_n)}{f'(x_n)}"),
        "xₙ₊₁=xₙ-(f(xₙ))/(f′(xₙ))"
    );
    assert_eq!(
        unicode_math(r"q=\frac{1+\sqrt5}{2}\approx 1.618"),
        "q=(1+√5)/2≈1.618"
    );
    assert_eq!(unicode_math(r"\alpha\in(0,1)"), "α∈(0,1)");
    assert_eq!(unicode_math(r"\sqrt{d_k}"), "√dₖ");
    assert_eq!(unicode_math(r"O(n\log n)"), "O(n log n)");
    assert_eq!(unicode_math(r"\operatorname{softmax}(z)_i"), "softmax(z)ᵢ");
    assert_eq!(unicode_math(r"a^{-1}b^{2n}"), "a⁻¹b²ⁿ");
    assert_eq!(unicode_math(r"\sum_{i=1}^{N} x_i"), "Σᵢ₌₁^N xᵢ");
    assert_eq!(unicode_math(r"90\%"), "90%");
}

#[test]
fn unknown_commands_stay_verbatim() {
    assert_eq!(unicode_math(r"\weirdcmd{x}"), "\\weirdcmdx");
    assert_eq!(unicode_math(r"AT^{\top}"), "ATᵀ");
}

#[test]
fn halfblock_output_contains_only_sgr_escapes() {
    let art = block_math(r"E=mc^2", 6, 60).expect("renders");
    for line in &art.lines {
        let bytes: Vec<char> = line.chars().collect();
        let mut index = 0;
        while index < bytes.len() {
            if bytes[index] == '\u{1b}' {
                assert_eq!(bytes.get(index + 1), Some(&'['), "non-CSI escape found");
                let mut probe = index + 2;
                while probe < bytes.len()
                    && (bytes[probe].is_ascii_digit() || bytes[probe] == ';')
                {
                    probe += 1;
                }
                assert_eq!(bytes.get(probe), Some(&'m'), "non-SGR CSI found: {line}");
                index = probe + 1;
            } else {
                index += 1;
            }
        }
    }
}

#[test]
fn deep_nesting_falls_back_to_raw_text() {
    let bomb = "{".repeat(100_000);
    assert_eq!(unicode_math(&bomb), bomb);
    assert_eq!(unicode_math_lines(&bomb), vec![bomb.clone()]);
    assert_eq!(unicode_math("{{{x}}}"), "x");
}

#[test]
fn frac_parenthesizes_compound_numerators() {
    assert_eq!(unicode_math(r"\frac{(a)+(b)}{c}"), "((a)+(b))/c");
    assert_eq!(unicode_math(r"\frac{(a+b)}{c}"), "(a+b)/c");
}

#[test]
fn frac_stacks_vertically_with_rule() {
    let lines = unicode_math_lines(r"\frac{\partial f}{\partial x} = 0");
    assert_eq!(lines.len(), 3, "{lines:?}");
    assert!(lines[0].contains("∂f"));
    assert!(lines[1].starts_with('─'));
    assert!(
        lines[1].contains("─── ="),
        "baseline row carries the rest: {lines:?}"
    );
    assert!(lines[2].contains("∂x"));
}

#[test]
fn nested_frac_and_plain_formula() {
    let lines = unicode_math_lines(r"x=\frac{-b\pm\sqrt{b^2-4ac}}{2a}");
    assert_eq!(lines.len(), 3, "{lines:?}");
    assert!(lines[0].contains("-b±√(b²-4ac)"), "{lines:?}");
    assert!(lines[2].contains("2a"));
    let single = unicode_math_lines(r"E=mc^2");
    assert_eq!(single, vec!["E=mc²".to_string()]);
}

#[test]
fn scripts_and_parentheses() {
    assert_eq!(to_script("2n", true), "²ⁿ");
    assert_eq!(to_script("N", true), "^N");
    assert_eq!(to_script("A+B", false), "_(A+B)");
    assert_eq!(to_script("  ", true), "");
    assert_eq!(parenthesize("a"), "a");
    assert_eq!(parenthesize("a+b"), "(a+b)");
    assert_eq!(parenthesize("(a+b)"), "(a+b)");
    assert_eq!(symbol_for("alpha"), Some("α"));
    assert_eq!(symbol_for("nosuchthing"), None);
    assert_eq!(unicode_math("\\"), "\\");
}

#[test]
fn lines_of_a_box_are_all_equally_wide() {
    let b = hcat(
        MathTextBox::text("中="),
        frac_box(MathTextBox::text("a"), MathTextBox::text("b+c+d")),
    );
    assert_eq!(b.lines.len(), 3);
    assert_eq!(b.baseline, 1);
    assert!(b.lines.iter().all(|l| text_display_width(l) == b.width));
    let right = hcat(MathTextBox::empty(), MathTextBox::text("x"));
    assert_eq!(right.lines, vec!["x"]);
    assert_eq!(pad_to_width("中", 4), "中  ");
    assert_eq!(pad_to_width("abc", 2), "abc");
    assert_eq!(center_to_width("a", 4), " a  ");
}

fn pixel(a: u8) -> Pixel {
    Pixel { r: 10, g: 20, b: 30, a }
}

#[test]
fn pictures_lose_their_empty_edges() {
    let mut pixels = vec![pixel(0); 12];
    pixels[5] = pixel(255);
    pixels[6] = pixel(255);
    let r = trim_pixels(&pixels, 4, 3).unwrap();
    assert_eq!((r.width, r.height), (2, 1));
    assert!(trim_pixels(&vec![pixel(23); 12], 4, 3).is_none());
    let png = block_png("x").unwrap();
    let shown = decode_and_trim(&png).unwrap();
    assert_eq!(shown.pixels.len(), shown.width * shown.height);
}

#[test]
fn two_pixels_make_one_character() {
    let top = Pixel { r: 1, g: 2, b: 3, a: 255 };
    let bottom = Pixel { r: 4, g: 5, b: 6, a: 255 };
    let none = pixel(0);
    assert_eq!(halfblock_cell(top, bottom), "\x1b[38;2;1;2;3m\x1b[48;2;4;5;6m▀");
    assert_eq!(halfblock_cell(top, none), "\x1b[49m\x1b[38;2;1;2;3m▀");
    assert_eq!(halfblock_cell(none, bottom), "\x1b[49m\x1b[38;2;4;5;6m▄");
    assert_eq!(halfblock_cell(none, none), "\x1b[49m ");
}

fn square() -> Raster {
    Raster {
        pixels: vec![
            Pixel { r: 0, g: 0, b: 0, a: 100 },
            Pixel { r: 100, g: 0, b: 0, a: 100 },
            Pixel { r: 0, g: 100, b: 0, a: 100 },
            Pixel { r: 100, g: 100, b: 0, a: 100 },
        ],
        width: 2,
        height: 2,
    }
}

#[test]
fn scaling_averages_down_and_repeats_up() {
    let r = square();
    assert_eq!(sample(&r, 0, 0, 1, 1), Pixel { r: 50, g: 50, b: 0, a: 100 });
    assert_eq!(sample(&r, 3, 0, 4, 4), r.pixels[1]);
    assert_eq!(natural_block_rows(60, 20, 8), 2);
    assert_eq!(natural_block_rows(6000, 20, 8), 8);
    assert_eq!(natural_block_rows(1, 0, 0), 1);
}

#[test]
fn a_picture_takes_a_grid_of_cells() {
    assert_eq!(kitty_grid(400, 80, 10, 20, 100), (20, 2));
    assert_eq!(kitty_grid(4000, 400, 10, 20, 100), (100, 4));
    assert_eq!(kitty_grid(1, 1, 0, 0, 0), (1, 1));
    let canvas = kitty_canvas(&square(), 2, 2, 3, 4);
    assert_eq!(canvas.pixels.len(), 12);
    assert_eq!(canvas.pixels[0].a, 0);
    assert_eq!(canvas.pixels[3], square().pixels[0]);
    assert_eq!(canvas.pixels[5].a, 0);
    assert!(kitty_graphics_supported(false, Some("xterm-ghostty"), false));
    assert!(!kitty_graphics_supported(false, Some("xterm"), false));
    assert!(kitty_graphics_supported(true, None, false));
}

#[test]
fn a_printed_picture_fills_its_rows() {
    assert_eq!(chafa_args(60, 4), vec!["-t", "0.9", "--size", "60x4", "-"]);
    let art = chafa_art(&b"one\x1bDtwo\n".to_vec(), 60, 4).unwrap();
    assert_eq!(art.lines, vec!["one", "two", "", ""]);
    assert_eq!(art.cols, 60);
    assert!(chafa_art(&Vec::new(), 60, 4).is_none());
    let broken = chafa_art(&vec![0xff, b'a'], 60, 1).unwrap();
    assert_eq!(broken.lines, vec!["\u{fffd}a"]);
    assert_eq!(chafa_lines("a\nb\nc", 5, 2).unwrap().lines.len(), 3);
}

fn plain_table(lines: &Vec<String>, cols: usize) -> String {
    render_table(lines, &table_cells(lines), cols)
}

fn strip_ansi(text: &str) -> String {
    let mut out = String::new();
    let mut escape = false;
    for c in text.chars() {
        if escape {
            escape = c != 'm';
        } else if c == '\x1b' {
            escape = true;
        } else {
            out.push(c);
        }
    }
    out
}

#[test]
fn short_tables_use_content_width() {
    let lines = vec![
        "| 项目 | 内容 |".to_string(),
        "|---|---|".to_string(),
        "| 名字 | 未有 / 顾清影 |".to_string(),
        "| 年龄 | 18 |".to_string(),
    ];
    let output = plain_table(&lines, 100);
    let terminal_width = 100;
    let widest = output.lines().map(visible_width).max().unwrap_or(0);
    assert!(widest < terminal_width / 2, "table too wide: {widest}");
}

#[test]
fn todo_output_uses_single_column_rendered_table() {
    let lines = vec![
        "| #Todo |".to_string(),
        "|---|".to_string(),
        "| [·] 修复 todo 表格渲染 |".to_string(),
        "| [ ] 补充单元测试 |".to_string(),
        "| [✔] 跑 cargo test |".to_string(),
    ];
    let output = render_todo_table(&lines, &table_cells(&lines), 100);
    let visible = strip_ansi(&output);
    assert!(output.contains('┌'));
    assert!(output.contains('├'));
    assert!(output.contains('└'));
    assert!(!output.contains('┬'));
    assert!(!output.contains('┼'));
    assert!(!output.contains('┴'));
    assert!(visible.contains("#Todo"));
    assert!(!output.contains(&format!("{BOLD_STYLE}#Todo{RESET}")));
    assert_eq!(visible.matches('│').count(), 8);
    assert!(visible.contains("[·]"));
    assert!(visible.contains("todo"));
    assert!(visible.contains("[ ]"));
    assert!(visible.contains("[✔]"));
    assert!(!visible.contains("优先级"));
    assert!(!visible.contains("序号"));
    let terminal_width = 100;
    for line in output.lines() {
        assert!(
            visible_width(line) < terminal_width,
            "line too wide: {line}"
        );
    }
}

#[test]
fn todo_status_symbols_contribute_to_table_width() {
    assert_eq!(visible_width("把冰箱门打开"), 12);
    assert_eq!(visible_width("[✔] 把冰箱门打开"), 16);
    assert_eq!(visible_width("[·] 把冰箱门打开"), 16);

    let lines = vec![
        "| #Todo |".to_string(),
        "|---|".to_string(),
        "| [✔] 把冰箱门打开 |".to_string(),
        "| [·] 把冰箱门关上 |".to_string(),
    ];
    let normal = plain_table(&lines, 100);
    let output = render_todo_table(&lines, &table_cells(&lines), 100);
    let visible = strip_ansi(&output);
    assert_eq!(
        visible_width(output.lines().next().unwrap()),
        visible_width(normal.lines().next().unwrap())
    );
    assert!(!output.contains(&format!("{BOLD_STYLE}#Todo{RESET}")));
    assert!(visible.contains("[✔]"));
    assert!(visible.contains("[·]"));
    assert_eq!(visible.lines().filter(|line| line.contains('│')).count(), 3);
}

#[test]
fn wraps_wide_table_cells_to_terminal_width() {
    let lines = vec![
        "| 项目 | 内容 |".to_string(),
        "|---|---|".to_string(),
        format!("| 很长 | {} |", "这是一段非常长的内容".repeat(20)),
    ];
    let output = plain_table(&lines, 100);
    let terminal_width = 100;
    for line in output.lines() {
        assert!(
            visible_width(line) < terminal_width,
            "line too wide: {line}"
        );
    }
    assert!(output.lines().count() > 5);
}

#[test]
fn many_column_tables_stay_within_terminal_width() {
    let lines = vec![
        "| 参数名 | 参数类型 | 默认值 | 是否必填 | 说明 | 取值范围 | 示例值 | 适用版本 | 更新日志 | 备注 |".to_string(),
        "|---|---|---|---|---|---|---|---|---|---|".to_string(),
        "| database_host | string | localhost | 否 | 数据库主机地址 | 合法IP或域名 | 192.168.1.100 | v1.0+ | 无 | 支持IPv6 |".to_string(),
    ];
    let output = plain_table(&lines, 100);
    let terminal_width = 100;
    for line in output.lines() {
        assert!(
            visible_width(line) < terminal_width,
            "line too wide: {line}"
        );
    }
}

#[test]
fn the_head_of_a_table_is_bold_and_sides_are_kept() {
    let lines = vec![
        "| left | mid | right |".to_string(),
        "| :--- | :---: | ---: |".to_string(),
        "| a | b | c |".to_string(),
    ];
    let output = plain_table(&lines, 100);
    assert!(output.contains('┌'));
    assert!(output.contains('│'));
    assert!(!output.contains('+'));
    assert!(!output.contains(":---"));
    assert!(output.contains(&format!("{BOLD_STYLE}left{RESET}")));
    assert_eq!(
        parse_table_alignments(&lines[1]),
        vec![TableAlign::Left, TableAlign::Center, TableAlign::Right]
    );
    assert_eq!(aligned_cell("a", 4, TableAlign::Left), "a   ");
    assert_eq!(aligned_cell("a", 4, TableAlign::Right), "   a");
    assert_eq!(aligned_cell("a", 4, TableAlign::Center), " a  ");
}

#[test]
fn lines_of_tables_are_told_apart() {
    assert!(looks_like_table_row("| a | b |"));
    assert!(!looks_like_table_row("echo hi | wc -l"));
    assert!(!looks_like_table_row("|"));
    assert!(is_table_separator("|---|:-:|"));
    assert!(!is_table_separator("| a |"));
    assert!(!is_table_separator("| |"));
    assert_eq!(row_cells(" | a |b| "), vec!["a", "b"]);
    let inline = vec!["A".to_string(), "shown".to_string()];
    assert_eq!(
        parse_table_row("| a | $x^2$ |", &inline, "S"),
        vec!["A".to_string(), format!("Sx²{RESET}")]
    );
    assert_eq!(cell_formula("$x^2$").as_deref(), Some("x^2"));
    assert_eq!(cell_formula("$a$ and $b$"), None);
    assert_eq!(cell_formula("\\(x\\)").as_deref(), Some("x"));
    assert_eq!(cell_formula("$$"), None);
    assert_eq!(render_table_cell("plain", "shown", "S"), "shown");
    assert_eq!(render_table_cell("$x^2$", "shown", "S"), format!("Sx²{RESET}"));
    assert_eq!(render_table_cell("$ $", "shown", "S"), "shown");
}

#[test]
fn wrapping_keeps_every_character() {
    let text = "\x1b[1m中文abc\x1b[0m def";
    let lines = wrap_ansi_text(text, 4);
    assert_eq!(lines.concat(), text);
    assert!(lines.iter().all(|l| visible_width(l) <= 4));
    assert_eq!(wrap_ansi_text("", 4), vec![""]);
    assert_eq!(wrap_ansi_text("中", 1), vec!["中"]);
}

#[test]
fn widths_shrink_from_the_widest() {
    let w = bounded_table_widths(vec![50, 5, 50], 60);
    assert_eq!(w, vec![22, 5, 22]);
    assert_eq!(bounded_table_widths(vec![5, 5], 100), vec![5, 5]);
    assert_eq!(bounded_table_widths(vec![3; 30], 20).iter().sum::<usize>(), 30);
}

#[test]
fn tasks_become_a_table() {
    let todos = vec![
        TodoItem {
            status: Some("in_progress".to_string()),
            content: Some("a|b\nc".to_string()),
        },
        TodoItem { status: None, content: None },
    ];
    let lines = todo_lines(&todos, "任务列表", "空", "S");
    assert_eq!(
        lines,
        vec![
            "| 任务列表 |".to_string(),
            "|---|".to_string(),
            format!("| [·] Sa\\|b c{RESET} |"),
            "| [ ]  |".to_string(),
        ]
    );
    assert_eq!(todo_lines(&Vec::new(), "T", "空", "S")[2], "| 空 |");
    assert_eq!(escape_table_cell(" a|b\nc "), "a\\|b c");
}

#[test]
fn tasks_are_read_from_the_output_of_a_tool() {
    let output = " {\"todos\": [{\"status\": \"completed\", \"content\": \"a\"}, {\"content\": 3}, 7]}\n";
    let todos = todos_in(output).unwrap();
    assert_eq!(todos.len(), 3);
    assert_eq!(todos[0].status.as_deref(), Some("completed"));
    assert_eq!(todos[0].content.as_deref(), Some("a"));
    assert!(todos[1].status.is_none() && todos[1].content.is_none());
    assert!(todos[2].status.is_none() && todos[2].content.is_none());
    let lines = write_todo_table(output, "T", "空", "S").unwrap();
    assert_eq!(lines, todo_lines(&todos, "T", "空", "S"));
    assert_eq!(write_todo_table("{\"todos\": []}", "T", "空", "S").unwrap()[2], "| 空 |");
    assert!(write_todo_table("{\"todos\": 1}", "T", "空", "S").is_none());
    assert!(write_todo_table("[]", "T", "空", "S").is_none());
    assert!(write_todo_table("no list", "T", "空", "S").is_none());
}

#[test]
fn the_block_that_was_used_longest_ago_goes_first() {
    let mut blocks = BlockRegistry::new();
    blocks.set_enabled(true);
    let half = MAX_LINES / 2;
    let first = blocks.register(vec!["x".to_string(); half]).unwrap();
    let second = blocks.register(vec!["y".to_string(); half]).unwrap();
    assert!(blocks.get(first).is_some());
    let third = blocks.register(vec!["z".to_string()]).unwrap();
    assert_eq!(blocks.get(second), None);
    assert!(blocks.get(first).is_some());
    assert!(blocks.get(third).is_some());
}

/// The characters of a line that are shown.
fn shown(line: &str) -> usize {
    let mut escaped = false;
    let mut n = 0;
    for c in line.chars() {
        if c == '\x1b' {
            escaped = true;
        } else if escaped {
            escaped = c != 'm';
        } else {
            n += 1;
        }
    }
    n
}

#[test]
fn every_line_of_half_blocks_is_as_wide_as_the_picture() {
    let art = block_math("\\frac{a+b}{c}", 4, 40).unwrap();
    assert!(!art.lines.is_empty());
    assert!(art.lines.iter().all(|line| shown(line) == art.cols));
}

#[test]
fn blocks_are_registered_and_read_back() {
    let mut blocks = BlockRegistry::new();
    assert_eq!(blocks.register(vec!["x".to_string()]), None);
    blocks.set_enabled(true);
    let id = blocks.register(vec!["x".to_string()]).unwrap();
    assert_eq!(blocks.get(id), Some(vec!["x".to_string()]));
    assert!(!blocks.is_overlay(id));
    let over = blocks.register_overlay("题".to_string(), vec!["y".to_string()]).unwrap();
    assert!(blocks.is_overlay(over));
    assert_eq!(blocks.title(over).as_deref(), Some("题"));
    let before = blocks.version(over);
    blocks.update(over, "新".to_string(), vec!["z".to_string()]);
    assert!(blocks.version(over) > before);
    assert_eq!(blocks.title(over).as_deref(), Some("新"));
    assert_eq!(blocks.get(999), None);
}

#[test]
fn markers_read_back() {
    let mark = begin_marker(7);
    let payload = mark
        .trim_start_matches("\x1b]1337;")
        .trim_end_matches("\x1b\\")
        .trim_end_matches('\x07');
    assert!(matches!(parse_marker(payload), Some(BlockMarker::Begin(7))));
    assert!(parse_marker("nonsense").is_none());
    let mut blocks = BlockRegistry::new();
    assert_eq!(blocks.write_expandable(vec!["x".to_string()], "sum"), "sum");
    blocks.set_enabled(true);
    let out = blocks.write_expandable(vec!["x".to_string()], "sum");
    assert!(out.contains("sum"));
    assert!(out.ends_with(END_MARKER));
}

#[test]
fn the_oldest_blocks_go_when_there_are_too_many_lines() {
    let mut blocks = BlockRegistry::new();
    blocks.set_enabled(true);
    let first = blocks.register(vec!["x".to_string(); MAX_LINES]).unwrap();
    let second = blocks.register(vec!["y".to_string(); 10]).unwrap();
    assert_eq!(blocks.get(first), None);
    assert_eq!(blocks.get(second).unwrap().len(), 10);
    assert!(expandable_text_lines(true, "  ").is_empty());
    assert_eq!(expandable_text_lines(true, "a\nb"), vec!["a", "b"]);
    assert_eq!(
        expand_under(true, "sum", vec!["a".to_string()]),
        vec!["sum", "a", ""]
    );
    assert!(expand_under(false, "sum", vec!["a".to_string()]).is_empty());
}

#[test]
fn every_line_of_a_table_is_equally_wide() {
    let lines = vec![
        "| 项目 | long words in a cell | x |".to_string(),
        "|---|:-:|--:|".to_string(),
        "| 名字 | 未有 / 顾清影 | 1 |".to_string(),
        format!("| a | {} | 2 |", "很长的内容".repeat(30)),
    ];
    let output = plain_table(&lines, 60);
    let widths: Vec<usize> = output.lines().map(visible_width).collect();
    assert!(widths.iter().all(|w| *w == widths[0]), "{widths:?}");
    assert!(widths[0] < 60);
}

#[test]
fn formulas_without_fractions_take_one_line() {
    for tex in [r"x^{2}+\alpha", r"a {b} c", r"\sqrt{\frac{1}{2}}"] {
        let lines = unicode_math_lines(tex);
        assert_eq!(lines.len(), 1, "{lines:?}");
        let ink = |s: &str| s.split_whitespace().collect::<String>();
        assert_eq!(ink(&lines[0]), ink(&unicode_math(tex)));
    }
    assert_eq!(unicode_math_lines(r"x^{2}+\alpha"), vec![unicode_math(r"x^{2}+\alpha")]);
}
