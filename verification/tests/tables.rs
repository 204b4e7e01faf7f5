use papergrid::grid::{Border, BorderChar, BorderText, Grid, Offset};
use papergrid::matrix::{Matrix, Span};
use papergrid::settings::{Alignment, AlignmentStrategy, Padding};
use papergrid::style::{HorizontalLine, Line, Style, VerticalLine};

fn lines(rows: &[&str]) -> String {
    rows.join("\n")
}

fn cell_text(row: usize, col: usize) -> String {
    if row == 0 && col == 0 {
        "N".to_string()
    } else if row == 0 {
        format!("column {}", col - 1)
    } else if col == 0 {
        (row - 1).to_string()
    } else {
        format!("{}-{}", row - 1, col - 1)
    }
}

fn create_matrix(rows: usize, cols: usize) -> Matrix {
    let mut data: Vec<Vec<String>> = Vec::new();
    for r in 0..rows + 1 {
        let mut row = Vec::new();
        for c in 0..cols + 1 {
            row.push(cell_text(r, c));
        }
        data.push(row);
    }
    Matrix::from_rows(&data)
}

fn create_grid(rows: usize, cols: usize) -> Grid {
    let mut grid = Grid::new(create_matrix(rows, cols), Style::ascii());
    grid.set_alignment(Alignment::center());
    grid.set_alignment_strategy(AlignmentStrategy::PerCell);
    grid
}

fn cells(rows: std::ops::Range<usize>, cols: std::ops::Range<usize>) -> Vec<(usize, usize)> {
    let mut all = Vec::new();
    for r in rows {
        for c in cols.clone() {
            all.push((r, c));
        }
    }
    all
}

#[test]
fn default_style() {
    let mut grid = create_grid(3, 3);
    grid.set_style(Style::ascii());
    assert_eq!(
        grid.render().unwrap(),
        lines(&[
            "+---+----------+----------+----------+",
            "| N | column 0 | column 1 | column 2 |",
            "+---+----------+----------+----------+",
            "| 0 |   0-0    |   0-1    |   0-2    |",
            "+---+----------+----------+----------+",
            "| 1 |   1-0    |   1-1    |   1-2    |",
            "+---+----------+----------+----------+",
            "| 2 |   2-0    |   2-1    |   2-2    |",
            "+---+----------+----------+----------+",
        ])
    );
}

#[test]
fn psql_style() {
    let mut grid = create_grid(3, 3);
    grid.set_style(Style::psql());
    assert_eq!(
        grid.render().unwrap(),
        lines(&[
            " N | column 0 | column 1 | column 2 ",
            "---+----------+----------+----------",
            " 0 |   0-0    |   0-1    |   0-2    ",
            " 1 |   1-0    |   1-1    |   1-2    ",
            " 2 |   2-0    |   2-1    |   2-2    ",
        ])
    );
}

#[test]
fn markdown_style() {
    let mut grid = create_grid(3, 3);
    grid.set_style(Style::markdown());
    assert_eq!(
        grid.render().unwrap(),
        lines(&[
            "| N | column 0 | column 1 | column 2 |",
            "|---|----------|----------|----------|",
            "| 0 |   0-0    |   0-1    |   0-2    |",
            "| 1 |   1-0    |   1-1    |   1-2    |",
            "| 2 |   2-0    |   2-1    |   2-2    |",
        ])
    );
}

#[test]
fn modern_style() {
    let mut grid = create_grid(3, 3);
    grid.set_style(Style::modern());
    assert_eq!(
        grid.render().unwrap(),
        lines(&[
            "┌───┬──────────┬──────────┬──────────┐",
            "│ N │ column 0 │ column 1 │ column 2 │",
            "├───┼──────────┼──────────┼──────────┤",
            "│ 0 │   0-0    │   0-1    │   0-2    │",
            "├───┼──────────┼──────────┼──────────┤",
            "│ 1 │   1-0    │   1-1    │   1-2    │",
            "├───┼──────────┼──────────┼──────────┤",
            "│ 2 │   2-0    │   2-1    │   2-2    │",
            "└───┴──────────┴──────────┴──────────┘",
        ])
    );
}

#[test]
fn rounded_style() {
    let mut grid = create_grid(3, 3);
    grid.set_style(Style::rounded());
    assert_eq!(
        grid.render().unwrap(),
        lines(&[
            "╭───┬──────────┬──────────┬──────────╮",
            "│ N │ column 0 │ column 1 │ column 2 │",
            "├───┼──────────┼──────────┼──────────┤",
            "│ 0 │   0-0    │   0-1    │   0-2    │",
            "│ 1 │   1-0    │   1-1    │   1-2    │",
            "│ 2 │   2-0    │   2-1    │   2-2    │",
            "╰───┴──────────┴──────────┴──────────╯",
        ])
    );
}

#[test]
fn modern_clean_style() {
    let mut grid = create_grid(3, 3);
    grid.set_style(Style::modern().off_horizontal().horizontals(vec![HorizontalLine::new(1, Style::modern().get_horizontal())]));
    assert_eq!(
        grid.render().unwrap(),
        lines(&[
            "┌───┬──────────┬──────────┬──────────┐",
            "│ N │ column 0 │ column 1 │ column 2 │",
            "├───┼──────────┼──────────┼──────────┤",
            "│ 0 │   0-0    │   0-1    │   0-2    │",
            "│ 1 │   1-0    │   1-1    │   1-2    │",
            "│ 2 │   2-0    │   2-1    │   2-2    │",
            "└───┴──────────┴──────────┴──────────┘",
        ])
    );
}

#[test]
fn blank_style() {
    let mut grid = create_grid(3, 3);
    grid.set_style(Style::blank());
    assert_eq!(
        grid.render().unwrap(),
        lines(&[
            " N   column 0   column 1   column 2 ",
            " 0     0-0        0-1        0-2    ",
            " 1     1-0        1-1        1-2    ",
            " 2     2-0        2-1        2-2    ",
        ])
    );
}

#[test]
fn extended_style() {
    let mut grid = create_grid(3, 3);
    grid.set_style(Style::extended());
    assert_eq!(
        grid.render().unwrap(),
        lines(&[
            "╔═══╦══════════╦══════════╦══════════╗",
            "║ N ║ column 0 ║ column 1 ║ column 2 ║",
            "╠═══╬══════════╬══════════╬══════════╣",
            "║ 0 ║   0-0    ║   0-1    ║   0-2    ║",
            "╠═══╬══════════╬══════════╬══════════╣",
            "║ 1 ║   1-0    ║   1-1    ║   1-2    ║",
            "╠═══╬══════════╬══════════╬══════════╣",
            "║ 2 ║   2-0    ║   2-1    ║   2-2    ║",
            "╚═══╩══════════╩══════════╩══════════╝",
        ])
    );
}

#[test]
fn ascii_dots_style() {
    let mut grid = create_grid(3, 3);
    grid.set_style(Style::dots());
    assert_eq!(
        grid.render().unwrap(),
        lines(&[
            "......................................",
            ": N : column 0 : column 1 : column 2 :",
            ":...:..........:..........:..........:",
            ": 0 :   0-0    :   0-1    :   0-2    :",
            ":...:..........:..........:..........:",
            ": 1 :   1-0    :   1-1    :   1-2    :",
            ":...:..........:..........:..........:",
            ": 2 :   2-0    :   2-1    :   2-2    :",
            ":...:..........:..........:..........:",
        ])
    );
}

#[test]
fn re_structured_text_style() {
    let mut grid = create_grid(3, 3);
    grid.set_style(Style::re_structured_text());
    assert_eq!(
        grid.render().unwrap(),
        lines(&[
            "=== ========== ========== ==========",
            " N   column 0   column 1   column 2 ",
            "=== ========== ========== ==========",
            " 0     0-0        0-1        0-2    ",
            " 1     1-0        1-1        1-2    ",
            " 2     2-0        2-1        2-2    ",
            "=== ========== ========== ==========",
        ])
    );
}

#[test]
fn ascii_rounded_style() {
    let mut grid = create_grid(3, 3);
    grid.set_style(Style::ascii_rounded());
    assert_eq!(
        grid.render().unwrap(),
        lines(&[
            ".------------------------------------.",
            "| N | column 0 | column 1 | column 2 |",
            "| 0 |   0-0    |   0-1    |   0-2    |",
            "| 1 |   1-0    |   1-1    |   1-2    |",
            "| 2 |   2-0    |   2-1    |   2-2    |",
            "'------------------------------------'",
        ])
    );
}

#[test]
fn style_head_changes() {
    let mut grid = create_grid(3, 3);
    grid.set_style(Style::modern().off_horizontal());
    assert_eq!(
        grid.render().unwrap(),
        lines(&[
            "┌───┬──────────┬──────────┬──────────┐",
            "│ N │ column 0 │ column 1 │ column 2 │",
            "│ 0 │   0-0    │   0-1    │   0-2    │",
            "│ 1 │   1-0    │   1-1    │   1-2    │",
            "│ 2 │   2-0    │   2-1    │   2-2    │",
            "└───┴──────────┴──────────┴──────────┘",
        ])
    );
}

#[test]
fn style_frame_changes() {
    let mut grid = create_grid(3, 3);
    grid.set_style(Style::modern().off_top().off_bottom().off_horizontal());
    assert_eq!(
        grid.render().unwrap(),
        lines(&[
            "│ N │ column 0 │ column 1 │ column 2 │",
            "│ 0 │   0-0    │   0-1    │   0-2    │",
            "│ 1 │   1-0    │   1-1    │   1-2    │",
            "│ 2 │   2-0    │   2-1    │   2-2    │",
        ])
    );
}

#[test]
fn custom_style() {
    let mut grid = create_grid(3, 3);
    grid.set_style(Style::blank().bottom('*').bottom_intersection('\'').vertical('\'').horizontal('`').inner_intersection('\'').horizontals(vec![HorizontalLine::new(1, Line::full('x', '*', 'q', 'w'))]));
    assert_eq!(
        grid.render().unwrap(),
        lines(&[
            "  N ' column 0 ' column 1 ' column 2  ",
            "qxxx*xxxxxxxxxx*xxxxxxxxxx*xxxxxxxxxxw",
            "  0 '   0-0    '   0-1    '   0-2     ",
            " ```'``````````'``````````'`````````` ",
            "  1 '   1-0    '   1-1    '   1-2     ",
            " ```'``````````'``````````'`````````` ",
            "  2 '   2-0    '   2-1    '   2-2     ",
            " ***'**********'**********'********** ",
        ])
    );
}

#[test]
fn style_single_cell_0() {
    let mut grid = create_grid(0, 0);
    assert_eq!(
        grid.render().unwrap(),
        lines(&[
            "+---+",
            "| N |",
            "+---+",
        ])
    );
}

#[test]
fn style_single_cell_1() {
    let mut grid = create_grid(0, 0);
    grid.set_style(Style::blank());
    assert_eq!(
        grid.render().unwrap(),
        lines(&[
            " N ",
        ])
    );
}

#[test]
fn top_border_override_first_test() {
    let mut grid = create_grid(2, 2);
    grid.set_border_text(BorderText::first("-Table"));
    assert_eq!(
        grid.render().unwrap(),
        lines(&[
            "-Table---------+----------+",
            "| N | column 0 | column 1 |",
            "+---+----------+----------+",
            "| 0 |   0-0    |   0-1    |",
            "+---+----------+----------+",
            "| 1 |   1-0    |   1-1    |",
            "+---+----------+----------+",
        ])
    );
}

#[test]
fn top_border_override_last_test() {
    let mut grid = create_grid(2, 2);
    grid.set_border_text(BorderText::new(3, "-Table"));
    assert_eq!(
        grid.render().unwrap(),
        lines(&[
            "+---+----------+----------+",
            "| N | column 0 | column 1 |",
            "+---+----------+----------+",
            "| 0 |   0-0    |   0-1    |",
            "+---+----------+----------+",
            "| 1 |   1-0    |   1-1    |",
            "-Table---------+----------+",
        ])
    );
}

#[test]
fn top_border_override_new_test() {
    let mut grid = create_grid(2, 2);
    grid.set_border_text(BorderText::new(1, "-Table"));
    grid.set_border_text(BorderText::new(2, "-Table"));
    assert_eq!(
        grid.render().unwrap(),
        lines(&[
            "+---+----------+----------+",
            "| N | column 0 | column 1 |",
            "-Table---------+----------+",
            "| 0 |   0-0    |   0-1    |",
            "-Table---------+----------+",
            "| 1 |   1-0    |   1-1    |",
            "+---+----------+----------+",
        ])
    );
}

#[test]
fn top_border_override_new_doesnt_panic_when_index_is_invalid() {
    let mut grid = create_grid(2, 2);
    grid.set_border_text(BorderText::new(100, "-Table"));
    assert_eq!(
        grid.render().unwrap(),
        lines(&[
            "+---+----------+----------+",
            "| N | column 0 | column 1 |",
            "+---+----------+----------+",
            "| 0 |   0-0    |   0-1    |",
            "+---+----------+----------+",
            "| 1 |   1-0    |   1-1    |",
            "+---+----------+----------+",
        ])
    );
}

#[test]
fn top_override_doesnt_work_with_style_with_no_top_border_test() {
    let mut grid = create_grid(2, 2);
    grid.set_style(Style::psql());
    grid.set_border_text(BorderText::first("-Table"));
    assert_eq!(
        grid.render().unwrap(),
        lines(&[
            " N | column 0 | column 1 ",
            "---+----------+----------",
            " 0 |   0-0    |   0-1    ",
            " 1 |   1-0    |   1-1    ",
        ])
    );
}

#[test]
fn top_border_override_with_big_string_test() {
    let mut grid = create_grid(2, 2);
    grid.set_border_text(BorderText::first("-Tableeeeeeeeeeeeeeeeeeeeeeeeeeeeeeeeeeeeeeeeeeeeeee1231"));
    assert_eq!(
        grid.render().unwrap(),
        lines(&[
            "-Tableeeeeeeeeeeeeeeeeeeeee",
            "| N | column 0 | column 1 |",
            "+---+----------+----------+",
            "| 0 |   0-0    |   0-1    |",
            "+---+----------+----------+",
            "| 1 |   1-0    |   1-1    |",
            "+---+----------+----------+",
        ])
    );
}

#[test]
fn border_text_0() {
    let mut grid = create_grid(2, 2);
    grid.set_style(Style::empty());
    for (r, c) in cells(0..1, 0..3) {
        grid.set_border(r, c, Border::default().bottom('-'));
    }
    grid.set_border_text(BorderText::new(1, "-Table"));
    assert_eq!(
        grid.render().unwrap(),
        lines(&[
            " N  column 0  column 1 ",
            "-Table-----------------",
            " 0    0-0       0-1    ",
            " 1    1-0       1-1    ",
        ])
    );
}

#[test]
fn border_text_offset_test_0() {
    let mut grid = create_grid(2, 2);
    grid.set_border_text(BorderText::new(1, "-Table").offset(Offset::Begin(5)));
    assert_eq!(
        grid.render().unwrap(),
        lines(&[
            "+---+----------+----------+",
            "| N | column 0 | column 1 |",
            "+---+-Table----+----------+",
            "| 0 |   0-0    |   0-1    |",
            "+---+----------+----------+",
            "| 1 |   1-0    |   1-1    |",
            "+---+----------+----------+",
        ])
    );
}

#[test]
fn border_text_offset_test_1() {
    let mut grid = create_grid(2, 2);
    grid.set_border_text(BorderText::new(1, "-Table").offset(Offset::Begin(15)));
    assert_eq!(
        grid.render().unwrap(),
        lines(&[
            "+---+----------+----------+",
            "| N | column 0 | column 1 |",
            "+---+-----------Table-----+",
            "| 0 |   0-0    |   0-1    |",
            "+---+----------+----------+",
            "| 1 |   1-0    |   1-1    |",
            "+---+----------+----------+",
        ])
    );
}

#[test]
fn border_text_offset_test_2() {
    let mut grid = create_grid(2, 2);
    grid.set_border_text(BorderText::new(1, "Table").offset(Offset::End(5)));
    assert_eq!(
        grid.render().unwrap(),
        lines(&[
            "+---+----------+----------+",
            "| N | column 0 | column 1 |",
            "+---+----------+------Table",
            "| 0 |   0-0    |   0-1    |",
            "+---+----------+----------+",
            "| 1 |   1-0    |   1-1    |",
            "+---+----------+----------+",
        ])
    );
}

#[test]
fn border_text_offset_test_3() {
    let mut grid = create_grid(2, 2);
    grid.set_border_text(BorderText::new(1, "Table").offset(Offset::End(15)));
    assert_eq!(
        grid.render().unwrap(),
        lines(&[
            "+---+----------+----------+",
            "| N | column 0 | column 1 |",
            "+---+-------Table---------+",
            "| 0 |   0-0    |   0-1    |",
            "+---+----------+----------+",
            "| 1 |   1-0    |   1-1    |",
            "+---+----------+----------+",
        ])
    );
}

#[test]
fn border_text_offset_test_4() {
    let mut grid = create_grid(2, 2);
    grid.set_border_text(BorderText::new(1, "Table").offset(Offset::End(21)));
    assert_eq!(
        grid.render().unwrap(),
        lines(&[
            "+---+----------+----------+",
            "| N | column 0 | column 1 |",
            "+---+-Table----+----------+",
            "| 0 |   0-0    |   0-1    |",
            "+---+----------+----------+",
            "| 1 |   1-0    |   1-1    |",
            "+---+----------+----------+",
        ])
    );
}

#[test]
fn border_text_offset_test_5() {
    let mut grid = create_grid(2, 2);
    grid.set_border_text(BorderText::new(1, "Table").offset(Offset::End(25)));
    assert_eq!(
        grid.render().unwrap(),
        lines(&[
            "+---+----------+----------+",
            "| N | column 0 | column 1 |",
            "+-Table--------+----------+",
            "| 0 |   0-0    |   0-1    |",
            "+---+----------+----------+",
            "| 1 |   1-0    |   1-1    |",
            "+---+----------+----------+",
        ])
    );
}

#[test]
fn border_text_offset_test_6() {
    let mut grid = create_grid(2, 2);
    grid.set_border_text(BorderText::new(1, "-Table").offset(Offset::Begin(21)));
    assert_eq!(
        grid.render().unwrap(),
        lines(&[
            "+---+----------+----------+",
            "| N | column 0 | column 1 |",
            "+---+----------+------Table",
            "| 0 |   0-0    |   0-1    |",
            "+---+----------+----------+",
            "| 1 |   1-0    |   1-1    |",
            "+---+----------+----------+",
        ])
    );
}

#[test]
fn empty_style() {
    let mut grid = create_grid(3, 3);
    grid.set_style(Style::empty());
    for (r, c) in cells(0..4, 0..4) {
        grid.set_padding(Padding::zero());
    }
    assert_eq!(
        grid.render().unwrap(),
        lines(&[
            "Ncolumn 0column 1column 2",
            "0  0-0     0-1     0-2   ",
            "1  1-0     1-1     1-2   ",
            "2  2-0     2-1     2-2   ",
        ])
    );
}

#[test]
fn single_column_style_0() {
    let mut grid = create_grid(2, 0);
    grid.set_style(Style::modern());
    assert_eq!(
        grid.render().unwrap(),
        lines(&[
            "┌───┐",
            "│ N │",
            "├───┤",
            "│ 0 │",
            "├───┤",
            "│ 1 │",
            "└───┘",
        ])
    );
}

#[test]
fn single_column_style_1() {
    let mut grid = create_grid(2, 0);
    grid.set_style(Style::blank());
    assert_eq!(
        grid.render().unwrap(),
        lines(&[
            " N ",
            " 0 ",
            " 1 ",
        ])
    );
}

#[test]
fn single_column_last_row_style() {
    let mut grid = create_grid(3, 0);
    grid.set_style(Style::re_structured_text());
    assert_eq!(
        grid.render().unwrap(),
        lines(&[
            "===",
            " N ",
            "===",
            " 0 ",
            " 1 ",
            " 2 ",
            "===",
        ])
    );
}

#[test]
fn border_test_0() {
    let mut grid = create_grid(2, 2);
    for (r, c) in cells(1..2, 0..3) {
        grid.set_border(r, c, Border::filled('*').top('#'));
    }
    assert_eq!(
        grid.render().unwrap(),
        lines(&[
            "+---+----------+----------+",
            "| N | column 0 | column 1 |",
            "*###*##########*##########*",
            "* 0 *   0-0    *   0-1    *",
            "***************************",
            "| 1 |   1-0    |   1-1    |",
            "+---+----------+----------+",
        ])
    );
}

#[test]
fn border_test_1() {
    let mut grid = create_grid(2, 2);
    grid.set_style(Style::empty());
    for (r, c) in cells(1..2, 0..3) {
        grid.set_border(r, c, Border::filled('*').top('#'));
    }
    assert_eq!(
        grid.render().unwrap(),
        lines(&[
            "  N   column 0   column 1  ",
            "*###*##########*##########*",
            "* 0 *   0-0    *   0-1    *",
            "***************************",
            "  1     1-0        1-1     ",
        ])
    );
}

#[test]
fn single_column_off_horizontal_test() {
    let mut grid = create_grid(3, 0);
    grid.set_style(Style::ascii().off_horizontal().off_vertical());
    assert_eq!(
        grid.render().unwrap(),
        lines(&[
            "+---+",
            "| N |",
            "| 0 |",
            "| 1 |",
            "| 2 |",
            "+---+",
        ])
    );
}

#[test]
fn single_row_test() {
    let mut grid = create_grid(0, 3);
    grid.set_style(Style::modern());
    assert_eq!(
        grid.render().unwrap(),
        lines(&[
            "┌───┬──────────┬──────────┬──────────┐",
            "│ N │ column 0 │ column 1 │ column 2 │",
            "└───┴──────────┴──────────┴──────────┘",
        ])
    );
}

#[test]
fn empty_border_text_doesnt_panic_test() {
    let mut grid = create_grid(2, 2);
    grid.set_border_text(BorderText::first(""));
    assert_eq!(
        grid.render().unwrap(),
        lines(&[
            "+---+----------+----------+",
            "| N | column 0 | column 1 |",
            "+---+----------+----------+",
            "| 0 |   0-0    |   0-1    |",
            "+---+----------+----------+",
            "| 1 |   1-0    |   1-1    |",
            "+---+----------+----------+",
        ])
    );
}

#[test]
fn span_correct_test_0() {
    let mut grid = create_grid(6, 4);
    for (r, c) in cells(0..1, 3..4) {
        grid.matrix.set_span(Span { row: r, col: c, rows: 1, cols: 2 });
    }
    for (r, c) in cells(1..2, 0..1) {
        grid.matrix.set_span(Span { row: r, col: c, rows: 1, cols: 3 });
    }
    for (r, c) in cells(2..3, 0..1) {
        grid.matrix.set_span(Span { row: r, col: c, rows: 1, cols: 2 });
    }
    for (r, c) in cells(2..3, 3..4) {
        grid.matrix.set_span(Span { row: r, col: c, rows: 1, cols: 2 });
    }
    for (r, c) in cells(3..4, 0..1) {
        grid.matrix.set_span(Span { row: r, col: c, rows: 1, cols: 5 });
    }
    for (r, c) in cells(4..5, 1..2) {
        grid.matrix.set_span(Span { row: r, col: c, rows: 1, cols: 4 });
    }
    for (r, c) in cells(5..6, 0..1) {
        grid.matrix.set_span(Span { row: r, col: c, rows: 1, cols: 5 });
    }
    for (r, c) in cells(6..7, 0..1) {
        grid.matrix.set_span(Span { row: r, col: c, rows: 1, cols: 5 });
    }
    grid.set_correct_spans(true);
    assert_eq!(
        grid.render().unwrap(),
        lines(&[
            "+---+----------+----------+-----------+",
            "| N | column 0 | column 1 | column 2  |",
            "+---+----------+----------+-----+-----+",
            "|            0            | 0-2 | 0-3 |",
            "+--------------+----------+-----+-----+",
            "|      1       |   1-1    |    1-2    |",
            "+--------------+----------+-----------+",
            "|                  2                  |",
            "+---+---------------------------------+",
            "| 3 |               3-0               |",
            "+---+---------------------------------+",
            "|                  4                  |",
            "+-------------------------------------+",
            "|                  5                  |",
            "+-------------------------------------+",
        ])
    );
}

#[test]
fn span_correct_test_1() {
    let mut grid = create_grid(6, 4);
    for (r, c) in cells(0..1, 0..1) {
        grid.matrix.set_span(Span { row: r, col: c, rows: 1, cols: 5 });
    }
    for (r, c) in cells(1..2, 0..1) {
        grid.matrix.set_span(Span { row: r, col: c, rows: 1, cols: 3 });
    }
    for (r, c) in cells(2..3, 0..1) {
        grid.matrix.set_span(Span { row: r, col: c, rows: 1, cols: 2 });
    }
    for (r, c) in cells(2..3, 3..4) {
        grid.matrix.set_span(Span { row: r, col: c, rows: 1, cols: 2 });
    }
    for (r, c) in cells(3..4, 0..1) {
        grid.matrix.set_span(Span { row: r, col: c, rows: 1, cols: 5 });
    }
    for (r, c) in cells(4..5, 1..2) {
        grid.matrix.set_span(Span { row: r, col: c, rows: 1, cols: 4 });
    }
    for (r, c) in cells(5..6, 0..1) {
        grid.matrix.set_span(Span { row: r, col: c, rows: 1, cols: 5 });
    }
    for (r, c) in cells(6..7, 0..1) {
        grid.matrix.set_span(Span { row: r, col: c, rows: 1, cols: 5 });
    }
    grid.set_correct_spans(true);
    assert_eq!(
        grid.render().unwrap(),
        lines(&[
            "+----------------------+",
            "|          N           |",
            "+----------+-----+-----+",
            "|    0     | 0-2 | 0-3 |",
            "+----+-----+-----+-----+",
            "| 1  | 1-1 |    1-2    |",
            "+----+-----+-----------+",
            "|          2           |",
            "+---+------------------+",
            "| 3 |       3-0        |",
            "+---+------------------+",
            "|          4           |",
            "+----------------------+",
            "|          5           |",
            "+----------------------+",
        ])
    );
}

#[test]
fn empty_line_clears_lines() {
    let mut grid = create_grid(3, 3);
    grid.set_style(Style::rounded().horizontals(vec![HorizontalLine::new(1, Line::empty())]));
    assert_eq!(
        grid.render().unwrap(),
        lines(&[
            "╭───┬──────────┬──────────┬──────────╮",
            "│ N │ column 0 │ column 1 │ column 2 │",
            "                                      ",
            "│ 0 │   0-0    │   0-1    │   0-2    │",
            "│ 1 │   1-0    │   1-1    │   1-2    │",
            "│ 2 │   2-0    │   2-1    │   2-2    │",
            "╰───┴──────────┴──────────┴──────────╯",
        ])
    );
}

#[test]
fn verticals_0() {
    let mut grid = create_grid(3, 3);
    grid.set_style(Style::rounded().verticals(vec![VerticalLine::new(0, Line::filled('+')), VerticalLine::new(4, Line::filled('+'))]));
    assert_eq!(
        grid.render().unwrap(),
        lines(&[
            "+───┬──────────┬──────────┬──────────+",
            "+ N │ column 0 │ column 1 │ column 2 +",
            "├───┼──────────┼──────────┼──────────┤",
            "+ 0 │   0-0    │   0-1    │   0-2    +",
            "+ 1 │   1-0    │   1-1    │   1-2    +",
            "+ 2 │   2-0    │   2-1    │   2-2    +",
            "+───┴──────────┴──────────┴──────────+",
        ])
    );
}

#[test]
fn verticals_1() {
    let mut grid = create_grid(3, 3);
    grid.set_style(Style::rounded().verticals((1..4).map(|i| VerticalLine::new(i, Line::filled('+'))).collect()));
    assert_eq!(
        grid.render().unwrap(),
        lines(&[
            "╭───+──────────+──────────+──────────╮",
            "│ N + column 0 + column 1 + column 2 │",
            "├───┼──────────┼──────────┼──────────┤",
            "│ 0 +   0-0    +   0-1    +   0-2    │",
            "│ 1 +   1-0    +   1-1    +   1-2    │",
            "│ 2 +   2-0    +   2-1    +   2-2    │",
            "╰───+──────────+──────────+──────────╯",
        ])
    );
}

#[test]
fn verticals_2() {
    let mut grid = create_grid(3, 3);
    grid.set_style(Style::rounded().verticals(vec![VerticalLine::new(1, Line::filled('+'))]));
    assert_eq!(
        grid.render().unwrap(),
        lines(&[
            "╭───+──────────┬──────────┬──────────╮",
            "│ N + column 0 │ column 1 │ column 2 │",
            "├───┼──────────┼──────────┼──────────┤",
            "│ 0 +   0-0    │   0-1    │   0-2    │",
            "│ 1 +   1-0    │   1-1    │   1-2    │",
            "│ 2 +   2-0    │   2-1    │   2-2    │",
            "╰───+──────────┴──────────┴──────────╯",
        ])
    );
}

#[test]
fn verticals_3() {
    let mut grid = create_grid(3, 3);
    grid.set_style(Style::ascii().verticals(vec![VerticalLine::new(1, Line::filled('*'))]));
    assert_eq!(
        grid.render().unwrap(),
        lines(&[
            "+---*----------+----------+----------+",
            "| N * column 0 | column 1 | column 2 |",
            "+---*----------+----------+----------+",
            "| 0 *   0-0    |   0-1    |   0-2    |",
            "+---*----------+----------+----------+",
            "| 1 *   1-0    |   1-1    |   1-2    |",
            "+---*----------+----------+----------+",
            "| 2 *   2-0    |   2-1    |   2-2    |",
            "+---*----------+----------+----------+",
        ])
    );
}

#[test]
fn verticals_4() {
    let mut grid = create_grid(3, 3);
    grid.set_style(Style::ascii().verticals((0..10).map(|i| VerticalLine::new(i, Line::new(Some('*'), Some('x'), Some('c'), Some('2')))).collect()));
    assert_eq!(
        grid.render().unwrap(),
        lines(&[
            "c---c----------c----------c----------c",
            "* N * column 0 * column 1 * column 2 *",
            "x---x----------x----------x----------x",
            "* 0 *   0-0    *   0-1    *   0-2    *",
            "x---x----------x----------x----------x",
            "* 1 *   1-0    *   1-1    *   1-2    *",
            "x---x----------x----------x----------x",
            "* 2 *   2-0    *   2-1    *   2-2    *",
            "2---2----------2----------2----------2",
        ])
    );
}

#[test]
fn vertical_line_0() {
    let mut grid = create_grid(3, 3);
    grid.style.horizontals.push(HorizontalLine::new(1, Line::new(Some('8'), Some('8'), Some('8'), Some('8'))));
    grid.style.verticals.push(VerticalLine::new(1, Line::new(Some('*'), Some('x'), Some('c'), Some('2'))));
    assert_eq!(
        grid.render().unwrap(),
        lines(&[
            "+---c----------+----------+----------+",
            "| N * column 0 | column 1 | column 2 |",
            "88888888888888888888888888888888888888",
            "| 0 *   0-0    |   0-1    |   0-2    |",
            "+---x----------+----------+----------+",
            "| 1 *   1-0    |   1-1    |   1-2    |",
            "+---x----------+----------+----------+",
            "| 2 *   2-0    |   2-1    |   2-2    |",
            "+---2----------+----------+----------+",
        ])
    );
}

#[test]
fn vertical_line_1() {
    let mut grid = create_grid(3, 3);
    grid.set_style(Style::empty());
    grid.style.verticals.push(VerticalLine::new(1, Line::new(Some('*'), Some('x'), Some('c'), Some('2'))));
    assert_eq!(
        grid.render().unwrap(),
        lines(&[
            "   c                              ",
            " N * column 0  column 1  column 2 ",
            " 0 *   0-0       0-1       0-2    ",
            " 1 *   1-0       1-1       1-2    ",
            " 2 *   2-0       2-1       2-2    ",
            "   2                              ",
        ])
    );
}

#[test]
fn vertical_line_2() {
    let mut grid = create_grid(3, 3);
    grid.set_style(Style::empty());
    grid.style.verticals.push(VerticalLine::new(1, Line::new(None, Some('x'), Some('c'), Some('2'))));
    assert_eq!(
        grid.render().unwrap(),
        lines(&[
            "   c                              ",
            " N   column 0  column 1  column 2 ",
            " 0     0-0       0-1       0-2    ",
            " 1     1-0       1-1       1-2    ",
            " 2     2-0       2-1       2-2    ",
            "   2                              ",
        ])
    );
}

#[test]
fn vertical_line_3() {
    let mut grid = create_grid(3, 3);
    grid.set_style(Style::empty());
    grid.style.verticals.push(VerticalLine::new(1, Line::new(Some('*'), Some('x'), None, None)));
    assert_eq!(
        grid.render().unwrap(),
        lines(&[
            " N * column 0  column 1  column 2 ",
            " 0 *   0-0       0-1       0-2    ",
            " 1 *   1-0       1-1       1-2    ",
            " 2 *   2-0       2-1       2-2    ",
        ])
    );
}

#[test]
fn override_horizontal_border_on_line() {
    let mut grid = create_grid(3, 3);
    grid.set_style(Style::markdown());
    for (r, c) in cells(1..2, 0..4) {
        grid.set_border_char(r, c, BorderChar::horizontal(':', Offset::Begin(0)));
        grid.set_border_char(r, c, BorderChar::horizontal(':', Offset::End(0)));
    }
    assert_eq!(
        grid.render().unwrap(),
        lines(&[
            "| N | column 0 | column 1 | column 2 |",
            "|:-:|:--------:|:--------:|:--------:|",
            "| 0 |   0-0    |   0-1    |   0-2    |",
            "| 1 |   1-0    |   1-1    |   1-2    |",
            "| 2 |   2-0    |   2-1    |   2-2    |",
        ])
    );
}

#[test]
fn override_horizontal_border_on_borders() {
    let mut grid = create_grid(3, 3);
    for (r, c) in cells(0..5, 0..4) {
        grid.set_border_char(r, c, BorderChar::horizontal(':', Offset::Begin(0)));
        grid.set_border_char(r, c, BorderChar::horizontal('y', Offset::Begin(3)));
        grid.set_border_char(r, c, BorderChar::horizontal(':', Offset::End(0)));
        grid.set_border_char(r, c, BorderChar::horizontal('x', Offset::End(3)));
    }
    assert_eq!(
        grid.render().unwrap(),
        lines(&[
            "+:-:+:--y--x--:+:--y--x--:+:--y--x--:+",
            "| N | column 0 | column 1 | column 2 |",
            "+:-:+:--y--x--:+:--y--x--:+:--y--x--:+",
            "| 0 |   0-0    |   0-1    |   0-2    |",
            "+:-:+:--y--x--:+:--y--x--:+:--y--x--:+",
            "| 1 |   1-0    |   1-1    |   1-2    |",
            "+:-:+:--y--x--:+:--y--x--:+:--y--x--:+",
            "| 2 |   2-0    |   2-1    |   2-2    |",
            "+:-:+:--y--x--:+:--y--x--:+:--y--x--:+",
        ])
    );
}

#[test]
fn override_horizontal_border_on_border() {
    let mut grid = create_grid(3, 3);
    for (r, c) in cells(0..5, 0..4) {
        grid.set_border(r, c, Border::filled('['));
        grid.set_border_char(r, c, BorderChar::horizontal(':', Offset::Begin(0)));
        grid.set_border_char(r, c, BorderChar::horizontal('y', Offset::Begin(3)));
        grid.set_border_char(r, c, BorderChar::horizontal(':', Offset::End(0)));
        grid.set_border_char(r, c, BorderChar::horizontal('x', Offset::End(3)));
    }
    assert_eq!(
        grid.render().unwrap(),
        lines(&[
            "[:[:[:[[y[[x[[:[:[[y[[x[[:[:[[y[[x[[:[",
            "[ N [ column 0 [ column 1 [ column 2 [",
            "[:[:[:[[y[[x[[:[:[[y[[x[[:[:[[y[[x[[:[",
            "[ 0 [   0-0    [   0-1    [   0-2    [",
            "[:[:[:[[y[[x[[:[:[[y[[x[[:[:[[y[[x[[:[",
            "[ 1 [   1-0    [   1-1    [   1-2    [",
            "[:[:[:[[y[[x[[:[:[[y[[x[[:[:[[y[[x[[:[",
            "[ 2 [   2-0    [   2-1    [   2-2    [",
            "[:[:[:[[y[[x[[:[:[[y[[x[[:[:[[y[[x[[:[",
        ])
    );
}

#[test]
fn override_vertical_border_on_line() {
    let mut grid = create_grid(3, 3);
    grid.set_style(Style::markdown());
    for (r, c) in cells(0..4, 1..2) {
        grid.set_border_char(r, c, BorderChar::vertical(':', Offset::Begin(0)));
    }
    assert_eq!(
        grid.render().unwrap(),
        lines(&[
            "| N : column 0 | column 1 | column 2 |",
            "|---|----------|----------|----------|",
            "| 0 :   0-0    |   0-1    |   0-2    |",
            "| 1 :   1-0    |   1-1    |   1-2    |",
            "| 2 :   2-0    |   2-1    |   2-2    |",
        ])
    );
}

#[test]
fn override_vertical_border_on_line_1() {
    let mut grid = create_grid(3, 3);
    grid.set_style(Style::markdown());
    for (r, c) in cells(0..4, 1..2) {
        grid.set_border_char(r, c, BorderChar::vertical(':', Offset::End(0)));
    }
    assert_eq!(
        grid.render().unwrap(),
        lines(&[
            "| N : column 0 | column 1 | column 2 |",
            "|---|----------|----------|----------|",
            "| 0 :   0-0    |   0-1    |   0-2    |",
            "| 1 :   1-0    |   1-1    |   1-2    |",
            "| 2 :   2-0    |   2-1    |   2-2    |",
        ])
    );
}

#[test]
fn override_vertical_border_on_line_multiline() {
    let mut grid = create_grid(3, 3);
    for (r, c) in cells(1..2, 0..4) {
        let text = format!("\nsome text\ntext\n{}\ntext\ntext\n", cell_text(r, c)); grid.matrix.set_cell(r, c, &text);
    }
    grid.set_style(Style::markdown());
    for (r, c) in cells(0..4, 1..2) {
        grid.set_border_char(r, c, BorderChar::vertical(':', Offset::Begin(4)));
    }
    assert_eq!(
        grid.render().unwrap(),
        lines(&[
            "|     N     | column 0  | column 1  | column 2  |",
            "|-----------|-----------|-----------|-----------|",
            "|           |           |           |           |",
            "| some text | some text | some text | some text |",
            "| text      | text      | text      | text      |",
            "| 0         | 0-0       | 0-1       | 0-2       |",
            "| text      : text      | text      | text      |",
            "| text      | text      | text      | text      |",
            "|           |           |           |           |",
            "|     1     |    1-0    |    1-1    |    1-2    |",
            "|     2     |    2-0    |    2-1    |    2-2    |",
        ])
    );
}

#[test]
fn override_vertical_border_on_line_multiline_2() {
    let mut grid = create_grid(3, 3);
    for (r, c) in cells(1..2, 0..4) {
        let text = format!("\nsome text\ntext\n{}\ntext\ntext\n", cell_text(r, c)); grid.matrix.set_cell(r, c, &text);
    }
    grid.set_style(Style::markdown());
    for (r, c) in cells(0..4, 1..2) {
        grid.set_border_char(r, c, BorderChar::vertical(':', Offset::End(4)));
    }
    assert_eq!(
        grid.render().unwrap(),
        lines(&[
            "|     N     | column 0  | column 1  | column 2  |",
            "|-----------|-----------|-----------|-----------|",
            "|           |           |           |           |",
            "| some text | some text | some text | some text |",
            "| text      : text      | text      | text      |",
            "| 0         | 0-0       | 0-1       | 0-2       |",
            "| text      | text      | text      | text      |",
            "| text      | text      | text      | text      |",
            "|           |           |           |           |",
            "|     1     |    1-0    |    1-1    |    1-2    |",
            "|     2     |    2-0    |    2-1    |    2-2    |",
        ])
    );
}

#[test]
fn override_vertical_and_horizontal_border_on_line() {
    let mut grid = create_grid(3, 3);
    for (r, c) in cells(1..2, 0..4) {
        let text = format!("\nsome text\ntext\n{}\ntext\ntext\n", cell_text(r, c)); grid.matrix.set_cell(r, c, &text);
    }
    grid.set_style(Style::markdown());
    for (r, c) in cells(0..4, 0..5) {
        grid.set_border_char(r, c, BorderChar::vertical('y', Offset::Begin(0)));
        grid.set_border_char(r, c, BorderChar::vertical('^', Offset::End(0)));
    }
    for (r, c) in cells(1..2, 0..4) {
        grid.set_border_char(r, c, BorderChar::horizontal('x', Offset::Begin(0)));
        grid.set_border_char(r, c, BorderChar::horizontal('@', Offset::End(0)));
    }
    assert_eq!(
        grid.render().unwrap(),
        lines(&[
            "y     N     y column 0  y column 1  y column 2  y",
            "|x---------@|x---------@|x---------@|x---------@|",
            "y           y           y           y           y",
            "| some text | some text | some text | some text |",
            "| text      | text      | text      | text      |",
            "| 0         | 0-0       | 0-1       | 0-2       |",
            "| text      | text      | text      | text      |",
            "| text      | text      | text      | text      |",
            "^           ^           ^           ^           ^",
            "y     1     y    1-0    y    1-1    y    1-2    y",
            "y     2     y    2-0    y    2-1    y    2-2    y",
        ])
    );
}

