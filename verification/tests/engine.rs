use papergrid::color::AnsiColor;
use papergrid::grid::{Border, Grid};
use papergrid::matrix::{Cell, Matrix, Span};
use papergrid::nested::{measure, NestedTable, Value};
use papergrid::render::join_lines;
use papergrid::settings::{
    Alignment, AlignmentHorizontal, AlignmentStrategy, AlignmentVertical, Padding,
};
use papergrid::style::{HorizontalLine, Line, Style};
use papergrid::text::split_lines;

fn matrix(rows: &[&[&str]]) -> Matrix {
    let data: Vec<Vec<String>> = rows
        .iter()
        .map(|row| row.iter().map(|text| text.to_string()).collect())
        .collect();
    Matrix::from_rows(&data)
}

fn text(rows: &[&str]) -> String {
    rows.join("\n")
}

fn draw(grid: &Grid) -> Vec<String> {
    grid.draw()
        .unwrap()
        .iter()
        .map(|line| line.iter().collect())
        .collect()
}

fn numbers(rows: usize, cols: usize) -> Matrix {
    let mut data: Vec<Vec<String>> = Vec::new();
    for r in 0..rows {
        data.push((0..cols).map(|c| format!("{}{}", r, c)).collect());
    }
    Matrix::from_rows(&data)
}

#[test]
fn a_grid_without_rows_or_columns_has_no_lines() {
    let grid = Grid::new(Matrix::new(0, 3), Style::ascii());
    assert_eq!(grid.render().unwrap(), "");
    assert!(grid.draw().unwrap().is_empty());
    let grid = Grid::new(Matrix::new(2, 0), Style::ascii());
    assert_eq!(grid.render().unwrap(), "");
}

#[test]
fn an_empty_cell_is_as_wide_as_its_padding() {
    let grid = Grid::new(Matrix::new(1, 1), Style::ascii());
    assert_eq!(grid.render().unwrap(), text(&["+--+", "|  |", "+--+"]));
    let mut grid = Grid::new(Matrix::new(1, 1), Style::ascii());
    grid.set_padding(Padding::new(2, 1, 0, 0));
    assert_eq!(grid.render().unwrap(), text(&["+---+", "|   |", "+---+"]));
}

#[test]
fn single_cell_style() {
    let grid = Grid::new(matrix(&[&[""]]), Style::modern());
    assert_eq!(grid.render().unwrap(), text(&["┌──┐", "│  │", "└──┘"]));
}

#[test]
fn zero_padding_gives_the_least_width() {
    let mut grid = Grid::new(matrix(&[&[""]]), Style::modern());
    grid.set_padding(Padding::zero());
    grid.set_alignment(Alignment::center());
    assert_eq!(grid.render().unwrap(), text(&["┌┐", "││", "└┘"]));
    let mut grid = Grid::new(matrix(&[&["ab"]]), Style::modern());
    grid.set_padding(Padding::zero());
    grid.set_alignment(Alignment::center());
    assert_eq!(grid.render().unwrap(), text(&["┌──┐", "│ab│", "└──┘"]));
}

#[test]
fn padding_adds_blank_lines_and_columns() {
    let mut grid = Grid::new(matrix(&[&["ab"]]), Style::ascii());
    grid.set_padding(Padding::new(1, 2, 1, 2));
    assert_eq!(
        grid.render().unwrap(),
        text(&["+-----+", "|     |", "| ab  |", "|     |", "|     |", "+-----+"])
    );
}

#[test]
fn lines_stand_where_the_vertical_alignment_puts_them() {
    let mut grid = Grid::new(matrix(&[&["a\nb\nc", "x"]]), Style::ascii());
    assert_eq!(
        grid.render().unwrap(),
        text(&["+---+---+", "| a | x |", "| b |   |", "| c |   |", "+---+---+"])
    );
    grid.set_alignment(Alignment::center_vertical());
    assert_eq!(
        grid.render().unwrap(),
        text(&["+---+---+", "| a |   |", "| b | x |", "| c |   |", "+---+---+"])
    );
    grid.set_alignment(Alignment::bottom());
    assert_eq!(
        grid.render().unwrap(),
        text(&["+---+---+", "| a |   |", "| b |   |", "| c | x |", "+---+---+"])
    );
    grid.set_alignment(Alignment::top());
    assert_eq!(grid.vertical, AlignmentVertical::Top);
}

#[test]
fn content_stands_where_the_horizontal_alignment_puts_it() {
    let mut grid = Grid::new(matrix(&[&["abcd"], &["a"]]), Style::ascii());
    grid.set_alignment(Alignment::right());
    assert_eq!(
        grid.render().unwrap(),
        text(&["+------+", "| abcd |", "+------+", "|    a |", "+------+"])
    );
    grid.set_alignment(Alignment::center());
    assert_eq!(
        grid.render().unwrap(),
        text(&["+------+", "| abcd |", "+------+", "|  a   |", "+------+"])
    );
    grid.set_alignment(Alignment::left());
    assert_eq!(grid.horizontal, AlignmentHorizontal::Left);
    assert_eq!(
        grid.render().unwrap(),
        text(&["+------+", "| abcd |", "+------+", "| a    |", "+------+"])
    );
}

#[test]
fn lines_are_centred_one_by_one_or_as_a_block() {
    let mut grid = Grid::new(matrix(&[&["abcde\na"]]), Style::ascii());
    grid.set_alignment(Alignment::center());
    assert_eq!(
        grid.render().unwrap(),
        text(&["+-------+", "| abcde |", "|   a   |", "+-------+"])
    );
    grid.set_alignment_strategy(AlignmentStrategy::PerCell);
    assert_eq!(
        grid.render().unwrap(),
        text(&["+-------+", "| abcde |", "| a     |", "+-------+"])
    );
}

#[test]
fn the_leftmost_column_of_a_span_grows() {
    let mut cells = matrix(&[&["a", "b"], &["0123456789", ""]]);
    cells.set_span(Span { row: 1, col: 0, rows: 1, cols: 2 });
    let mut grid = Grid::new(cells, Style::ascii());
    let plan = grid.resolve();
    let dimensions = grid.estimate(&plan).unwrap();
    assert_eq!(dimensions.widths, vec![8, 3]);
    assert_eq!(dimensions.heights, vec![1, 1]);
    assert_eq!(dimensions.col_starts, vec![1, 10]);
    assert_eq!(dimensions.row_starts, vec![1, 3]);
    assert_eq!(
        grid.render().unwrap(),
        text(&[
            "+--------+---+",
            "| a      | b |",
            "+--------+---+",
            "| 0123456789 |",
            "+--------+---+",
        ])
    );
    grid.set_correct_spans(true);
    assert_eq!(
        grid.render().unwrap(),
        text(&[
            "+--------+---+",
            "| a      | b |",
            "+--------+---+",
            "| 0123456789 |",
            "+------------+",
        ])
    );
}

#[test]
fn the_topmost_row_of_a_span_grows() {
    let mut cells = matrix(&[&["1\n2\n3\n4\n5", "a"], &["", "b"]]);
    cells.set_span(Span { row: 0, col: 0, rows: 2, cols: 1 });
    let mut grid = Grid::new(cells, Style::modern());
    grid.set_correct_spans(true);
    let plan = grid.resolve();
    let dimensions = grid.estimate(&plan).unwrap();
    assert_eq!(dimensions.heights, vec![3, 1]);
    assert_eq!(
        grid.render().unwrap(),
        text(&[
            "┌───┬───┐",
            "│ 1 │ a │",
            "│ 2 │   │",
            "│ 3 │   │",
            "│ 4 ├───┤",
            "│ 5 │ b │",
            "└───┴───┘",
        ])
    );
}

#[test]
fn of_two_spans_that_overlap_the_later_one_stays() {
    let mut cells = matrix(&[&["a", "b", "c"]]);
    cells.set_span(Span { row: 0, col: 0, rows: 1, cols: 2 });
    cells.set_span(Span { row: 0, col: 1, rows: 1, cols: 2 });
    assert_eq!(cells.spans(), &vec![Span { row: 0, col: 1, rows: 1, cols: 2 }]);
    assert_eq!(cells.region(0, 0), Span { row: 0, col: 0, rows: 1, cols: 1 });
    assert_eq!(cells.region(0, 2), Span { row: 0, col: 1, rows: 1, cols: 2 });
    assert_eq!(cells.span_of(0, 0), None);
    let mut grid = Grid::new(cells, Style::ascii());
    grid.set_correct_spans(true);
    assert_eq!(
        grid.render().unwrap(),
        text(&["+---+---+", "| a | b |", "+---+---+"])
    );
}

#[test]
fn a_span_that_leaves_the_matrix_is_ignored() {
    let mut cells = matrix(&[&["a", "b", "c"]]);
    cells.set_span(Span { row: 0, col: 2, rows: 1, cols: 5 });
    cells.set_span(Span { row: 0, col: 0, rows: 0, cols: 2 });
    cells.set_span(Span { row: 3, col: 0, rows: 1, cols: 1 });
    assert!(cells.spans().is_empty());
    cells.set_cell(7, 7, "x");
    cells.set_min_width(7, 7, 9);
    assert_eq!(cells.rows(), 1);
    assert_eq!(cells.cols(), 3);
    let grid = Grid::new(cells, Style::ascii());
    assert_eq!(
        grid.render().unwrap(),
        text(&["+---+---+---+", "| a | b | c |", "+---+---+---+"])
    );
}

#[test]
fn a_cell_is_at_least_as_wide_as_its_least_width() {
    let mut cells = matrix(&[&["a"], &["abc"]]);
    cells.set_min_width(0, 0, 5);
    assert_eq!(cells.cell(0, 0).min_width(), 5);
    assert_eq!(cells.cell(1, 0).min_width(), 0);
    assert_eq!(cells.cell(1, 0).width(), 3);
    assert_eq!(cells.cell(1, 0).count_lines(), 1);
    assert_eq!(cells.cell(1, 0).line_len(0), 3);
    assert_eq!(cells.cell(1, 0).char_at(0, 2), 'c');
    cells.set_cell(0, 0, "b");
    assert_eq!(cells.cell(0, 0).min_width(), 5);
    let grid = Grid::new(cells, Style::ascii());
    assert_eq!(
        grid.render().unwrap(),
        text(&["+-------+", "| b     |", "+-------+", "| abc   |", "+-------+"])
    );
    assert_eq!(Cell::with_floor("x", 4).min_width(), 4);
    assert_eq!(Cell::empty().count_lines(), 1);
}

#[test]
fn of_two_borders_for_one_corner_the_later_one_counts() {
    let mut grid = Grid::new(numbers(2, 2), Style::empty());
    grid.set_border(0, 0, Border::default().bottom_right_corner('1'));
    grid.set_border(1, 1, Border::default().top_left_corner('2'));
    assert_eq!(grid.render().unwrap(), text(&[" 00   01 ", "    2    ", " 10   11 "]));
    let mut grid = Grid::new(numbers(2, 2), Style::empty());
    grid.set_border(1, 1, Border::default().top_left_corner('2'));
    grid.set_border(0, 0, Border::default().bottom_right_corner('1'));
    assert_eq!(grid.render().unwrap(), text(&[" 00   01 ", "    1    ", " 10   11 "]));
}

#[test]
fn a_border_for_a_missing_cell_draws_nothing() {
    let mut grid = Grid::new(numbers(1, 1), Style::empty());
    grid.set_border(1, 0, Border::filled('*'));
    grid.set_border(0, 1, Border::filled('*'));
    assert_eq!(grid.render().unwrap(), " 00 ");
}

#[test]
fn sizes_that_do_not_fit_give_no_text() {
    let mut grid = Grid::new(numbers(1, 1), Style::ascii());
    grid.set_padding(Padding::new(usize::MAX, 1, 0, 0));
    assert_eq!(grid.render(), None);
    assert_eq!(grid.draw(), None);
    assert_eq!(grid.draw_painted(), None);
    let plan = grid.resolve();
    assert!(grid.estimate(&plan).is_none());
    let mut table = NestedTable::new(Value::Array(vec![Value::Scalar("a".to_string())]), Style::ascii());
    table.padding = Padding::new(0, 0, usize::MAX, 1);
    assert_eq!(table.render(), None);
    assert_eq!(table.collapse().render(), None);
}

#[test]
fn a_uniform_grid_is_a_rectangle() {
    let mut grid = Grid::new(numbers(3, 4), Style::ascii());
    grid.set_padding(Padding::new(1, 1, 1, 0));
    let lines = draw(&grid);
    assert_eq!(lines.len(), 2 * 3 + (3 + 1));
    for line in &lines {
        assert_eq!(line.chars().count(), 4 * 4 + 5);
    }
    let grid = Grid::new(numbers(3, 4), Style::ascii());
    assert_eq!(draw(&grid).len(), 3 + (3 + 1));
    let grid = Grid::new(numbers(3, 4), Style::psql());
    let lines = draw(&grid);
    assert_eq!(lines.len(), 3 + 1);
    for line in &lines {
        assert_eq!(line.chars().count(), 4 * 4 + 3);
    }
}

#[test]
fn turning_off_a_frame_line_removes_it_and_nothing_else() {
    let full = draw(&Grid::new(numbers(2, 3), Style::modern()));
    let without_top = draw(&Grid::new(numbers(2, 3), Style::modern().off_top()));
    assert_eq!(without_top, full[1..].to_vec());
    let without_bottom = draw(&Grid::new(numbers(2, 3), Style::modern().off_bottom()));
    assert_eq!(without_bottom, full[..full.len() - 1].to_vec());
    let without_left = draw(&Grid::new(numbers(2, 3), Style::modern().off_left()));
    let expected: Vec<String> = full.iter().map(|line| line.chars().skip(1).collect()).collect();
    assert_eq!(without_left, expected);
    let without_right = draw(&Grid::new(numbers(2, 3), Style::modern().off_right()));
    let expected: Vec<String> = full
        .iter()
        .map(|line| line.chars().take(line.chars().count() - 1).collect())
        .collect();
    assert_eq!(without_right, expected);
    assert_eq!(
        without_left,
        vec![
            "────┬────┬────┐",
            " 00 │ 01 │ 02 │",
            "────┼────┼────┤",
            " 10 │ 11 │ 12 │",
            "────┴────┴────┘",
        ]
    );
}

#[test]
fn a_horizontal_line_changes_only_its_own_boundary() {
    let plain = draw(&Grid::new(numbers(3, 2), Style::modern()));
    let mut style = Style::modern();
    style.horizontals.push(HorizontalLine::new(2, Line::full('=', '#', '[', ']')));
    let changed = draw(&Grid::new(numbers(3, 2), style));
    assert_eq!(changed.len(), plain.len());
    for (y, line) in changed.iter().enumerate() {
        if y == 4 {
            assert_eq!(line, "[====#====]");
        } else {
            assert_eq!(line, &plain[y]);
        }
    }
    let mut style = Style::modern().off_horizontal();
    let plain = draw(&Grid::new(numbers(3, 2), style.copy()));
    style.horizontals.push(HorizontalLine::new(1, Line::full('=', '#', '│', '│')));
    let mut changed = draw(&Grid::new(numbers(3, 2), style.copy()));
    assert_eq!(changed.remove(2), "│====#====│");
    assert_eq!(changed, plain);
    style.horizontals.push(HorizontalLine::new(9, Line::filled('x')));
    let mut beyond = draw(&Grid::new(numbers(3, 2), style));
    beyond.remove(2);
    assert_eq!(beyond, plain);
}

#[test]
fn corrected_spans_leave_no_line_in_the_open() {
    let mut cells = matrix(&[&["ab", ""], &["c", "d"], &["e", "f"], &["g", "h"]]);
    cells.set_span(Span { row: 0, col: 0, rows: 1, cols: 2 });
    cells.set_span(Span { row: 2, col: 1, rows: 2, cols: 1 });
    let mut grid = Grid::new(cells, Style::modern());
    assert_eq!(
        grid.render().unwrap(),
        text(&[
            "┌───┬───┐",
            "│ ab    │",
            "├───┼───┤",
            "│ c │ d │",
            "├───┼───┤",
            "│ e │ f │",
            "├───┼   ┤",
            "│ g │   │",
            "└───┴───┘",
        ])
    );
    grid.set_correct_spans(true);
    assert_eq!(
        grid.render().unwrap(),
        text(&[
            "┌───────┐",
            "│ ab    │",
            "├───┬───┤",
            "│ c │ d │",
            "├───┼───┤",
            "│ e │ f │",
            "├───┤   │",
            "│ g │   │",
            "└───┴───┘",
        ])
    );
    let arms = grid.arms_of(3, 1);
    assert!(arms.up && arms.down && arms.left && !arms.right);
    let arms = grid.arms_of(0, 1);
    assert!(!arms.up && !arms.down && arms.left && arms.right);
}

#[test]
fn a_cell_that_spans_rows_and_columns_takes_up_the_crossing() {
    let mut cells = matrix(&[&["ab\ncd\nef", "", "x"], &["", "", "y"], &["p", "q", "z"]]);
    cells.set_span(Span { row: 0, col: 0, rows: 2, cols: 2 });
    let mut grid = Grid::new(cells, Style::modern());
    grid.set_correct_spans(true);
    assert_eq!(
        grid.render().unwrap(),
        text(&[
            "┌───────┬───┐",
            "│ ab    │ x │",
            "│ cd    ├───┤",
            "│ ef    │ y │",
            "├───┬───┼───┤",
            "│ p │ q │ z │",
            "└───┴───┴───┘",
        ])
    );
}

#[test]
fn nested_values_are_drawn_as_tables_in_cells() {
    let scalar = NestedTable::new(Value::Scalar("x".to_string()), Style::ascii());
    assert_eq!(scalar.render().unwrap(), text(&["+---+", "| x |", "+---+"]));
    assert_eq!(scalar.collapse().render().unwrap(), text(&["+---+", "| x |", "+---+"]));
    let empty = NestedTable::new(Value::Array(vec![]), Style::ascii());
    assert_eq!(empty.render().unwrap(), "");
    assert_eq!(empty.collapse().render().unwrap(), text(&["+--+", "|  |", "+--+"]));
    let nested = Value::Array(vec![
        Value::Scalar("a".to_string()),
        Value::Array(vec![Value::Scalar("b".to_string())]),
    ]);
    let mut table = NestedTable::new(nested, Style::ascii());
    table.padding = Padding::zero();
    assert_eq!(
        table.render().unwrap(),
        text(&["+---+", "|a  |", "+---+", "|+-+|", "||b||", "|+-+|", "+---+"])
    );
    assert_eq!(
        table.table_rows_of(&table.value).unwrap(),
        vec![vec!["a".to_string()], vec!["+-+\n|b|\n+-+".to_string()]]
    );
    assert_eq!(table.cell_text_of(&Value::Scalar("q".to_string())).unwrap(), "q");
    let table = table.collapse();
    assert!(table.collapsed);
    assert_eq!(table.render().unwrap(), text(&["+-+", "|a|", "+-+", "|b|", "+-+"]));
}

#[test]
fn a_collapsed_object_gives_its_names_room() {
    let value = Value::Object(vec![
        ("k".to_string(), Value::Scalar("v".to_string())),
        ("long".to_string(), Value::Array(vec![])),
    ]);
    assert_eq!(measure(&value), Some((2, 2)));
    let mut table = NestedTable::new(value, Style::ascii()).collapse();
    table.padding = Padding::zero();
    assert_eq!(
        table.render().unwrap(),
        text(&["+------+-+", "|k     |v|", "+------+-+", "|long  | |", "+------+-+"])
    );
}

#[test]
fn values_are_measured_in_rows_and_columns() {
    let leaf = || Value::Scalar("x".to_string());
    assert_eq!(measure(&leaf()), Some((1, 1)));
    assert_eq!(measure(&Value::Array(vec![])), Some((1, 1)));
    assert_eq!(measure(&Value::Object(vec![])), Some((1, 1)));
    assert_eq!(measure(&Value::Array(vec![leaf(), leaf(), leaf()])), Some((3, 1)));
    let object = Value::Object(vec![
        ("a".to_string(), Value::Array(vec![leaf(), leaf()])),
        ("b".to_string(), Value::Object(vec![("c".to_string(), leaf())])),
    ]);
    assert_eq!(measure(&object), Some((3, 3)));
}

#[test]
fn texts_are_split_at_line_feeds_and_joined_with_them() {
    let chars = |text: &str| -> Vec<char> { text.chars().collect() };
    assert_eq!(split_lines("a\n\nbc"), vec![chars("a"), chars(""), chars("bc")]);
    assert_eq!(split_lines(""), vec![chars("")]);
    assert_eq!(split_lines("a\n"), vec![chars("a"), chars("")]);
    assert_eq!(join_lines(&vec![chars("a"), chars(""), chars("bc")]), "a\n\nbc");
    assert_eq!(join_lines(&vec![]), "");
    assert_eq!(join_lines(&vec![chars("ab")]), "ab");
}

#[test]
fn without_colours_the_text_is_the_drawing() {
    let grid = Grid::new(numbers(2, 2), Style::modern());
    assert_eq!(grid.render().unwrap(), draw(&grid).join("\n"));
    let lines = grid.draw_painted().unwrap();
    assert_eq!(lines, grid.draw().unwrap());
}

#[test]
fn border_color() {
    let mut grid = Grid::new(numbers(2, 2), Style::psql());
    let green = grid.add_color(AnsiColor::try_from("\u{1b}[42m \u{1b}[49m").unwrap());
    assert_eq!(green, 0);
    grid.set_global_border_color(Some(green));
    assert_eq!(
        grid.render().unwrap(),
        " 00 \u{1b}[42m|\u{1b}[49m 01 \n\u{1b}[42m----+----\u{1b}[49m\n 10 \u{1b}[42m|\u{1b}[49m 11 "
    );
    grid.set_split_runs(true);
    assert_eq!(
        grid.render().unwrap(),
        " 00 \u{1b}[42m|\u{1b}[49m 01 \n\u{1b}[42m----\u{1b}[49m\u{1b}[42m+----\u{1b}[49m\n 10 \u{1b}[42m|\u{1b}[49m 11 "
    );
    grid.set_global_border_color(Some(7));
    assert_eq!(grid.render().unwrap(), text(&[" 00 | 01 ", "----+----", " 10 | 11 "]));
}

#[test]
fn the_content_of_a_cell_has_its_colour() {
    let mut grid = Grid::new(matrix(&[&["ab", "c"], &["d\nef", "g"]]), Style::ascii());
    let plain = grid.draw().unwrap();
    let marked = grid.add_color(AnsiColor::new_borrows("<", ">"));
    let other = grid.add_color(AnsiColor::new_owned("[".to_string(), "]".to_string()));
    grid.set_cell_color(0, 0, other);
    grid.set_cell_color(0, 0, marked);
    grid.set_cell_color(1, 0, marked);
    grid.set_cell_color(1, 1, other);
    grid.set_cell_color(5, 5, other);
    assert_eq!(
        grid.render().unwrap(),
        text(&[
            "+----+---+",
            "| <ab> | c |",
            "+----+---+",
            "| <d>  | [g] |",
            "| <ef> |   |",
            "+----+---+",
        ])
    );
    assert_eq!(grid.draw().unwrap(), plain);
}

#[test]
fn a_border_text_has_no_colour() {
    let mut grid = Grid::new(numbers(1, 2), Style::ascii());
    let marked = grid.add_color(AnsiColor::new_borrows("<", ">"));
    grid.set_global_border_color(Some(marked));
    grid.set_border_text(papergrid::grid::BorderText::new(0, "ab").offset(papergrid::grid::Offset::Begin(2)));
    assert_eq!(
        grid.render().unwrap(),
        text(&["<+->ab<-+----+>", "<|> 00 <|> 01 <|>", "<+----+----+>"])
    );
}

#[test]
fn a_style_gives_its_lines() {
    let style = Style::modern();
    assert_eq!(style.get_horizontal(), Line::full('─', '┼', '├', '┤'));
    assert_eq!(style.get_vertical(), Line::full('│', '┼', '┬', '┴'));
    assert_eq!(Style::psql().horizontals, vec![HorizontalLine::new(1, Line::new(Some('-'), Some('+'), None, None))]);
    let style = Style::psql().off_horizontals();
    assert!(style.horizontals.is_empty());
    let style = Style::empty()
        .verticals(vec![papergrid::style::VerticalLine::new(1, Line::filled('!'))])
        .top('-');
    assert_eq!(style.verticals[0].line.start, Some('-'));
    assert_eq!(style.verticals[0].line.main, Some('!'));
    let style = style.off_top();
    assert_eq!(style.verticals[0].line.start, None);
    assert_eq!(style.borders.top, None);
    let style = style.off_verticals();
    assert!(style.verticals.is_empty());
    assert_eq!(style, Style::empty());
    assert_eq!(Line::default(), Line::empty());
    assert_eq!(Border::default(), Border::empty());
    assert_eq!(Padding::default(), Padding::new(1, 1, 0, 0));
}

#[test]
fn the_padding_holds_its_filling() {
    let mut grid = Grid::new(matrix(&[&["ab"], &["c"]]), Style::ascii());
    grid.set_padding(Padding::new(1, 2, 1, 0).filled_with('.'));
    grid.set_alignment(Alignment::right());
    assert_eq!(
        grid.render().unwrap(),
        text(&["+-----+", "|.....|", "|.ab..|", "+-----+", "|.....|", "|. c..|", "+-----+"])
    );
    assert_eq!(Padding::zero().filled_with('x'), Padding { left: 0, right: 0, top: 0, bottom: 0, fill: 'x' });
}

#[test]
fn matrices_are_well_formed() {
    let mut cells = matrix(&[&["a", "b"], &["c"]]);
    assert!(cells.is_well_formed());
    assert_eq!(cells.cols(), 2);
    assert_eq!(cells.cell(1, 1).count_lines(), 1);
    assert_eq!(cells.cell(1, 1).width(), 0);
    cells.set_span(Span { row: 0, col: 0, rows: 2, cols: 2 });
    cells.set_span(Span { row: 1, col: 1, rows: 1, cols: 1 });
    assert!(cells.is_well_formed());
    assert_eq!(cells.spans().len(), 1);
    assert!(Matrix::new(0, 0).is_well_formed());
}

#[test]
fn the_plan_holds_every_border_character() {
    let grid = Grid::new(numbers(2, 2), Style::psql());
    let plan = grid.resolve();
    assert_eq!(plan.row_lines, vec![false, true, false]);
    assert_eq!(plan.col_lines, vec![false, true, false]);
    assert_eq!(plan.crossings[1], vec![None, Some('+'), None]);
    assert_eq!(plan.crossings[0], vec![None, None, None]);
    assert_eq!(plan.horizontal_fills, vec![vec![None, None], vec![Some('-'), Some('-')], vec![None, None]]);
    assert_eq!(plan.vertical_fills, vec![vec![None, Some('|'), None], vec![None, Some('|'), None]]);
    assert!(grid.row_line_drawn(1) && !grid.row_line_drawn(0) && !grid.row_line_drawn(5));
    assert!(grid.col_line_drawn(1) && !grid.col_line_drawn(2));
    assert_eq!(grid.crossing_char(1, 1), Some('+'));
    assert_eq!(grid.horizontal_fill_char(1, 0), Some('-'));
    assert_eq!(grid.vertical_fill_char(0, 1), Some('|'));
    assert_eq!(grid.vertical_fill_char(0, 0), None);
}

#[test]
fn a_grid_without_rows_still_has_dimensions() {
    let grid = Grid::new(Matrix::new(0, 3), Style::ascii());
    let plan = grid.resolve();
    let dimensions = grid.estimate(&plan).unwrap();
    assert_eq!(dimensions.widths, vec![0, 0, 0]);
    assert!(dimensions.heights.is_empty());
    let grid = Grid::new(Matrix::new(2, 0), Style::ascii());
    let plan = grid.resolve();
    let dimensions = grid.estimate(&plan).unwrap();
    assert!(dimensions.widths.is_empty());
    assert_eq!(dimensions.heights, vec![0, 0]);
}
