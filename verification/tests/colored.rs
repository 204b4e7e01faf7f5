use ansi_str::AnsiStr;
use papergrid::color::AnsiColor;
use papergrid::grid::{Border, BorderColors, BorderTints, Grid};
use papergrid::matrix::Matrix;
use papergrid::settings::Alignment;
use papergrid::style::Style;

fn lines(rows: &[&str]) -> String {
    rows.join("\n")
}

fn create_matrix(rows: usize, cols: usize) -> Matrix {
    let mut data: Vec<Vec<String>> = Vec::new();
    let mut header = vec!["N".to_string()];
    for c in 0..cols {
        header.push(format!("column {}", c));
    }
    data.push(header);
    for r in 0..rows {
        let mut row = vec![r.to_string()];
        for c in 0..cols {
            row.push(format!("{}-{}", r, c));
        }
        data.push(row);
    }
    Matrix::from_rows(&data)
}

fn create_grid(rows: usize, cols: usize, style: Style) -> Grid {
    let mut grid = Grid::new(create_matrix(rows, cols), style);
    grid.set_alignment(Alignment::center());
    grid
}

fn color_of(text: &str) -> AnsiColor<'static> {
    AnsiColor::try_from(text).unwrap()
}

fn color_row_one(grid: &mut Grid) {
    let blue = grid.add_color(color_of("\u{1b}[34m*\u{1b}[39m"));
    let green = grid.add_color(color_of("\u{1b}[38;2;12;220;100m#\u{1b}[39m"));
    let mut tints = BorderTints::filled(blue);
    tints.top = Some(green);
    for col in 0..3 {
        grid.set_border_colored(1, col, Border::filled('*').top('#'), tints);
    }
}

#[test]
fn border_colored_test() {
    let mut grid = create_grid(2, 2, Style::ascii());
    color_row_one(&mut grid);
    let table = grid.render().unwrap();

    assert_eq!(
        table.ansi_strip(),
        lines(&[
            "+---+----------+----------+",
            "| N | column 0 | column 1 |",
            "*###*##########*##########*",
            "* 0 *   0-0    *   0-1    *",
            "***************************",
            "| 1 |   1-0    |   1-1    |",
            "+---+----------+----------+",
        ])
    );

    assert_eq!(
        table,
        lines(&[
            "+---+----------+----------+",
            "| N | column 0 | column 1 |",
            "\u{1b}[34m*\u{1b}[39m\u{1b}[38;2;12;220;100m###\u{1b}[39m\u{1b}[34m*\u{1b}[39m\u{1b}[38;2;12;220;100m##########\u{1b}[39m\u{1b}[34m*\u{1b}[39m\u{1b}[38;2;12;220;100m##########\u{1b}[39m\u{1b}[34m*\u{1b}[39m",
            "\u{1b}[34m*\u{1b}[39m 0 \u{1b}[34m*\u{1b}[39m   0-0    \u{1b}[34m*\u{1b}[39m   0-1    \u{1b}[34m*\u{1b}[39m",
            "\u{1b}[34m***************************\u{1b}[39m",
            "| 1 |   1-0    |   1-1    |",
            "+---+----------+----------+",
        ])
    );

    let mut grid = create_grid(2, 2, Style::empty());
    color_row_one(&mut grid);
    let table = grid.render().unwrap();

    assert_eq!(
        table.ansi_strip(),
        lines(&[
            "  N   column 0   column 1  ",
            "*###*##########*##########*",
            "* 0 *   0-0    *   0-1    *",
            "***************************",
            "  1     1-0        1-1     ",
        ])
    );

    assert_eq!(
        table,
        "  N   column 0   column 1  \n\u{1b}[34m*\u{1b}[39m\u{1b}[38;2;12;220;100m###\u{1b}[39m\u{1b}[34m*\u{1b}[39m\u{1b}[38;2;12;220;100m##########\u{1b}[39m\u{1b}[34m*\u{1b}[39m\u{1b}[38;2;12;220;100m##########\u{1b}[39m\u{1b}[34m*\u{1b}[39m\n\u{1b}[34m*\u{1b}[39m 0 \u{1b}[34m*\u{1b}[39m   0-0    \u{1b}[34m*\u{1b}[39m   0-1    \u{1b}[34m*\u{1b}[39m\n\u{1b}[34m***************************\u{1b}[39m\n  1     1-0        1-1     ",
    );
}

#[test]
fn style_with_color_test() {
    let mut style = Style::ascii();
    style.borders.left = Some('[');
    style.borders.right = Some(']');
    style.borders.top = Some('-');
    style.borders.bottom = Some('-');
    style.borders.vertical = Some('|');
    style.borders.intersection = Some('+');
    let mut grid = create_grid(3, 3, style);
    let red = grid.add_color(color_of("\u{1b}[31m[\u{1b}[39m"));
    let blue = grid.add_color(color_of("\u{1b}[34m-\u{1b}[39m"));
    let yellow = grid.add_color(color_of("\u{1b}[33m|\u{1b}[39m"));
    let purple = grid.add_color(color_of("\u{1b}[35m+\u{1b}[39m"));
    let mut colors = BorderColors::none();
    colors.left = Some(red);
    colors.right = Some(red);
    colors.top = Some(blue);
    colors.bottom = Some(blue);
    colors.vertical = Some(yellow);
    colors.intersection = Some(purple);
    grid.set_border_colors(colors);

    let table = grid.render().unwrap();

    assert_eq!(
        table.ansi_strip(),
        lines(&[
            "+---+----------+----------+----------+",
            "[ N | column 0 | column 1 | column 2 ]",
            "+---+----------+----------+----------+",
            "[ 0 |   0-0    |   0-1    |   0-2    ]",
            "+---+----------+----------+----------+",
            "[ 1 |   1-0    |   1-1    |   1-2    ]",
            "+---+----------+----------+----------+",
            "[ 2 |   2-0    |   2-1    |   2-2    ]",
            "+---+----------+----------+----------+",
        ])
    );

    assert_eq!(table, "+\u{1b}[34m---\u{1b}[39m+\u{1b}[34m----------\u{1b}[39m+\u{1b}[34m----------\u{1b}[39m+\u{1b}[34m----------\u{1b}[39m+\n\u{1b}[31m[\u{1b}[39m N \u{1b}[33m|\u{1b}[39m column 0 \u{1b}[33m|\u{1b}[39m column 1 \u{1b}[33m|\u{1b}[39m column 2 \u{1b}[31m]\u{1b}[39m\n+---\u{1b}[35m+\u{1b}[39m----------\u{1b}[35m+\u{1b}[39m----------\u{1b}[35m+\u{1b}[39m----------+\n\u{1b}[31m[\u{1b}[39m 0 \u{1b}[33m|\u{1b}[39m   0-0    \u{1b}[33m|\u{1b}[39m   0-1    \u{1b}[33m|\u{1b}[39m   0-2    \u{1b}[31m]\u{1b}[39m\n+---\u{1b}[35m+\u{1b}[39m----------\u{1b}[35m+\u{1b}[39m----------\u{1b}[35m+\u{1b}[39m----------+\n\u{1b}[31m[\u{1b}[39m 1 \u{1b}[33m|\u{1b}[39m   1-0    \u{1b}[33m|\u{1b}[39m   1-1    \u{1b}[33m|\u{1b}[39m   1-2    \u{1b}[31m]\u{1b}[39m\n+---\u{1b}[35m+\u{1b}[39m----------\u{1b}[35m+\u{1b}[39m----------\u{1b}[35m+\u{1b}[39m----------+\n\u{1b}[31m[\u{1b}[39m 2 \u{1b}[33m|\u{1b}[39m   2-0    \u{1b}[33m|\u{1b}[39m   2-1    \u{1b}[33m|\u{1b}[39m   2-2    \u{1b}[31m]\u{1b}[39m\n+\u{1b}[34m---\u{1b}[39m+\u{1b}[34m----------\u{1b}[39m+\u{1b}[34m----------\u{1b}[39m+\u{1b}[34m----------\u{1b}[39m+");
}
