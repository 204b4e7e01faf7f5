use papergrid::grid::Grid;
use papergrid::matrix::{Matrix, Span};
use papergrid::settings::AlignmentHorizontal;
use papergrid::style::{Borders, Style};

fn table(rows: usize, cols: usize) -> Matrix {
    let mut data: Vec<Vec<String>> = Vec::new();
    let mut header = vec!["N".to_string()];
    for c in 0..cols {
        header.push(format!("column {}", c));
    }
    data.push(header);
    for r in 0..rows {
        let mut row = vec![r.to_string()];
        for c in 0..cols {
            row.push(format!("{}-{}", r, c));
        }
        data.push(row);
    }
    Matrix::from_rows(&data)
}

fn ascii() -> Style {
    Style {
        borders: Borders {
            top: Some('-'),
            bottom: Some('-'),
            left: Some('|'),
            right: Some('|'),
            horizontal: Some('-'),
            vertical: Some('|'),
            top_left: Some('+'),
            top_right: Some('+'),
            bottom_left: Some('+'),
            bottom_right: Some('+'),
            top_intersection: Some('+'),
            bottom_intersection: Some('+'),
            left_intersection: Some('+'),
            right_intersection: Some('+'),
            intersection: Some('+'),
        },
        horizontals: vec![],
        verticals: vec![],
    }
}

#[test]
fn ascii_table_is_drawn() {
    let mut grid = Grid::new(table(3, 3), ascii());
    grid.horizontal = AlignmentHorizontal::Center;
    let text = grid.render().unwrap();
    println!("{}", text);
    assert_eq!(
        text,
        "+---+----------+----------+----------+\n\
         | N | column 0 | column 1 | column 2 |\n\
         +---+----------+----------+----------+\n\
         | 0 |   0-0    |   0-1    |   0-2    |\n\
         +---+----------+----------+----------+\n\
         | 1 |   1-0    |   1-1    |   1-2    |\n\
         +---+----------+----------+----------+\n\
         | 2 |   2-0    |   2-1    |   2-2    |\n\
         +---+----------+----------+----------+"
    );
}

#[test]
fn spans_take_up_the_borders_between_their_cells() {
    let mut matrix = table(2, 2);
    matrix.set_span(Span { row: 0, col: 0, rows: 1, cols: 2 });
    matrix.set_span(Span { row: 1, col: 2, rows: 2, cols: 1 });
    let mut grid = Grid::new(matrix, ascii());
    grid.correct_spans = true;
    let text = grid.render().unwrap();
    println!("{}", text);
    assert_eq!(
        text,
        "+---------+----------+\n\
         | N       | column 1 |\n\
         +---+-----+----------+\n\
         | 0 | 0-0 | 0-1      |\n\
         +---+-----+          |\n\
         | 1 | 1-0 |          |\n\
         +---+-----+----------+"
    );
}
