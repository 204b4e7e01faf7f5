use papergrid::color::AnsiColor;
use papergrid::nested::{NestedTable, Value};
use papergrid::settings::{AlignmentHorizontal, AlignmentVertical, Padding};
use papergrid::style::Style;

fn scalar(text: &str) -> Value {
    Value::Scalar(text.to_string())
}

fn sample() -> Value {
    Value::Object(vec![
        (
            "234".to_string(),
            Value::Array(vec![scalar("123"), scalar("234"), scalar("456")]),
        ),
        ("key1".to_string(), scalar("123")),
        (
            "key22".to_string(),
            Value::Object(vec![
                ("k1".to_string(), scalar("1")),
                ("k2".to_string(), scalar("2")),
            ]),
        ),
    ])
}

fn centered(value: Value) -> NestedTable {
    let mut table = NestedTable::new(value, Style::modern());
    table.padding = Padding::zero();
    table.horizontal = AlignmentHorizontal::Center;
    table.vertical = AlignmentVertical::Center;
    table
}

#[test]
fn config_from_table_general_test() {
    let table = centered(sample());
    let text = table.table_text_of(&table.value).unwrap();

    println!("{}", text);

    assert_eq!(
        text,
        [
            "┌─────┬──────┐\n",
            "│     │┌───┐ │\n",
            "│     ││123│ │\n",
            "│     │├───┤ │\n",
            "│ 234 ││234│ │\n",
            "│     │├───┤ │\n",
            "│     ││456│ │\n",
            "│     │└───┘ │\n",
            "├─────┼──────┤\n",
            "│key1 │ 123  │\n",
            "├─────┼──────┤\n",
            "│     │┌──┬─┐│\n",
            "│     ││k1│1││\n",
            "│key22│├──┼─┤│\n",
            "│     ││k2│2││\n",
            "│     │└──┴─┘│\n",
            "└─────┴──────┘",
        ]
        .concat()
    );
}

#[test]
fn config_from_table_test() {
    let table = centered(sample()).collapse();
    let text = table.render().unwrap();

    println!("{}", text);

    assert_eq!(
        text,
        [
            "┌───────┬──────┐\n",
            "│       │ 123  │\n",
            "│       ├──────┤\n",
            "│  234  │ 234  │\n",
            "│       ├──────┤\n",
            "│       │ 456  │\n",
            "├───────┼──────┤\n",
            "│ key1  │ 123  │\n",
            "├───────┼────┬─┤\n",
            "│       │ k1 │1│\n",
            "│ key22 ├────┼─┤\n",
            "│       │ k2 │2│\n",
            "└───────┴────┴─┘",
        ]
        .concat()
    );
}

#[test]
fn color_test() {
    let mut table = NestedTable::new(sample(), Style::modern());
    table.padding = Padding::zero();
    table.border_color = Some(AnsiColor::new_owned(
        String::from("\u{1b}[34m"),
        String::from("\u{1b}[39m"),
    ));
    let table = table.collapse();
    let text = table.render().unwrap();

    println!("{}", text);

    assert_eq!(
        text,
        [
            "\u{1b}[34m┌───────\u{1b}[39m\u{1b}[34m┬──────┐\u{1b}[39m\n",
            "\u{1b}[34m│\u{1b}[39m234    \u{1b}[34m│\u{1b}[39m123   \u{1b}[34m│\u{1b}[39m\n",
            "\u{1b}[34m│\u{1b}[39m       \u{1b}[34m├──────┤\u{1b}[39m\n",
            "\u{1b}[34m│\u{1b}[39m       \u{1b}[34m│\u{1b}[39m234   \u{1b}[34m│\u{1b}[39m\n",
            "\u{1b}[34m│\u{1b}[39m       \u{1b}[34m├──────┤\u{1b}[39m\n",
            "\u{1b}[34m│\u{1b}[39m       \u{1b}[34m│\u{1b}[39m456   \u{1b}[34m│\u{1b}[39m\n",
            "\u{1b}[34m├───────\u{1b}[39m\u{1b}[34m┼──────┤\u{1b}[39m\n",
            "\u{1b}[34m│\u{1b}[39mkey1   \u{1b}[34m│\u{1b}[39m123   \u{1b}[34m│\u{1b}[39m\n",
            "\u{1b}[34m├───────\u{1b}[39m\u{1b}[34m┼────┬─┤\u{1b}[39m\n",
            "\u{1b}[34m│\u{1b}[39mkey22  \u{1b}[34m│\u{1b}[39mk1  \u{1b}[34m│\u{1b}[39m1\u{1b}[34m│\u{1b}[39m\n",
            "\u{1b}[34m│\u{1b}[39m       \u{1b}[34m├────\u{1b}[39m\u{1b}[34m┼─┤\u{1b}[39m\n",
            "\u{1b}[34m│\u{1b}[39m       \u{1b}[34m│\u{1b}[39mk2  \u{1b}[34m│\u{1b}[39m2\u{1b}[34m│\u{1b}[39m\n",
            "\u{1b}[34m└───────\u{1b}[39m\u{1b}[34m┴────\u{1b}[39m\u{1b}[34m┴─┘\u{1b}[39m",
        ]
        .concat()
    );
}
