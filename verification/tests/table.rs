use jcode_desktop2::table::{lay_table, table_lines};

fn row(cells: &[&str]) -> Vec<String> {
    cells.iter().map(|c| c.to_string()).collect()
}

#[test]
fn table_columns_line_up() {
    let rows = vec![
        row(&["frame", "direction"]),
        row(&["hello", "client"]),
        row(&["a-much-longer-frame", "server"]),
    ];
    let lines = table_lines(&rows);
    let texts: Vec<&str> = lines.iter().map(|l| l.text.as_str()).collect();
    assert_eq!(
        texts,
        vec![
            "frame                direction",
            "hello                client",
            "a-much-longer-frame  server",
        ]
    );
    let starts: Vec<usize> = texts.iter().map(|t| t.rfind(' ').unwrap() + 1).collect();
    assert!(starts.iter().all(|s| *s == starts[0]), "second column did not align: {starts:?}");
    assert!(lines[0].bold);
    assert!(!lines[1].bold && !lines[2].bold);
}

#[test]
fn a_short_row_reads_its_missing_cells_as_empty() {
    let rows = vec![row(&["a", "b", "c"]), row(&["dd"])];
    let lines = table_lines(&rows);
    assert_eq!(lines[0].text, "a   b  c");
    assert_eq!(lines[1].text, "dd     ");
}

#[test]
fn wide_characters_are_measured_by_their_columns() {
    let rows = vec![row(&["中文", "x"]), row(&["abcd", "y"])];
    let lines = table_lines(&rows);
    // Both first cells take four columns, so neither needs padding.
    assert_eq!(lines[0].text, "中文  x");
    assert_eq!(lines[1].text, "abcd  y");
}

#[test]
fn lay_table_pads_to_the_widths_it_is_given() {
    let rows = vec![row(&["a", "b"]), row(&["c", "d"])];
    let widths = vec![vec![3, 1], vec![1, 1]];
    let lines = lay_table(&rows, &widths);
    assert_eq!(lines[0].text, "a  b");
    assert_eq!(lines[1].text, "c    d");
}

#[test]
fn an_empty_table_has_no_lines() {
    assert!(table_lines(&[]).is_empty());
}

#[test]
fn table_columns_are_aligned() {
    let rows = vec![
        vec!["frame".to_string(), "direction".to_string()],
        vec!["hello".to_string(), "client".to_string()],
        vec!["a-much-longer-frame".to_string(), "server".to_string()],
    ];
    let lines = table_lines(&rows);
    let starts: Vec<usize> = lines
        .iter()
        .map(|line| {
            let text = line.text.as_str();
            text.find(|c: char| c != ' ')
                .map(|_| text.len() - text.trim_start_matches(|c: char| c != ' ').len())
                .unwrap_or(0)
        })
        .collect();
    let text: Vec<String> = lines.iter().map(|l| l.text.clone()).collect();
    let second_column: Vec<usize> = text
        .iter()
        .map(|line| line.rfind("  ").map(|i| i + 2).unwrap_or(0))
        .collect();
    assert!(
        second_column.windows(2).all(|w| w[0] == w[1]),
        "table columns did not align: {text:?} (starts {starts:?})"
    );
}

#[test]
fn tables_produce_visible_lines() {
    // The table of `| a | b |\n|---|---|\n| 1 | 2 |`, as its rows of cells.
    let rows = vec![row(&["a", "b"]), row(&["1", "2"])];
    let lines = table_lines(&rows);
    assert!(!lines.is_empty(), "table produced no drawable blocks");
    assert!(lines.iter().all(|l| !l.text.trim().is_empty()));
}
