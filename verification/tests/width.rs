use ergothic::width::{has_escape, hidden_columns, is_printable};
use prettytable::Cell;

const TEXTS: [&str; 22] = [
    "",
    "energy",
    "\u{27e8}E\u{27e9} / \u{3c3}\u{b2}",
    "two\nlines\tand a tab",
    "[31m",
    "\u{1b}",
    "energy\u{1b}",
    "\u{1b}[",
    "\u{1b}[31mred\u{1b}[0m",
    "\u{1b}[1m2",
    "\u{1b}x[31m",
    "\u{1b}\u{1b}[m",
    "\u{1b}[\t\u{7}",
    "\u{644}\u{627}\u{644}\u{627}",
    "\u{1b}[\u{644}\u{627}",
    "\u{1b}[\u{644}\u{627}\u{644}\u{627}",
    "\u{1b}[\u{644}\u{627}\u{644}\u{627}m and a long tail",
    "fine\n\u{1b}[\u{644}\u{627}\u{644}\u{627}",
    "\u{1b}[\u{644}\u{627}\u{644}\u{627}\r\nfine",
    "\u{1b}[\u{a4f8}\u{a4fc}\u{a4f8}\u{a4fc}",
    "\u{1b}[\u{1f600}\u{1f600}",
    "\u{1b}[\u{5d0}\u{200d}\u{5dc}\u{5d0}\u{200d}\u{5dc}",
];

#[test]
fn has_escape_finds_the_escape_character() {
    assert!(!has_escape(""));
    assert!(!has_escape("energy"));
    assert!(!has_escape("[31m"));
    assert!(!has_escape("two\nlines"));
    assert!(has_escape("\u{1b}"));
    assert!(has_escape("energy\u{1b}"));
    assert!(has_escape("\u{1b}[31mred\u{1b}[0m"));
}

#[test]
fn hidden_columns_counts_what_stands_inside_escape_sequences() {
    assert_eq!(hidden_columns(""), 0);
    assert_eq!(hidden_columns("energy"), 0);
    assert_eq!(hidden_columns("[31m"), 0);
    assert_eq!(hidden_columns("\u{1b}"), 0);
    assert_eq!(hidden_columns("\u{1b}["), 1);
    assert_eq!(hidden_columns("\u{1b}[m"), 2);
    assert_eq!(hidden_columns("\u{1b}[31m"), 4);
    assert_eq!(hidden_columns("\u{1b}[31mred"), 4);
    assert_eq!(hidden_columns("\u{1b}[31mred\u{1b}[0m"), 7);
    assert_eq!(hidden_columns("\u{1b}[31"), 3);
    assert_eq!(hidden_columns("\u{1b}[31 and so on"), 13);
    assert_eq!(hidden_columns("\u{1b}x[31m"), 0);
    assert_eq!(hidden_columns("\u{1b}\u{1b}[m"), 0);
    assert_eq!(hidden_columns("\u{1b}\u{1b}\u{1b}[m"), 2);
    assert_eq!(hidden_columns("\u{1b}[\t\u{7}"), 1);
    assert_eq!(hidden_columns("\u{1b}[\u{644}\u{627}\u{644}\u{627}"), 5);
}

#[test]
fn is_printable_refuses_a_line_that_is_narrower_than_its_escape_sequences() {
    assert!(is_printable(""));
    assert!(is_printable("energy"));
    assert!(is_printable("\u{1b}"));
    assert!(is_printable("\u{1b}[31mred\u{1b}[0m"));
    assert!(is_printable("\u{644}\u{627}\u{644}\u{627}"));
    assert!(is_printable("\u{1b}[\u{644}\u{627}"));
    assert!(!is_printable("\u{1b}[\u{644}\u{627}\u{644}\u{627}"));
    assert!(!is_printable("fine\n\u{1b}[\u{644}\u{627}\u{644}\u{627}"));
    assert!(!is_printable("\u{1b}[\u{644}\u{627}\u{644}\u{627}\r\nfine"));
    assert!(is_printable("\u{1b}[\u{644}\u{627}\u{644}\u{627}m and a long tail"));
}

#[test]
fn a_cell_can_be_made_of_every_printable_text() {
    let mut made = 0;
    for text in TEXTS {
        if is_printable(text) {
            let lines: Vec<&str> = text.lines().collect();
            assert_eq!(Cell::new(text).get_content(), lines.join("\n"), "{:?}", text);
            made += 1;
        }
    }
    assert_eq!(made, 17);
}
