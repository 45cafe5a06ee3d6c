use gixor::Terminal;
use gixor::padding_list;

#[test]
fn test_print_in_column_string() {
    let v1 = vec![
        "macOS",
        "Linux",
        "Windows",
        "Go",
        "VisualStudioCode",
        "JetBrains",
    ];
    let t = Terminal::new_with(125, " ");
    let r1 = t.format_in_column(v1.iter().map(|s| s.to_string()).collect());
    assert_eq!(r1.len(), 1);
    assert_eq!(r1[0], "macOS            Linux            Windows          Go               VisualStudioCode JetBrains");

    let v2 = vec![
        "macOS",
        "Linux",
        "Windows",
        "Go",
        "VisualStudioCode",
        "JetBrains",
        "Rust",
        "NetBeans",
    ];
    let t = Terminal::new_with(125, " ");
    let r2 = t.format_in_column(v2.iter().map(|s| s.to_string()).collect());
    assert_eq!(r2.len(), 2);
    assert_eq!(r2[0], "macOS            Linux            Windows          Go               VisualStudioCode JetBrains        Rust");
    assert_eq!(r2[1], "NetBeans");
}

#[test]
pub fn test_format_header() {
    let t = Terminal::new_with(80, " ");
    assert_eq!(
        t.format_header("Hello, World!".to_string()),
        "================================ Hello, World! ================================="
    );
}

#[test]
fn test_padding_list() {
    let padded = padding_list(vec!["ab".to_string(), "a".to_string()], 3);
    assert_eq!(padded, vec!["ab ".to_string(), "a  ".to_string()]);
}

#[test]
fn test_narrow_terminal_single_column() {
    let t = Terminal::new_with(3, " ");
    let r = t.format_in_column(vec!["alpha".to_string(), "beta".to_string()]);
    assert_eq!(r, vec!["alpha".to_string(), "beta".to_string()]);
}
