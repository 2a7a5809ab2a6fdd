use cli_rs::table::{cell_texts, is_escape_free, render};

fn strings(v: &[&str]) -> Vec<String> {
    v.iter().map(|s| s.to_string()).collect()
}

#[test]
fn renders_aligned_columns_without_borders() {
    let headers = strings(&["name", "n"]);
    let grid = vec![
        vec![Some("a".to_string()), Some("12345".to_string())],
        vec![Some("longer".to_string()), None],
    ];
    assert_eq!(
        render(&headers, &grid).unwrap(),
        " name    n \n a       12345 \n longer   \n"
    );
}

#[test]
fn renders_every_row() {
    let headers = strings(&["k"]);
    let grid: Vec<Vec<Option<String>>> = (0..5).map(|i| vec![Some(i.to_string())]).collect();
    let out = render(&headers, &grid).unwrap();
    assert_eq!(out.lines().count(), 6);
    assert_eq!(out, " k \n 0 \n 1 \n 2 \n 3 \n 4 \n");
}

#[test]
fn absent_cells_show_as_empty_text() {
    let row = vec![None, Some("x".to_string()), None];
    assert_eq!(cell_texts(&row), strings(&["", "x", ""]));
}

#[test]
fn renders_header_line_alone_for_empty_grid() {
    assert_eq!(render(&strings(&["one", "two"]), &vec![]).unwrap(), " one  two \n");
}

#[test]
fn multi_line_cells_take_several_lines() {
    let headers = strings(&["h", "k"]);
    let grid = vec![vec![Some("a\nbb".to_string()), Some("x".to_string())]];
    assert_eq!(render(&headers, &grid).unwrap(), " h   k \n a   x \n bb   \n");
}

#[test]
fn cells_are_split_into_lines_like_str_lines() {
    let headers = strings(&["h"]);
    let crlf = vec![vec![Some("a\r\nb\n".to_string())]];
    assert_eq!(render(&headers, &crlf).unwrap(), " h \n a \n b \n");
    let ended = vec![vec![Some("a\n".to_string())]];
    let plain = vec![vec![Some("a".to_string())]];
    assert_eq!(render(&headers, &ended), render(&headers, &plain));
}

#[test]
fn escape_character_in_a_header_is_not_rendered() {
    let headers = vec!["ok".to_string(), "\u{1b}[\u{644}\u{627}\u{644}\u{627}".to_string()];
    assert_eq!(render(&headers, &vec![]), None);
}

#[test]
fn escape_character_in_a_cell_is_not_rendered() {
    let headers = strings(&["h"]);
    let grid = vec![vec![Some("fine".to_string())], vec![Some("bad\u{1b}[0m".to_string())]];
    assert_eq!(render(&headers, &grid), None);
    let absent = vec![vec![None]];
    assert!(render(&headers, &absent).is_some());
}

#[test]
fn escape_check_finds_the_character_anywhere() {
    assert!(is_escape_free("plain text"));
    assert!(is_escape_free(""));
    assert!(!is_escape_free("\u{1b}"));
    assert!(!is_escape_free("end\u{1b}"));
}
