use jitacart::multibuy::parse_multibuy;

#[test]
fn tab_two_columns() {
    let p = parse_multibuy("Tritanium\t1000");
    assert!(p.errors.is_empty());
    assert_eq!(p.lines.len(), 1);
    assert_eq!(p.lines[0].name, "Tritanium");
    assert_eq!(p.lines[0].qty, 1000);
    assert_eq!(p.lines[0].line_nos, vec![1]);
}

#[test]
fn tab_three_columns_with_volume() {
    let p = parse_multibuy("Pyerite\t500\t2.5");
    assert!(p.errors.is_empty());
    assert_eq!(p.lines[0].qty, 500);
}

#[test]
fn tab_four_columns_full() {
    let p = parse_multibuy("Mexallon\t250\t10.0\t75.50");
    assert!(p.errors.is_empty());
    assert_eq!(p.lines[0].qty, 250);
}

#[test]
fn tab_extra_trailing_tabs() {
    let p = parse_multibuy("Tritanium\t1000\t\t");
    assert!(p.errors.is_empty());
    assert_eq!(p.lines[0].qty, 1000);
}

#[test]
fn whitespace_fallback_full_columns() {
    let p = parse_multibuy("Expanded Cargohold II 5 25.00 3000000.00");
    assert!(p.errors.is_empty());
    assert_eq!(p.lines[0].name, "Expanded Cargohold II");
    assert_eq!(p.lines[0].qty, 5);
}

#[test]
fn whitespace_qty_with_comma() {
    let p = parse_multibuy("Mexallon 1,000");
    assert!(p.errors.is_empty());
    assert_eq!(p.lines[0].name, "Mexallon");
    assert_eq!(p.lines[0].qty, 1000);
}

#[test]
fn whitespace_single_qty_one() {
    let p = parse_multibuy("Tritanium 1");
    assert!(p.errors.is_empty());
    assert_eq!(p.lines[0].qty, 1);
}

#[test]
fn nbsp_normalized() {
    let p = parse_multibuy("Damage\u{00A0}Control\u{00A0}II\t3");
    assert!(p.errors.is_empty());
    assert_eq!(p.lines[0].name, "Damage Control II");
    assert_eq!(p.lines[0].qty, 3);
}

#[test]
fn duplicate_aggregation_case_insensitive() {
    let input = "Tritanium\t100\nTRITANIUM\t250";
    let p = parse_multibuy(input);
    assert!(p.errors.is_empty());
    assert_eq!(p.lines.len(), 1);
    assert_eq!(p.lines[0].name, "Tritanium");
    assert_eq!(p.lines[0].qty, 350);
    assert_eq!(p.lines[0].line_nos, vec![1, 2]);
}

#[test]
fn blank_lines_ignored() {
    let p = parse_multibuy("\n\nTritanium\t1\n\n");
    assert!(p.errors.is_empty());
    assert_eq!(p.lines.len(), 1);
}

#[test]
fn comment_like_lines_emit_error() {
    let p = parse_multibuy("# this is a heading\nTritanium\t1");
    assert_eq!(p.lines.len(), 1);
    assert_eq!(p.errors.len(), 1);
    assert_eq!(p.errors[0].line_no, 1);
}

#[test]
fn negative_qty_rejected() {
    let p = parse_multibuy("Tritanium\t-1");
    assert_eq!(p.lines.len(), 0);
    assert_eq!(p.errors.len(), 1);
}

#[test]
fn zero_qty_rejected() {
    let p = parse_multibuy("Tritanium\t0");
    assert_eq!(p.lines.len(), 0);
    assert_eq!(p.errors.len(), 1);
}

#[test]
fn non_numeric_qty_rejected() {
    let p = parse_multibuy("Tritanium\tlots");
    assert_eq!(p.lines.len(), 0);
    assert_eq!(p.errors.len(), 1);
}

#[test]
fn name_with_numbers_preserved() {
    let p = parse_multibuy("Damage Control II 5");
    assert!(p.errors.is_empty());
    assert_eq!(p.lines[0].name, "Damage Control II");
    assert_eq!(p.lines[0].qty, 5);
}

#[test]
fn line_order_preserved() {
    let p = parse_multibuy("Tritanium\t1\nPyerite\t1\nMexallon\t1");
    assert_eq!(p.lines.len(), 3);
    assert_eq!(p.lines[0].name, "Tritanium");
    assert_eq!(p.lines[1].name, "Pyerite");
    assert_eq!(p.lines[2].name, "Mexallon");
}
