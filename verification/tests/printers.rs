use print_agent::printers::{is_blank_char, parse_printer_list};

fn names(output: &str) -> Vec<String> {
    parse_printer_list(output)
}

/// The same list, made with the standard library's own line splitting and
/// trimming.
fn reference(output: &str) -> Vec<String> {
    let mut listed: Vec<String> = Vec::new();
    for line in output.lines() {
        let name = line.trim();
        if !name.is_empty() && !listed.iter().any(|known| known == name) {
            listed.push(name.to_string());
        }
    }
    listed
}

#[test]
fn no_printers_is_an_empty_list() {
    assert_eq!(names(""), Vec::<String>::new());
}

#[test]
fn blank_output_is_an_empty_list() {
    assert_eq!(names("\n"), Vec::<String>::new());
    assert_eq!(names("   \n\t\n\r\n  "), Vec::<String>::new());
}

#[test]
fn one_name_per_line() {
    assert_eq!(names("HP_LaserJet\nBrother_QL\n"), vec!["HP_LaserJet", "Brother_QL"]);
}

#[test]
fn last_line_needs_no_line_feed() {
    assert_eq!(names("HP_LaserJet\nBrother_QL"), vec!["HP_LaserJet", "Brother_QL"]);
    assert_eq!(names("Zebra"), vec!["Zebra"]);
}

#[test]
fn carriage_returns_are_trimmed() {
    let output = "Microsoft Print to PDF\r\nGLS Label Printer\r\n";
    assert_eq!(names(output), vec!["Microsoft Print to PDF", "GLS Label Printer"]);
}

#[test]
fn names_are_trimmed_but_keep_inner_spaces() {
    assert_eq!(names("  Front Desk  \n\tBack Office\t\n"), vec!["Front Desk", "Back Office"]);
}

#[test]
fn empty_lines_are_passed_over() {
    assert_eq!(names("\n\nA\n   \n\nB\n\n"), vec!["A", "B"]);
}

#[test]
fn repeated_names_are_listed_once_where_they_first_occur() {
    assert_eq!(names("B\nA\nB\nC\nA\n"), vec!["B", "A", "C"]);
}

#[test]
fn names_that_differ_only_in_padding_are_the_same() {
    assert_eq!(names("Zebra\n  Zebra\nZebra  \r\n"), vec!["Zebra"]);
}

#[test]
fn names_that_differ_in_case_are_different() {
    assert_eq!(names("zebra\nZebra\n"), vec!["zebra", "Zebra"]);
}

#[test]
fn unicode_white_space_is_trimmed() {
    assert_eq!(names("\u{00A0}Étiquettes\u{3000}\n\u{2003}Büro\u{2028}"), vec!["Étiquettes", "Büro"]);
}

#[test]
fn lone_carriage_return_does_not_end_a_line() {
    assert_eq!(names("A\rB\n"), vec!["A\rB"]);
}

#[test]
fn agrees_with_the_standard_library() {
    let samples = [
        "",
        "\n",
        "a",
        "a\n",
        "a\nb",
        "a\r\nb\r\n",
        " a \n\n b\n a\n",
        "\t\u{000B}\u{000C}x\u{0085}\ny\u{1680}\n",
        "x\n\n\n\nx\ny\nx\n",
        "one two  three\n   \n one two  three \n",
        "\r\n\r\n\r\n",
        "é\nè\né\n",
        "a\u{200B}\n",
        "tail-without-feed\n   last  ",
    ];
    for sample in samples {
        assert_eq!(names(sample), reference(sample), "for {:?}", sample);
    }
}

#[test]
fn white_space_is_what_the_standard_library_says() {
    let mut code: u32 = 0;
    while code <= 0x10FFFF {
        if let Some(c) = char::from_u32(code) {
            assert_eq!(is_blank_char(c), c.is_whitespace(), "for U+{:04X}", code);
        }
        code += 1;
    }
}
