use pptx_shrink::minify::optimize_xml;

fn minify_str(s: &str) -> String {
    String::from_utf8(optimize_xml(&s.as_bytes().to_vec())).unwrap()
}

#[test]
fn test_xml_optimization() {
    let input = "\n        <presentation>\n            <slide>\n                <content>Test</content>\n            </slide>\n        </presentation>\n        ";
    let output = minify_str(input);
    assert!(!output.contains('\n'));
    assert!(output.contains("<presentation>"));
}

#[test]
fn minify_trims_each_line_and_joins() {
    assert_eq!(minify_str("  <a>\n  <b/>\n  </a>  "), "<a><b/></a>");
}

#[test]
fn minify_empty_input_gives_empty_output() {
    assert_eq!(minify_str(""), "");
    assert_eq!(minify_str("   \n \t \n"), "");
}

#[test]
fn minify_keeps_interior_whitespace() {
    assert_eq!(minify_str("  <a>x y</a>  "), "<a>x y</a>");
}

#[test]
fn minify_is_idempotent() {
    let cases = ["  <a>\n  <b/>\n  </a>  ", "", "a\r\nb", " x \n\n y ", "<a>x y</a>"];
    for c in cases {
        let once = minify_str(c);
        let twice = minify_str(&once);
        assert_eq!(once, twice);
    }
}

#[test]
fn minify_preserves_tokens_in_order() {
    let input = "  <a attr=\"v\">\n   text here \n  </a>  ";
    let output = minify_str(input);
    let strip = |s: &str| s.chars().filter(|c| !c.is_ascii_whitespace()).collect::<String>();
    assert_eq!(strip(input), strip(&output));
    assert!(!output.contains('\n'));
}
