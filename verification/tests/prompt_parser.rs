use comfy_executor::prompt_parser::{parse_header, parse_smart_prompt, Segment, Weight};

/// The floating-point weight a segment's weight stands for.
fn weight_value(w: &Weight) -> f64 {
    match w {
        Weight::Unit => 1.0,
        Weight::Tag { first, second } => {
            let v1: f64 = first.parse().unwrap_or(0.0);
            match second {
                Some(s) => s.parse::<f64>().unwrap_or(0.0) - v1,
                None => v1,
            }
        }
        Weight::Span { start, end } => (*end - *start) as f64,
    }
}

fn w(s: &Segment) -> f64 {
    weight_value(&s.weight)
}

#[test]
fn test_inline_equal_weights() {
    let segments = parse_smart_prompt("one | two | three");
    assert_eq!(segments.len(), 3);
    assert_eq!(segments[0].text, "one");
    assert_eq!(w(&segments[0]), 1.0);
    assert_eq!(segments[1].text, "two");
    assert_eq!(segments[2].text, "three");
}

#[test]
fn test_inline_proportional_weights() {
    let segments = parse_smart_prompt("one [0-50] | two [50-150] | three [150]");
    assert_eq!(segments.len(), 3);
    assert_eq!(w(&segments[0]), 50.0);
    assert_eq!(w(&segments[1]), 100.0);
    assert_eq!(w(&segments[2]), 150.0);
}

#[test]
fn test_block_syntax() {
    let text = "Scene 1:\nman walks\nScene 2:\nman runs";
    let segments = parse_smart_prompt(text);
    assert_eq!(segments.len(), 2);
    assert_eq!(segments[0].text, "man walks");
    assert_eq!(w(&segments[0]), 1.0);
    assert_eq!(segments[1].text, "man runs");
    assert_eq!(w(&segments[1]), 1.0);
}

#[test]
fn test_block_range_header() {
    let text = "Shot 1-3:\nman walks\nShot 3-7:\nman runs";
    let segments = parse_smart_prompt(text);
    assert_eq!(segments.len(), 2);
    assert_eq!(w(&segments[0]), 2.0); // 3-1
    assert_eq!(w(&segments[1]), 4.0); // 7-3
}

#[test]
fn test_empty_input() {
    let segments = parse_smart_prompt("");
    assert!(segments.is_empty());
}

#[test]
fn header_forms() {
    assert_eq!(parse_header("Scene 1:"), Some((1, None)));
    assert_eq!(parse_header("  My Scene 3:  "), Some((3, None)));
    assert_eq!(parse_header("Shot 2-4:"), Some((2, Some(4))));
    assert_eq!(parse_header("Shot 2 \u{2013} 4:"), Some((2, Some(4))));
    assert_eq!(parse_header("Shot 2.5-4.9:"), Some((2, Some(4))));
    assert_eq!(parse_header("Scene -3:"), Some((-3, None)));
    assert_eq!(parse_header("Scene 1e2:"), Some((100, None)));
    assert_eq!(parse_header("Scene one:"), Some((1, None)));
    assert_eq!(parse_header("My Shot Twenty:"), Some((20, None)));
    assert_eq!(parse_header("Act ZERO:"), Some((0, None)));
}

#[test]
fn header_rejections() {
    assert_eq!(parse_header("Scene 1"), None);
    assert_eq!(parse_header("1:"), None);
    assert_eq!(parse_header("Grandma Nan:"), None);
    assert_eq!(parse_header("Scene inf:"), None);
    assert_eq!(parse_header("Scene eleventy:"), None);
    assert_eq!(parse_header(":"), None);
    assert_eq!(parse_header(""), None);
    // a range needs a non-blank prefix; "2-4" alone is one token
    assert_eq!(parse_header("2-4:"), None);
}

#[test]
fn header_range_falls_back_to_last_word() {
    // the range's captures are Unicode digits that do not read as numbers;
    // the last word does not either
    assert_eq!(parse_header("Shot \u{0663}-\u{0664}:"), None);
}

#[test]
fn inline_tag_is_removed_everywhere() {
    let segments = parse_smart_prompt("a [1] b [2-3] c | d");
    assert_eq!(segments.len(), 2);
    assert_eq!(segments[0].text, "a  b  c");
    assert_eq!(
        segments[0].weight,
        Weight::Tag { first: "1".to_string(), second: None }
    );
    assert_eq!(segments[1].text, "d");
    assert_eq!(segments[1].weight, Weight::Unit);
}

#[test]
fn inline_tag_with_colon_and_bad_numbers() {
    let segments = parse_smart_prompt("x [1:4] | y [1.2.3]");
    assert_eq!(w(&segments[0]), 3.0);
    // "1.2.3" does not read as a float: its value is 0
    assert_eq!(w(&segments[1]), 0.0);
}

#[test]
fn inline_drops_empty_parts() {
    let segments = parse_smart_prompt(" | a || [5] | ");
    assert_eq!(segments.len(), 1);
    assert_eq!(segments[0].text, "a");
}

#[test]
fn block_text_before_first_header_is_a_segment() {
    let segments = parse_smart_prompt("intro\nScene 1:\nbody [0-10]\nmore\n");
    assert_eq!(segments.len(), 2);
    assert_eq!(segments[0].text, "intro");
    assert_eq!(w(&segments[0]), 1.0);
    assert_eq!(segments[1].text, "body \nmore");
    assert_eq!(w(&segments[1]), 10.0);
}

#[test]
fn block_header_without_body_is_dropped() {
    let segments = parse_smart_prompt("Scene 1:\nScene 2:\nonly");
    assert_eq!(segments.len(), 1);
    assert_eq!(segments[0].text, "only");
}

#[test]
fn segments_are_trimmed() {
    for text in ["  a  |  b ", "Scene 1:\n  x  \n", " [1] z "] {
        for s in parse_smart_prompt(text) {
            assert!(!s.text.is_empty());
            assert_eq!(s.text.trim(), s.text);
        }
    }
}

#[test]
fn block_syntax_with_number_words() {
    let segments = parse_smart_prompt("Scene one:\nman walks\nScene two:\nman runs");
    assert_eq!(segments.len(), 2);
    assert_eq!(segments[0].text, "man walks");
    assert_eq!(segments[1].text, "man runs");
    assert_eq!(w(&segments[0]), 1.0);
}
