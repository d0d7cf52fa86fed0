use comfy_executor::prompt_parser::Weight;
use comfy_executor::relay::{
    active_speech_text, combined_prompt_text, join_segment_texts, quoted_word_count,
    relay_segments, smart_relay, token_count,
};

#[test]
fn conditioning_text_joins_local_parts() {
    assert_eq!(combined_prompt_text("g", "a | b |  | c "), "g a b c");
    assert_eq!(combined_prompt_text("g", ""), "g");
    assert_eq!(combined_prompt_text("g", " | "), "g");
    assert_eq!(combined_prompt_text("", "x"), " x");
    assert_eq!(combined_prompt_text("a cat", "runs|jumps"), "a cat runs jumps");
}

#[test]
fn relay_segments_default_to_a_video() {
    let segs = relay_segments("");
    assert_eq!(segs.len(), 1);
    assert_eq!(segs[0].text, "a video");
    assert_eq!(segs[0].weight, Weight::Unit);
    let segs = relay_segments("one | two [3]");
    assert_eq!(segs.len(), 2);
    assert_eq!(join_segment_texts(&segs), "one | two");
}

#[test]
fn smart_relay_fills_global_prompt() {
    let r = smart_relay("", "one | two");
    assert_eq!(r.global_prompt, "one");
    assert_eq!(r.local_prompts, "one | two");
    assert_eq!(r.combined_text, "one one two");
    assert_eq!(r.segments.len(), 2);
    let r = smart_relay("G", "x");
    assert_eq!(r.global_prompt, "G");
    assert_eq!(r.combined_text, "G x");
    let r = smart_relay("", "  ");
    assert_eq!(r.global_prompt, "a video");
    assert_eq!(r.combined_text, "a video a video");
}

#[test]
fn token_counts() {
    assert_eq!(token_count(""), 1);
    assert_eq!(token_count("   "), 1);
    assert_eq!(token_count("a b  c"), 3);
}

#[test]
fn quoted_words() {
    assert_eq!(quoted_word_count(r#"He said "hello there" and 'bye'"#), 3);
    assert_eq!(quoted_word_count(r#""abc"#), 0);
    assert_eq!(quoted_word_count(r#"it's "a b""#), 2);
    assert_eq!(quoted_word_count(r#"'a "b' c""#), 2);
    assert_eq!(quoted_word_count("no quotes here"), 0);
    assert_eq!(quoted_word_count(r#""  ""#), 0);
}

#[test]
fn speech_text_choice() {
    assert_eq!(active_speech_text("t".to_string(), Some("  ".to_string())), "t");
    assert_eq!(active_speech_text("t".to_string(), Some("x".to_string())), "x");
    assert_eq!(active_speech_text("t".to_string(), None), "t");
}
