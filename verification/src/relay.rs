//! The text side of the prompt relay nodes: the conditioning text made of a
//! global prompt and `|`-separated local prompts, the segments a smart
//! prompt gives the encoder, and the words a speech length is counted from.

use vstd::prelude::*;
use vstd::string::StringExecFns;
use crate::text::{chars_of, joined, push_item, string_of, sub_vec, trim, trimmed};
use crate::prompt_parser::{
    count_words, find_char, find_char_exec, lemma_find_char, lemma_segments_are_trimmed,
    parse_smart_prompt, smart_segments, views, word_count, Segment, SegmentView, Weight,
    WeightView, all_trimmed, well_trimmed,
};

verus! {

/// The trimmed, non-empty `|`-separated parts of `s[i..]`.
pub open spec fn local_parts_from(s: Seq<char>, i: int) -> Seq<Seq<char>>
    decreases s.len() - i,
{
    if i < 0 || i > s.len() {
        Seq::empty()
    } else {
        let j = find_char(s, i, '|');
        let p = trim(s.subrange(i, j));
        let here = if p.len() == 0 {
            Seq::<Seq<char>>::empty()
        } else {
            seq![p]
        };
        if i <= j < s.len() {
            here + local_parts_from(s, j + 1)
        } else {
            here
        }
    }
}

/// The conditioning text of a relay: the global prompt, then the local
/// prompts' parts, separated by single spaces (the global prompt alone
/// where the local prompts have no part).
pub open spec fn relay_text(global: Seq<char>, local: Seq<char>) -> Seq<char> {
    let parts = local_parts_from(local, 0);
    if parts.len() == 0 {
        global
    } else {
        global + " "@ + joined(parts, " "@)
    }
}

/// The conditioning text of a relay (see [`relay_text`]).
pub fn combined_prompt_text(global: &str, local: &str) -> (r: String)
    ensures
        r@ == relay_text(global@, local@),
{
    let v = chars_of(local);
    let n = v.len();
    let mut parts = String::new();
    let ghost mut done: Seq<Seq<char>> = Seq::empty();
    let mut any = false;
    let mut i: usize = 0;
    loop
        invariant_except_break
            i <= n == v@.len(),
            done + local_parts_from(v@, i as int) == local_parts_from(v@, 0),
            parts@ == joined(done, " "@),
            any == (done.len() > 0),
        ensures
            done == local_parts_from(v@, 0),
            parts@ == joined(done, " "@),
            any == (done.len() > 0),
        decreases n - i,
    {
        let j = find_char_exec(&v, i, '|');
        let p = trimmed(&sub_vec(&v, i, j));
        let ghost here = if p@.len() == 0 {
            Seq::<Seq<char>>::empty()
        } else {
            seq![p@]
        };
        let ghost prev = done;
        if p.len() > 0 {
            let s = string_of(&p);
            push_item(&mut parts, Ghost(done), !any, " ", s.as_str());
            proof {
                done = done.push(p@);
            }
            any = true;
        }
        assert(done =~= prev + here);
        if j >= n {
            assert(local_parts_from(v@, i as int) == here);
            assert(done =~= prev + local_parts_from(v@, i as int));
            break;
        }
        assert(prev + local_parts_from(v@, i as int) =~= done + local_parts_from(v@, j + 1));
        i = j + 1;
    }
    if !any {
        String::from_str(global)
    } else {
        let mut r = String::from_str(global);
        r.append(" ");
        r.append(parts.as_str());
        r
    }
}

/// The segments a smart prompt gives the encoder: those it parses into,
/// or the one segment `a video` of weight 1 where there is none.
pub open spec fn relay_segment_views(p: Seq<char>) -> Seq<SegmentView> {
    if smart_segments(p).len() == 0 {
        seq![SegmentView { text: "a video"@, weight: WeightView::Unit }]
    } else {
        smart_segments(p)
    }
}

/// The segments a smart prompt gives the encoder (see
/// [`relay_segment_views`]). Parsed segments never have a blank text, so
/// none is dropped.
pub fn relay_segments(smart_prompt: &str) -> (r: Vec<Segment>)
    ensures
        views(r@) == relay_segment_views(smart_prompt@),
{
    let segs = parse_smart_prompt(smart_prompt);
    if segs.len() == 0 {
        let r = vec![Segment { text: String::from_str("a video"), weight: Weight::Unit }];
        assert(views(r@) =~= relay_segment_views(smart_prompt@));
        r
    } else {
        segs
    }
}

/// The texts of segments.
pub open spec fn segment_texts(segs: Seq<SegmentView>) -> Seq<Seq<char>> {
    segs.map_values(|s: SegmentView| s.text)
}

/// The texts of `segs` joined with `" | "`: the local prompts of a smart
/// relay.
pub fn join_segment_texts(segs: &Vec<Segment>) -> (r: String)
    ensures
        r@ == joined(segment_texts(views(segs@)), " | "@),
{
    let mut out = String::new();
    let mut i: usize = 0;
    assert(segment_texts(views(segs@.subrange(0, 0))) =~= Seq::<Seq<char>>::empty());
    while i < segs.len()
        invariant
            i <= segs@.len(),
            out@ == joined(segment_texts(views(segs@.subrange(0, i as int))), " | "@),
        decreases segs@.len() - i,
    {
        let ghost before = segment_texts(views(segs@.subrange(0, i as int)));
        push_item(&mut out, Ghost(before), i == 0, " | ", segs[i].text.as_str());
        assert(segment_texts(views(segs@.subrange(0, i + 1))) =~= before.push(segs@[i as int].text@));
        i = i + 1;
    }
    assert(segs@.subrange(0, segs@.len() as int) =~= segs@);
    out
}

/// The token count a segment's weight is scaled by: its number of words,
/// at least 1.
pub open spec fn token_count_of(text: Seq<char>) -> nat {
    if word_count(text) == 0 {
        1
    } else {
        word_count(text)
    }
}

/// The token count of a segment text (see [`token_count_of`]).
pub fn token_count(text: &str) -> (r: usize)
    ensures
        r == token_count_of(text@),
{
    let n = count_words(&chars_of(text));
    if n == 0 {
        1
    } else {
        n
    }
}

/// What a smart relay encodes: its segments, the local prompts made of
/// their texts, the global prompt, and the conditioning text.
pub struct SmartRelay {
    pub segments: Vec<Segment>,
    pub local_prompts: String,
    pub global_prompt: String,
    pub combined_text: String,
}

/// The prompts of a smart relay: the segments of `smart_prompt` (see
/// [`relay_segment_views`]), their texts joined with `" | "` as the local
/// prompts, `global_prompt` or, where it is empty, the first segment's
/// text, and the conditioning text of these.
pub fn smart_relay(global_prompt: &str, smart_prompt: &str) -> (r: SmartRelay)
    ensures
        views(r.segments@) == relay_segment_views(smart_prompt@),
        r.local_prompts@ == joined(segment_texts(relay_segment_views(smart_prompt@)), " | "@),
        r.global_prompt@ == if global_prompt@.len() == 0 {
            relay_segment_views(smart_prompt@)[0].text
        } else {
            global_prompt@
        },
        r.combined_text@ == relay_text(r.global_prompt@, r.local_prompts@),
{
    let segments = relay_segments(smart_prompt);
    let local_prompts = join_segment_texts(&segments);
    let global = if global_prompt.is_empty() {
        segments[0].text.clone()
    } else {
        String::from_str(global_prompt)
    };
    let combined_text = combined_prompt_text(global.as_str(), local_prompts.as_str());
    SmartRelay { segments, local_prompts, global_prompt: global, combined_text }
}

/// Law: the segments a smart relay encodes are never none, and each text
/// is not empty and has no white space at either end.
pub proof fn lemma_relay_segments_trimmed(p: Seq<char>)
    ensures
        relay_segment_views(p).len() > 0,
        all_trimmed(relay_segment_views(p)),
{
    lemma_segments_are_trimmed(p);
    if smart_segments(p).len() == 0 {
        reveal_strlit("a video");
        let d = relay_segment_views(p);
        assert(d[0].text == "a video"@);
        assert(well_trimmed(d[0].text));
    }
}

// ---------------------------------------------------------------- speech

/// The number of words inside the quotations of `s[i..]`: a quotation runs
/// from a `"` or `'` to the next occurrence of the same character; an
/// opening character without a closing one quotes nothing.
pub open spec fn quoted_words_from(s: Seq<char>, i: int) -> nat
    decreases s.len() - i,
{
    if i < 0 || i >= s.len() {
        0
    } else if (s[i] == '"' || s[i] == '\'') && find_char(s, i + 1, s[i]) < s.len() {
        let j = find_char(s, i + 1, s[i]);
        proof {
            lemma_find_char(s, i + 1, s[i]);
        }
        word_count(s.subrange(i + 1, j)) + quoted_words_from(s, j + 1)
    } else {
        quoted_words_from(s, i + 1)
    }
}

/// The text a speech length is counted from: the text input where it is
/// given and not blank, else the text.
pub fn active_speech_text(text: String, text_input: Option<String>) -> (r: String)
    ensures
        r@ == match text_input {
            Some(t) => if trim(t@).len() > 0 {
                t@
            } else {
                text@
            },
            None => text@,
        },
{
    match text_input {
        Some(t) => {
            let v = trimmed(&chars_of(t.as_str()));
            if v.len() > 0 {
                t
            } else {
                text
            }
        },
        None => text,
    }
}

/// The number of quoted words of a text (see [`quoted_words_from`]).
pub fn quoted_word_count(text: &str) -> (r: usize)
    ensures
        r == quoted_words_from(text@, 0),
{
    let v = chars_of(text);
    let n = v.len();
    let mut total: usize = 0;
    let mut i: usize = 0;
    while i < n
        invariant
            i <= n == v@.len(),
            total + quoted_words_from(v@, i as int) == quoted_words_from(v@, 0),
            total <= i,
        decreases n - i,
    {
        let c = v[i];
        if c == '"' || c == '\'' {
            let j = find_char_exec(&v, i + 1, c);
            if j < n {
                let w = count_words(&sub_vec(&v, i + 1, j));
                total = total + w;
                i = j + 1;
            } else {
                i = i + 1;
            }
        } else {
            i = i + 1;
        }
    }
    total
}

} // verus!
