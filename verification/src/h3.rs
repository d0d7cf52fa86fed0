//! The decisions of the audio-video director: which generation mode a run
//! takes, and the prompts it sends.

use vstd::prelude::*;
use vstd::string::StringExecFns;
use crate::text::{chars_of, str_eq, trim, trimmed};

verus! {

/// Generation modes: from text, from an image, from a reference video, or
/// from several references.
#[derive(Debug, Clone, Copy, PartialEq, Eq)]
pub enum H3Mode {
    T2VA,
    I2VA,
    Ref2VA,
    MR2VA,
}

/// The mode a name selects: `i2va`, `ref2va`, `mr2va`, else text.
pub open spec fn named_h3_mode(name: Seq<char>) -> H3Mode {
    if name == "i2va"@ {
        H3Mode::I2VA
    } else if name == "ref2va"@ {
        H3Mode::Ref2VA
    } else if name == "mr2va"@ {
        H3Mode::MR2VA
    } else {
        H3Mode::T2VA
    }
}

/// The mode of a run: the named one, except that a run from text becomes
/// one from an image where a reference image is given, else one from a
/// reference video where a reference video is given.
pub open spec fn h3_mode_of(name: Seq<char>, has_image: bool, has_video: bool) -> H3Mode {
    let m = named_h3_mode(name);
    let m = if has_image && m == H3Mode::T2VA {
        H3Mode::I2VA
    } else {
        m
    };
    if has_video && m == H3Mode::T2VA {
        H3Mode::Ref2VA
    } else {
        m
    }
}

/// The mode of a run (see [`h3_mode_of`]).
pub fn h3_mode(name: &str, has_reference_image: bool, has_reference_video: bool) -> (r: H3Mode)
    ensures
        r == h3_mode_of(name@, has_reference_image, has_reference_video),
{
    let m = if str_eq(name, "i2va") {
        H3Mode::I2VA
    } else if str_eq(name, "ref2va") {
        H3Mode::Ref2VA
    } else if str_eq(name, "mr2va") {
        H3Mode::MR2VA
    } else {
        H3Mode::T2VA
    };
    let m = match m {
        H3Mode::T2VA => if has_reference_image {
            H3Mode::I2VA
        } else {
            m
        },
        _ => m,
    };
    match m {
        H3Mode::T2VA => if has_reference_video {
            H3Mode::Ref2VA
        } else {
            m
        },
        _ => m,
    }
}

/// The prompt of a run with a context: the context's prompt, then `. ` and
/// the user's prompt where that is not blank.
pub open spec fn h3_prompt_of(built: Seq<char>, prompt: Seq<char>) -> Seq<char> {
    if trim(prompt).len() > 0 {
        built + ". "@ + prompt
    } else {
        built
    }
}

/// The prompt of a run with a context (see [`h3_prompt_of`]).
pub fn h3_prompt(built: &str, prompt: &str) -> (r: String)
    ensures
        r@ == h3_prompt_of(built@, prompt@),
{
    let t = trimmed(&chars_of(prompt));
    let mut r = String::from_str(built);
    if t.len() > 0 {
        r.append(". ");
        r.append(prompt);
    }
    r
}

/// The negative prompt of a run with a context: the run's, then `. ` and
/// the context's where it has a non-empty one.
pub open spec fn h3_negative_of(negative: Seq<char>, context_negative: Option<Seq<char>>) -> Seq<
    char,
> {
    match context_negative {
        Some(n) => if n.len() > 0 {
            negative + ". "@ + n
        } else {
            negative
        },
        None => negative,
    }
}

/// The negative prompt of a run with a context (see [`h3_negative_of`]).
pub fn h3_negative(negative: &str, context_negative: Option<&str>) -> (r: String)
    ensures
        r@ == h3_negative_of(
            negative@,
            match context_negative {
                Some(n) => Some(n@),
                None => None,
            },
        ),
{
    let mut r = String::from_str(negative);
    match context_negative {
        Some(n) => {
            if !n.is_empty() {
                r.append(". ");
                r.append(n);
            }
        },
        None => {},
    }
    r
}

} // verus!
