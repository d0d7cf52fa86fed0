//! Media files: the names of saved outputs (the file of each saved image,
//! the extension and file name of saved audio and video), and the frame
//! span of a loaded video.

use vstd::prelude::*;
use vstd::string::StringExecFns;
use crate::text::{decimal, push_char, push_decimal, str_eq, chars_of};

verus! {

/// `digits` padded with leading zeros to at least `width` characters
/// (`{:0width$}`).
pub open spec fn zero_padded(digits: Seq<char>, width: nat) -> Seq<char> {
    if digits.len() >= width {
        digits
    } else {
        Seq::new((width - digits.len()) as nat, |i: int| '0') + digits
    }
}

/// The file a saved image gets: the prefix, `_`, its index in five or more
/// digits, `.png`.
pub open spec fn image_filename_of(prefix: Seq<char>, index: nat) -> Seq<char> {
    prefix + "_"@ + zero_padded(decimal(index), 5) + ".png"@
}

/// The file a saved image gets (see [`image_filename_of`]).
pub fn image_filename(prefix: &str, index: u64) -> (r: String)
    ensures
        r@ == image_filename_of(prefix@, index as nat),
{
    let mut digits = String::new();
    push_decimal(&mut digits, index);
    let n = chars_of(digits.as_str()).len();
    let mut r = String::from_str(prefix);
    r.append("_");
    let ghost base = r@;
    let mut k: usize = n;
    while k < 5
        invariant
            n == decimal(index as nat).len(),
            n <= k <= 5 || (n > 5 && k == n),
            r@ == base + Seq::new((k - n) as nat, |i: int| '0'),
        decreases 5 - k,
    {
        push_char(&mut r, '0');
        assert(r@ =~= base + Seq::new((k + 1 - n) as nat, |i: int| '0'));
        k = k + 1;
    }
    r.append(digits.as_str());
    r.append(".png");
    assert(r@ =~= image_filename_of(prefix@, index as nat));
    r
}

/// The extension saved audio gets: `mp3`, `flac` or `ogg` where that is
/// the format asked for, else `wav`.
pub open spec fn audio_extension_of(format: Seq<char>) -> Seq<char> {
    if format == "mp3"@ {
        "mp3"@
    } else if format == "flac"@ {
        "flac"@
    } else if format == "ogg"@ {
        "ogg"@
    } else {
        "wav"@
    }
}

/// The extension saved audio gets (see [`audio_extension_of`]).
pub fn audio_extension(format: &str) -> (r: &'static str)
    ensures
        r@ == audio_extension_of(format@),
{
    if str_eq(format, "mp3") {
        "mp3"
    } else if str_eq(format, "flac") {
        "flac"
    } else if str_eq(format, "ogg") {
        "ogg"
    } else {
        "wav"
    }
}

/// The extension a saved video gets: `mp4` or `webm` where that is the
/// format asked for, else `gif`.
pub open spec fn video_extension_of(format: Seq<char>) -> Seq<char> {
    if format == "mp4"@ {
        "mp4"@
    } else if format == "webm"@ {
        "webm"@
    } else {
        "gif"@
    }
}

/// The extension a saved video gets (see [`video_extension_of`]).
pub fn video_extension(format: &str) -> (r: &'static str)
    ensures
        r@ == video_extension_of(format@),
{
    if str_eq(format, "mp4") {
        "mp4"
    } else if str_eq(format, "webm") {
        "webm"
    } else {
        "gif"
    }
}

/// The file saved audio or video gets: the prefix, `_`, the time stamp of
/// the save, `.`, the extension.
pub fn stamped_filename(prefix: &str, stamp: &str, extension: &str) -> (r: String)
    ensures
        r@ == prefix@ + "_"@ + stamp@ + "."@ + extension@,
{
    let mut r = String::from_str(prefix);
    r.append("_");
    r.append(stamp);
    r.append(".");
    r.append(extension);
    r
}

/// The number of frames a loaded video's span covers: from `start_frame`
/// to `end_frame` where an end is given (a positive one), else 0.
pub fn frame_span(start_frame: i32, end_frame: i32) -> (r: i32)
    requires
        end_frame > 0 ==> i32::MIN <= end_frame - start_frame <= i32::MAX,
    ensures
        r == if end_frame > 0 {
            end_frame - start_frame
        } else {
            0
        },
{
    if end_frame > 0 {
        end_frame - start_frame
    } else {
        0
    }
}

} // verus!
