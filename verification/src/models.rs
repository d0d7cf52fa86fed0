//! Choosing model files: the model family a checkpoint name suggests, the
//! text encoders and VAE each family needs, the file a directory listing
//! offers for them, the directory of each kind of model, the sampler,
//! scheduler and weight type names, and the image and video files of the
//! input directory.
//!
//! The file system itself is the caller's: these functions take directory
//! listings and return the names chosen from them.

use vstd::prelude::*;
use vstd::string::StringExecFns;
use crate::error::ExecutorError;
use crate::text::{
    chars_of, contains, ends_with, has_infix, joined, push_item, has_prefix, has_suffix, lemma_lex_irreflexive,
    lemma_lex_total, lemma_lex_transitive, lex_less, lex_lt, lowercase, starts_with, str_eq,
    to_lowercase,
};

verus! {

/// Model families.
#[derive(Debug, Clone, Copy, PartialEq, Eq)]
pub enum ModelType {
    SD3,
    Flux,
    SDXL,
    SD15,
    Wan,
    LTX,
    Unknown,
}

/// The family a lower-case checkpoint name suggests: the first of `sd3`,
/// `flux`, `sdxl`, `wan`, `ltx`, and `v1`/`sd1`/`stable-diffusion-1` that it
/// contains.
pub open spec fn model_type_of(lower: Seq<char>) -> ModelType {
    if contains(lower, "sd3"@) || contains(lower, "sd3.5"@) {
        ModelType::SD3
    } else if contains(lower, "flux"@) {
        ModelType::Flux
    } else if contains(lower, "sdxl"@) {
        ModelType::SDXL
    } else if contains(lower, "wan"@) {
        ModelType::Wan
    } else if contains(lower, "ltx"@) {
        ModelType::LTX
    } else if contains(lower, "v1"@) || contains(lower, "sd1"@) || contains(
        lower,
        "stable-diffusion-1"@,
    ) {
        ModelType::SD15
    } else {
        ModelType::Unknown
    }
}

fn contains_lit(v: &Vec<char>, lit: &str) -> (r: bool)
    ensures
        r == contains(v@, lit@),
{
    has_infix(v, &chars_of(lit))
}

/// The family of a model file, from its name in any case (see [`model_type_of`]).
pub fn detect_model_type(checkpoint_name: &str) -> (r: ModelType)
    ensures
        r == model_type_of(lowercase(checkpoint_name@)),
        contains(lowercase(checkpoint_name@), "sd3"@) ==> r == ModelType::SD3,
{
    proof {
        if contains(lowercase(checkpoint_name@), "sd3"@) {
            lemma_sd3_names_are_sd3(lowercase(checkpoint_name@));
        }
    }
    let lower = to_lowercase(checkpoint_name);
    let v = chars_of(lower.as_str());
    if contains_lit(&v, "sd3") || contains_lit(&v, "sd3.5") {
        ModelType::SD3
    } else if contains_lit(&v, "flux") {
        ModelType::Flux
    } else if contains_lit(&v, "sdxl") {
        ModelType::SDXL
    } else if contains_lit(&v, "wan") {
        ModelType::Wan
    } else if contains_lit(&v, "ltx") {
        ModelType::LTX
    } else if contains_lit(&v, "v1") || contains_lit(&v, "sd1") || contains_lit(
        &v,
        "stable-diffusion-1",
    ) {
        ModelType::SD15
    } else {
        ModelType::Unknown
    }
}

/// Law: a name that mentions `sd3` anywhere (in lower case) is an SD3
/// model, whatever else it mentions.
pub proof fn lemma_sd3_names_are_sd3(lower: Seq<char>)
    requires
        contains(lower, "sd3"@),
    ensures
        model_type_of(lower) == ModelType::SD3,
{
}

/// Law: a name that mentions none of `sd3`, `flux`, `sdxl`, `wan`, `ltx`,
/// `v1`, `sd1` and `stable-diffusion-1` is of no known family, and a name
/// of a known family mentions the marker of that family.
pub proof fn lemma_model_type_markers(lower: Seq<char>)
    ensures
        model_type_of(lower) == ModelType::SD3 <==> contains(lower, "sd3"@),
        model_type_of(lower) == ModelType::Flux ==> contains(lower, "flux"@),
        model_type_of(lower) == ModelType::SDXL ==> contains(lower, "sdxl"@),
        model_type_of(lower) == ModelType::Wan ==> contains(lower, "wan"@),
        model_type_of(lower) == ModelType::LTX ==> contains(lower, "ltx"@),
        model_type_of(lower) == ModelType::SD15 ==> contains(lower, "v1"@) || contains(lower, "sd1"@)
            || contains(lower, "stable-diffusion-1"@),
        !contains(lower, "sd3"@) && !contains(lower, "flux"@) && !contains(lower, "sdxl"@) && !contains(
            lower,
            "wan"@,
        ) && !contains(lower, "ltx"@) && !contains(lower, "v1"@) && !contains(lower, "sd1"@) && !contains(
            lower,
            "stable-diffusion-1"@,
        ) ==> model_type_of(lower) == ModelType::Unknown,
{
    if contains(lower, "sd3.5"@) {
        reveal_strlit("sd3.5");
        reveal_strlit("sd3");
        let i = choose|i: int| 0 <= i && i + "sd3.5"@.len() <= lower.len() && #[trigger] lower.subrange(i, i + "sd3.5"@.len()) == "sd3.5"@;
        assert(lower.subrange(i, i + 3) =~= lower.subrange(i, i + 5).subrange(0, 3));
        assert(lower.subrange(i, i + 3) =~= "sd3"@);
    }
}

/// Law: the family markers are tried in order: a name is Flux when it
/// mentions `flux` but not `sd3`; SDXL when it mentions `sdxl` but neither
/// earlier marker; Wan, LTX and SD 1.5 (`v1`, `sd1`, `stable-diffusion-1`)
/// likewise, each only where no earlier marker occurs.
pub proof fn lemma_model_type_priority(lower: Seq<char>)
    ensures
        !contains(lower, "sd3"@) && contains(lower, "flux"@) ==> model_type_of(lower) == ModelType::Flux,
        !contains(lower, "sd3"@) && !contains(lower, "flux"@) && contains(lower, "sdxl"@) ==> model_type_of(lower)
            == ModelType::SDXL,
        !contains(lower, "sd3"@) && !contains(lower, "flux"@) && !contains(lower, "sdxl"@) && contains(
            lower,
            "wan"@,
        ) ==> model_type_of(lower) == ModelType::Wan,
        !contains(lower, "sd3"@) && !contains(lower, "flux"@) && !contains(lower, "sdxl"@) && !contains(
            lower,
            "wan"@,
        ) && contains(lower, "ltx"@) ==> model_type_of(lower) == ModelType::LTX,
        !contains(lower, "sd3"@) && !contains(lower, "flux"@) && !contains(lower, "sdxl"@) && !contains(
            lower,
            "wan"@,
        ) && !contains(lower, "ltx"@) && (contains(lower, "v1"@) || contains(lower, "sd1"@) || contains(
            lower,
            "stable-diffusion-1"@,
        )) ==> model_type_of(lower) == ModelType::SD15,
{
    lemma_model_type_markers(lower);
}

/// Law: the text encoders each family needs (CLIP-L, CLIP-G, T5-XXL): SD3
/// and a family not known all three, Flux CLIP-L and T5-XXL, SDXL CLIP-L
/// and CLIP-G, SD 1.5 CLIP-L alone, Wan T5-XXL alone, LTX none; no family
/// needs CLIP-G without CLIP-L.
pub proof fn lemma_encoders_of_families(t: ModelType)
    ensures
        encoders_needed(ModelType::SD3) == (true, true, true),
        encoders_needed(ModelType::Unknown) == (true, true, true),
        encoders_needed(ModelType::Flux) == (true, false, true),
        encoders_needed(ModelType::SDXL) == (true, true, false),
        encoders_needed(ModelType::SD15) == (true, false, false),
        encoders_needed(ModelType::Wan) == (false, false, true),
        encoders_needed(ModelType::LTX) == (false, false, false),
        encoders_needed(t).1 ==> encoders_needed(t).0,
{
}

/// Which text encoders a family needs: CLIP-L, CLIP-G, T5-XXL.
pub open spec fn encoders_needed(t: ModelType) -> (bool, bool, bool) {
    match t {
        ModelType::SD3 => (true, true, true),
        ModelType::Flux => (true, false, true),
        ModelType::SDXL => (true, true, false),
        ModelType::SD15 => (true, false, false),
        ModelType::Wan => (false, false, true),
        ModelType::LTX => (false, false, false),
        ModelType::Unknown => (true, true, true),
    }
}

/// The views of a list of string slices.
pub open spec fn str_views(v: Seq<&str>) -> Seq<Seq<char>> {
    v.map_values(|s: &str| s@)
}

/// A model weights file: its lower-case name ends in `.safetensors` or `.gguf`.
pub open spec fn is_weights_file(lower: Seq<char>) -> bool {
    ends_with(lower, ".safetensors"@) || ends_with(lower, ".gguf"@)
}

/// A file of a directory listing that a search for `patterns` accepts: a
/// weights file whose lower-case name starts with (or, `by_contains`,
/// contains) one of the patterns.
pub open spec fn is_candidate(name: Seq<char>, patterns: Seq<Seq<char>>, by_contains: bool) -> bool {
    let l = lowercase(name);
    &&& is_weights_file(l)
    &&& exists|i: int|
        0 <= i < patterns.len() && if by_contains {
            contains(l, #[trigger] patterns[i])
        } else {
            starts_with(l, #[trigger] patterns[i])
        }
}

/// `r` is the first name, in sorted order, of the candidates of `names`,
/// or `None` where there is none.
pub open spec fn first_candidate(
    names: Seq<String>,
    patterns: Seq<Seq<char>>,
    by_contains: bool,
    r: Option<String>,
) -> bool {
    match r {
        Some(n) => {
            &&& exists|i: int| 0 <= i < names.len() && (#[trigger] names[i])@ == n@ && is_candidate(names[i]@, patterns, by_contains)
            &&& forall|j: int|
                0 <= j < names.len() && is_candidate((#[trigger] names[j])@, patterns, by_contains)
                    ==> !lex_lt(names[j]@, n@)
        },
        None => forall|j: int|
            0 <= j < names.len() ==> !is_candidate((#[trigger] names[j])@, patterns, by_contains),
    }
}

fn candidate(name: &String, patterns: &Vec<&str>, by_contains: bool) -> (r: bool)
    ensures
        r == is_candidate(name@, str_views(patterns@), by_contains),
{
    let lower = to_lowercase(name.as_str());
    let l = chars_of(lower.as_str());
    if !(has_suffix(&l, &chars_of(".safetensors")) || has_suffix(&l, &chars_of(".gguf"))) {
        return false;
    }
    let mut i: usize = 0;
    while i < patterns.len()
        invariant
            i <= patterns@.len(),
            l@ == lowercase(name@),
            is_weights_file(l@),
            forall|k: int| 0 <= k < i ==> !(if by_contains {
                contains(l@, #[trigger] str_views(patterns@)[k])
            } else {
                starts_with(l@, #[trigger] str_views(patterns@)[k])
            }),
        decreases patterns@.len() - i,
    {
        let p = chars_of(patterns[i]);
        let hit = if by_contains {
            has_infix(&l, &p)
        } else {
            has_prefix(&l, &p)
        };
        assert(str_views(patterns@)[i as int] == p@);
        if hit {
            return true;
        }
        i = i + 1;
    }
    false
}

/// The first candidate of a listing in sorted order (see [`first_candidate`]).
fn least_candidate(names: &Vec<String>, patterns: &Vec<&str>, by_contains: bool) -> (r: Option<
    String,
>)
    ensures
        first_candidate(names@, str_views(patterns@), by_contains, r),
{
    let ghost pats = str_views(patterns@);
    let mut best: Option<usize> = None;
    let mut i: usize = 0;
    while i < names.len()
        invariant
            pats == str_views(patterns@),
            i <= names@.len(),
            match best {
                Some(b) => b < i && is_candidate(names@[b as int]@, pats, by_contains) && forall|j: int|
                    0 <= j < i && is_candidate((#[trigger] names@[j])@, pats, by_contains)
                        ==> !lex_lt(names@[j]@, names@[b as int]@),
                None => forall|j: int| 0 <= j < i ==> !is_candidate((#[trigger] names@[j])@, pats, by_contains),
            },
        decreases names@.len() - i,
    {
        if candidate(&names[i], patterns, by_contains) {
            match best {
                None => {
                    proof {
                        lemma_lex_irreflexive(names@[i as int]@);
                    }
                    best = Some(i);
                },
                Some(b) => {
                    let nb = chars_of(names[b].as_str());
                    let ni = chars_of(names[i].as_str());
                    if lex_less(&ni, &nb) {
                        proof {
                            assert forall|j: int|
                                0 <= j < i + 1 && is_candidate((#[trigger] names@[j])@, pats, by_contains)
                                    implies !lex_lt(names@[j]@, names@[i as int]@) by {
                                if j == i {
                                    lemma_lex_irreflexive(names@[i as int]@);
                                } else if lex_lt(names@[j]@, names@[i as int]@) {
                                    lemma_lex_transitive(names@[j]@, names@[i as int]@, names@[b as int]@);
                                }
                            }
                        }
                        best = Some(i);
                    }
                },
            }
        }
        i = i + 1;
    }
    match best {
        Some(b) => {
            let n = names[b].clone();
            assert(names@[b as int]@ == n@);
            Some(n)
        },
        None => None,
    }
}

/// The first weights file of a listing, in sorted order, whose lower-case
/// name starts with one of `prefixes`.
pub fn find_file_in_dir(names: &Vec<String>, prefixes: &Vec<&str>) -> (r: Option<String>)
    ensures
        first_candidate(names@, str_views(prefixes@), false, r),
{
    least_candidate(names, prefixes, false)
}

/// The first weights file of a listing, in sorted order, whose lower-case
/// name contains one of `substrings`.
pub fn find_file_in_dir_contains(names: &Vec<String>, substrings: &Vec<&str>) -> (r: Option<String>)
    ensures
        first_candidate(names@, str_views(substrings@), true, r),
{
    least_candidate(names, substrings, true)
}

/// The text encoder files a family needs, from the listing of the text
/// encoder directory: CLIP-L (`clip_l…`), CLIP-G (`clip_g…`), T5-XXL
/// (`t5xxl…`); `None` for an encoder that the family does not need.
pub fn auto_detect_text_encoders(model_type: ModelType, te_files: &Vec<String>) -> (r: (
    Option<String>,
    Option<String>,
    Option<String>,
))
    ensures
        if encoders_needed(model_type).0 {
            first_candidate(te_files@, seq!["clip_l"@], false, r.0)
        } else {
            r.0 is None
        },
        if encoders_needed(model_type).1 {
            first_candidate(te_files@, seq!["clip_g"@], false, r.1)
        } else {
            r.1 is None
        },
        if encoders_needed(model_type).2 {
            first_candidate(te_files@, seq!["t5xxl"@], false, r.2)
        } else {
            r.2 is None
        },
{
    let (need_l, need_g, need_t5) = match model_type {
        ModelType::SD3 => (true, true, true),
        ModelType::Flux => (true, false, true),
        ModelType::SDXL => (true, true, false),
        ModelType::SD15 => (true, false, false),
        ModelType::Wan => (false, false, true),
        ModelType::LTX => (false, false, false),
        ModelType::Unknown => (true, true, true),
    };
    let pl = vec!["clip_l"];
    let pg = vec!["clip_g"];
    let pt = vec!["t5xxl"];
    assert(str_views(pl@) =~= seq!["clip_l"@]);
    assert(str_views(pg@) =~= seq!["clip_g"@]);
    assert(str_views(pt@) =~= seq!["t5xxl"@]);
    let a = if need_l {
        find_file_in_dir(te_files, &pl)
    } else {
        None
    };
    let b = if need_g {
        find_file_in_dir(te_files, &pg)
    } else {
        None
    };
    let c = if need_t5 {
        find_file_in_dir(te_files, &pt)
    } else {
        None
    };
    (a, b, c)
}

/// The VAE file patterns of each family, and whether they are looked for
/// anywhere in the name (else as its start).
pub open spec fn vae_patterns(t: ModelType) -> (Seq<Seq<char>>, bool) {
    match t {
        ModelType::LTX => (seq!["video_vae"@, "video-vae"@], true),
        ModelType::SD3 | ModelType::Flux => (seq!["sd3_vae"@, "flux_vae"@, "ae"@], false),
        ModelType::SDXL | ModelType::SD15 => (seq!["sdxl_vae"@, "vae"@], false),
        ModelType::Wan => (seq!["wan_vae"@], false),
        ModelType::Unknown => (seq!["sd3_vae"@, "flux_vae"@, "sdxl_vae"@, "vae"@, "ae"@], false),
    }
}

/// The VAE file for a family, from the listing of the VAE directory.
pub fn auto_detect_vae(model_type: ModelType, vae_files: &Vec<String>) -> (r: Option<String>)
    ensures
        first_candidate(vae_files@, vae_patterns(model_type).0, vae_patterns(model_type).1, r),
{
    match model_type {
        ModelType::LTX => {
            let p = vec!["video_vae", "video-vae"];
            assert(str_views(p@) =~= vae_patterns(model_type).0);
            find_file_in_dir_contains(vae_files, &p)
        },
        ModelType::SD3 | ModelType::Flux => {
            let p = vec!["sd3_vae", "flux_vae", "ae"];
            assert(str_views(p@) =~= vae_patterns(model_type).0);
            find_file_in_dir(vae_files, &p)
        },
        ModelType::SDXL | ModelType::SD15 => {
            let p = vec!["sdxl_vae", "vae"];
            assert(str_views(p@) =~= vae_patterns(model_type).0);
            find_file_in_dir(vae_files, &p)
        },
        ModelType::Wan => {
            let p = vec!["wan_vae"];
            assert(str_views(p@) =~= vae_patterns(model_type).0);
            find_file_in_dir(vae_files, &p)
        },
        ModelType::Unknown => {
            let p = vec!["sd3_vae", "flux_vae", "sdxl_vae", "vae", "ae"];
            assert(str_views(p@) =~= vae_patterns(model_type).0);
            find_file_in_dir(vae_files, &p)
        },
    }
}


/// A VAE file for a family, as the family's VAE search accepts it: a
/// weights file whose lower-case name contains `video_vae` or `video-vae`
/// (LTX), or starts with `sd3_vae`, `flux_vae` or `ae` (SD3, Flux), with
/// `sdxl_vae` or `vae` (SDXL, SD 1.5), with `wan_vae` (Wan), or with any of
/// `sd3_vae`, `flux_vae`, `sdxl_vae`, `vae` and `ae` (a family not known).
pub open spec fn is_vae_file_for(t: ModelType, name: Seq<char>) -> bool {
    let l = lowercase(name);
    is_weights_file(l) && match t {
        ModelType::LTX => contains(l, "video_vae"@) || contains(l, "video-vae"@),
        ModelType::SD3 | ModelType::Flux => starts_with(l, "sd3_vae"@) || starts_with(l, "flux_vae"@)
            || starts_with(l, "ae"@),
        ModelType::SDXL | ModelType::SD15 => starts_with(l, "sdxl_vae"@) || starts_with(l, "vae"@),
        ModelType::Wan => starts_with(l, "wan_vae"@),
        ModelType::Unknown => starts_with(l, "sd3_vae"@) || starts_with(l, "flux_vae"@) || starts_with(
            l,
            "sdxl_vae"@,
        ) || starts_with(l, "vae"@) || starts_with(l, "ae"@),
    }
}

proof fn lemma_vae_candidate(t: ModelType, name: Seq<char>)
    ensures
        is_candidate(name, vae_patterns(t).0, vae_patterns(t).1) <==> is_vae_file_for(t, name),
{
    let p = vae_patterns(t).0;
    match t {
        ModelType::LTX => {
            assert(p[0] == "video_vae"@ && p[1] == "video-vae"@ && p.len() == 2 && vae_patterns(t).1);
        },
        ModelType::SD3 | ModelType::Flux => {
            assert(p[0] == "sd3_vae"@ && p[1] == "flux_vae"@ && p[2] == "ae"@ && p.len() == 3);
        },
        ModelType::SDXL | ModelType::SD15 => {
            assert(p[0] == "sdxl_vae"@ && p[1] == "vae"@ && p.len() == 2);
        },
        ModelType::Wan => {
            assert(p[0] == "wan_vae"@ && p.len() == 1);
        },
        ModelType::Unknown => {
            assert(p[0] == "sd3_vae"@ && p[1] == "flux_vae"@ && p[2] == "sdxl_vae"@ && p[3] == "vae"@ && p[4]
                == "ae"@ && p.len() == 5);
        },
    }
}

/// Law: the VAE chosen for a family from a listing (`r`, as
/// [`auto_detect_vae`] gives it) is a file of the listing that is a VAE
/// file for the family (see [`is_vae_file_for`]; for SD 1.5 and SDXL any
/// weights file named `vae...` or `sdxl_vae...`), and the first such in
/// sorted order; there is none only where the listing has no such file.
pub proof fn lemma_vae_choice(t: ModelType, names: Seq<String>, r: Option<String>)
    requires
        first_candidate(names, vae_patterns(t).0, vae_patterns(t).1, r),
    ensures
        match r {
            Some(n) => {
                &&& exists|i: int| 0 <= i < names.len() && (#[trigger] names[i])@ == n@ && is_vae_file_for(t, names[i]@)
                &&& forall|j: int|
                    0 <= j < names.len() && is_vae_file_for(t, (#[trigger] names[j])@) ==> !lex_lt(names[j]@, n@)
            },
            None => forall|j: int| 0 <= j < names.len() ==> !is_vae_file_for(t, (#[trigger] names[j])@),
        },
{
    assert forall|j: int| 0 <= j < names.len() implies (is_candidate((#[trigger] names[j])@, vae_patterns(t).0, vae_patterns(t).1)
        <==> is_vae_file_for(t, names[j]@)) by {
        lemma_vae_candidate(t, names[j]@);
    }
}

/// The family a sampler works with: the one its model loader named
/// (`sd3`, `flux`, `sdxl`, `sd15`, `wan`, `ltx`), else the one the model
/// file's name suggests.
pub open spec fn sampler_model_type(kind: Seq<char>, file: Seq<char>) -> ModelType {
    if kind == "sd3"@ {
        ModelType::SD3
    } else if kind == "flux"@ {
        ModelType::Flux
    } else if kind == "sdxl"@ {
        ModelType::SDXL
    } else if kind == "sd15"@ {
        ModelType::SD15
    } else if kind == "wan"@ {
        ModelType::Wan
    } else if kind == "ltx"@ {
        ModelType::LTX
    } else {
        model_type_of(lowercase(file))
    }
}

/// The family a sampler works with (see [`sampler_model_type`]): `kind` is
/// the loader's `model_type`, `file` the model file's path.
pub fn model_type_for(kind: &str, file: &str) -> (r: ModelType)
    ensures
        r == sampler_model_type(kind@, file@),
{
    if str_eq(kind, "sd3") {
        ModelType::SD3
    } else if str_eq(kind, "flux") {
        ModelType::Flux
    } else if str_eq(kind, "sdxl") {
        ModelType::SDXL
    } else if str_eq(kind, "sd15") {
        ModelType::SD15
    } else if str_eq(kind, "wan") {
        ModelType::Wan
    } else if str_eq(kind, "ltx") {
        ModelType::LTX
    } else {
        detect_model_type(file)
    }
}

/// The files a sampler loads besides the model: the three text encoders
/// and the VAE.
#[derive(Debug, Clone)]
pub struct SupportFiles {
    pub clip_l: Option<String>,
    pub clip_g: Option<String>,
    pub t5xxl: Option<String>,
    pub vae: Option<String>,
}

/// Completes a sampler's support files: a path that the configuration
/// gives is kept; a missing text encoder is looked for in the listing of
/// the text encoder directory, a missing VAE in that of the VAE directory.
pub fn complete_support_files(
    model_type: ModelType,
    given: SupportFiles,
    te_files: &Vec<String>,
    vae_files: &Vec<String>,
) -> (r: SupportFiles)
    ensures
        given.clip_l is Some ==> r.clip_l == given.clip_l,
        given.clip_l is None ==> if encoders_needed(model_type).0 {
            first_candidate(te_files@, seq!["clip_l"@], false, r.clip_l)
        } else {
            r.clip_l is None
        },
        given.clip_g is Some ==> r.clip_g == given.clip_g,
        given.clip_g is None ==> if encoders_needed(model_type).1 {
            first_candidate(te_files@, seq!["clip_g"@], false, r.clip_g)
        } else {
            r.clip_g is None
        },
        given.t5xxl is Some ==> r.t5xxl == given.t5xxl,
        given.t5xxl is None ==> if encoders_needed(model_type).2 {
            first_candidate(te_files@, seq!["t5xxl"@], false, r.t5xxl)
        } else {
            r.t5xxl is None
        },
        given.vae is Some ==> r.vae == given.vae,
        given.vae is None ==> first_candidate(
            vae_files@,
            vae_patterns(model_type).0,
            vae_patterns(model_type).1,
            r.vae,
        ),
{
    let (l, g, t) = if given.clip_l.is_none() || given.clip_g.is_none() || given.t5xxl.is_none() {
        auto_detect_text_encoders(model_type, te_files)
    } else {
        (None, None, None)
    };
    let clip_l = match given.clip_l {
        Some(p) => Some(p),
        None => l,
    };
    let clip_g = match given.clip_g {
        Some(p) => Some(p),
        None => g,
    };
    let t5xxl = match given.t5xxl {
        Some(p) => Some(p),
        None => t,
    };
    let vae = match given.vae {
        Some(p) => Some(p),
        None => auto_detect_vae(model_type, vae_files),
    };
    SupportFiles { clip_l, clip_g, t5xxl, vae }
}

/// The clip type a CLIP loader works with: the one given, or, where none
/// is, the one the file's name suggests in any case (`t5`: `sd3`,
/// `clip_g`: `stable_cascade`, else `stable_diffusion`).
pub open spec fn clip_type_of(given: Seq<char>, name: Seq<char>) -> Seq<char> {
    if given.len() > 0 {
        given
    } else if contains(lowercase(name), "t5"@) {
        "sd3"@
    } else if contains(lowercase(name), "clip_g"@) {
        "stable_cascade"@
    } else {
        "stable_diffusion"@
    }
}

/// The text encoders.
#[derive(Debug, Clone, Copy, PartialEq, Eq)]
pub enum EncoderSlot {
    ClipL,
    ClipG,
    T5xxl,
}

/// The encoder a CLIP file is, for its clip type: CLIP-L for
/// `stable_diffusion`, CLIP-G for `stable_cascade`, T5-XXL for `sd3`,
/// `flux` and `wan`; for another type, by the file's name in any case
/// (`t5`: T5-XXL, `clip_g`: CLIP-G, else CLIP-L).
pub open spec fn clip_slot_of(clip_type: Seq<char>, name: Seq<char>) -> EncoderSlot {
    if clip_type == "stable_diffusion"@ {
        EncoderSlot::ClipL
    } else if clip_type == "stable_cascade"@ {
        EncoderSlot::ClipG
    } else if clip_type == "sd3"@ || clip_type == "flux"@ || clip_type == "wan"@ {
        EncoderSlot::T5xxl
    } else if contains(lowercase(name), "t5"@) {
        EncoderSlot::T5xxl
    } else if contains(lowercase(name), "clip_g"@) {
        EncoderSlot::ClipG
    } else {
        EncoderSlot::ClipL
    }
}

/// The support files holding one encoder file in one slot.
pub open spec fn in_slot(slot: EncoderSlot, path: String) -> SupportFiles {
    SupportFiles {
        clip_l: if slot == EncoderSlot::ClipL {
            Some(path)
        } else {
            None
        },
        clip_g: if slot == EncoderSlot::ClipG {
            Some(path)
        } else {
            None
        },
        t5xxl: if slot == EncoderSlot::T5xxl {
            Some(path)
        } else {
            None
        },
        vae: None,
    }
}

/// What a CLIP loader gives: its clip type (see [`clip_type_of`]; `type_given`
/// is the node's `type`, empty where none is given) and the file at
/// `clip_path` in its slot (see [`clip_slot_of`]).
pub fn clip_loader(type_given: &str, clip_name: &str, clip_path: String) -> (r: (String, SupportFiles))
    ensures
        r.0@ == clip_type_of(type_given@, clip_name@),
        r.1 == in_slot(clip_slot_of(r.0@, clip_name@), clip_path),
{
    let lower = to_lowercase(clip_name);
    let l = chars_of(lower.as_str());
    let has_t5 = has_infix(&l, &chars_of("t5"));
    let has_g = has_infix(&l, &chars_of("clip_g"));
    let clip_type = if !type_given.is_empty() {
        String::from_str(type_given)
    } else if has_t5 {
        String::from_str("sd3")
    } else if has_g {
        String::from_str("stable_cascade")
    } else {
        String::from_str("stable_diffusion")
    };
    let t = clip_type.as_str();
    let slot = if str_eq(t, "stable_diffusion") {
        EncoderSlot::ClipL
    } else if str_eq(t, "stable_cascade") {
        EncoderSlot::ClipG
    } else if str_eq(t, "sd3") || str_eq(t, "flux") || str_eq(t, "wan") {
        EncoderSlot::T5xxl
    } else if has_t5 {
        EncoderSlot::T5xxl
    } else if has_g {
        EncoderSlot::ClipG
    } else {
        EncoderSlot::ClipL
    };
    let files = match slot {
        EncoderSlot::ClipL => SupportFiles { clip_l: Some(clip_path), clip_g: None, t5xxl: None, vae: None },
        EncoderSlot::ClipG => SupportFiles { clip_l: None, clip_g: Some(clip_path), t5xxl: None, vae: None },
        EncoderSlot::T5xxl => SupportFiles { clip_l: None, clip_g: None, t5xxl: Some(clip_path), vae: None },
    };
    (clip_type, files)
}

/// The slots a dual CLIP loader fills with its two files, by clip type:
/// `sdxl` CLIP-L and CLIP-G; `flux` CLIP-L and T5-XXL; `sd3` the first file
/// as CLIP-L and CLIP-G, the second as T5-XXL; `wan` only T5-XXL, from the
/// second; any other CLIP-L and CLIP-G.
pub open spec fn dual_clip_files(clip_type: Seq<char>, first: String, second: String) -> SupportFiles {
    if clip_type == "flux"@ {
        SupportFiles { clip_l: Some(first), clip_g: None, t5xxl: Some(second), vae: None }
    } else if clip_type == "sd3"@ {
        SupportFiles { clip_l: Some(first), clip_g: Some(first), t5xxl: Some(second), vae: None }
    } else if clip_type == "wan"@ {
        SupportFiles { clip_l: None, clip_g: None, t5xxl: Some(second), vae: None }
    } else {
        SupportFiles { clip_l: Some(first), clip_g: Some(second), t5xxl: None, vae: None }
    }
}

/// What a dual CLIP loader gives (see [`dual_clip_files`]).
pub fn dual_clip_loader(clip_type: &str, first: String, second: String) -> (r: SupportFiles)
    ensures
        r == dual_clip_files(clip_type@, first, second),
{
    if str_eq(clip_type, "flux") {
        SupportFiles { clip_l: Some(first), clip_g: None, t5xxl: Some(second), vae: None }
    } else if str_eq(clip_type, "sd3") {
        let g = first.clone();
        SupportFiles { clip_l: Some(first), clip_g: Some(g), t5xxl: Some(second), vae: None }
    } else if str_eq(clip_type, "wan") {
        SupportFiles { clip_l: None, clip_g: None, t5xxl: Some(second), vae: None }
    } else {
        SupportFiles { clip_l: Some(first), clip_g: Some(second), t5xxl: None, vae: None }
    }
}

/// Which text encoders the image sampler asks for: as
/// [`encoders_needed`], except that a family without a row of its own in
/// the sampler's table (`LTX`, which takes the video path) asks for all three.
pub open spec fn sampler_encoders_needed(t: ModelType) -> (bool, bool, bool) {
    match t {
        ModelType::LTX => (true, true, true),
        _ => encoders_needed(t),
    }
}

/// The needed text encoders that are missing, in the order `clip_l`,
/// `clip_g`, `t5xxl`.
pub open spec fn missing_encoder_names(t: ModelType, has_l: bool, has_g: bool, has_t5: bool) -> Seq<
    Seq<char>,
> {
    let need = sampler_encoders_needed(t);
    (if need.0 && !has_l {
        seq!["clip_l"@]
    } else {
        Seq::empty()
    }) + (if need.1 && !has_g {
        seq!["clip_g"@]
    } else {
        Seq::empty()
    }) + (if need.2 && !has_t5 {
        seq!["t5xxl"@]
    } else {
        Seq::empty()
    })
}

/// The name of a family as the error messages write it.
pub open spec fn model_type_name(t: ModelType) -> Seq<char> {
    match t {
        ModelType::SD3 => "SD3"@,
        ModelType::Flux => "Flux"@,
        ModelType::SDXL => "SDXL"@,
        ModelType::SD15 => "SD15"@,
        ModelType::Wan => "Wan"@,
        ModelType::LTX => "LTX"@,
        ModelType::Unknown => "Unknown"@,
    }
}

/// The message of a sampler whose family lacks the text encoders `names`.
pub open spec fn missing_encoders_message(t: ModelType, names: Seq<Seq<char>>) -> Seq<char> {
    model_type_name(t) + " model requires text encoders ["@ + joined(names, ", "@)
        + "] but they are missing. Please download them to models/text_encoders/ directory."@
}

fn push_model_type_name(s: &mut String, t: ModelType)
    ensures
        final(s)@ == old(s)@ + model_type_name(t),
{
    match t {
        ModelType::SD3 => s.append("SD3"),
        ModelType::Flux => s.append("Flux"),
        ModelType::SDXL => s.append("SDXL"),
        ModelType::SD15 => s.append("SD15"),
        ModelType::Wan => s.append("Wan"),
        ModelType::LTX => s.append("LTX"),
        ModelType::Unknown => s.append("Unknown"),
    }
}

/// Refuses a sampler run whose family lacks needed text encoders: `Ok`
/// where none is missing, else `NodeExecutionFailed` on `node_id` with
/// [`missing_encoders_message`].
pub fn check_text_encoders(node_id: &str, model_type: ModelType, files: &SupportFiles) -> (r: Result<
    (),
    ExecutorError,
>)
    ensures
        ({
            let names = missing_encoder_names(
                model_type,
                files.clip_l is Some,
                files.clip_g is Some,
                files.t5xxl is Some,
            );
            match r {
                Ok(_) => names.len() == 0,
                Err(e) => {
                    &&& names.len() > 0
                    &&& e matches ExecutorError::NodeExecutionFailed { node_id: n, message: m }
                        && n@ == node_id@ && m@ == missing_encoders_message(model_type, names)
                },
            }
        }),
{
    let (need_l, need_g, need_t5) = match model_type {
        ModelType::SD3 => (true, true, true),
        ModelType::Flux => (true, false, true),
        ModelType::SDXL => (true, true, false),
        ModelType::SD15 => (true, false, false),
        ModelType::Wan => (false, false, true),
        _ => (true, true, true),
    };
    let ghost mut names: Seq<Seq<char>> = Seq::empty();
    let mut list = String::new();
    let mut count: usize = 0;
    if need_l && files.clip_l.is_none() {
        push_item(&mut list, Ghost(names), count == 0, ", ", "clip_l");
        proof {
            names = names.push("clip_l"@);
        }
        count = count + 1;
    }
    if need_g && files.clip_g.is_none() {
        push_item(&mut list, Ghost(names), count == 0, ", ", "clip_g");
        proof {
            names = names.push("clip_g"@);
        }
        count = count + 1;
    }
    if need_t5 && files.t5xxl.is_none() {
        push_item(&mut list, Ghost(names), count == 0, ", ", "t5xxl");
        proof {
            names = names.push("t5xxl"@);
        }
        count = count + 1;
    }
    assert(names =~= missing_encoder_names(
        model_type,
        files.clip_l is Some,
        files.clip_g is Some,
        files.t5xxl is Some,
    ));
    if count == 0 {
        Ok(())
    } else {
        let mut m = String::new();
        push_model_type_name(&mut m, model_type);
        m.append(" model requires text encoders [");
        m.append(list.as_str());
        m.append("] but they are missing. Please download them to models/text_encoders/ directory.");
        Err(ExecutorError::NodeExecutionFailed { node_id: String::from_str(node_id), message: m })
    }
}

/// The family the Wan sampler works with: the one its model loader named
/// (`sd3`, `flux`, `sdxl`, `sd15`), else Wan.
pub open spec fn wan_sampler_model_type(kind: Seq<char>) -> ModelType {
    if kind == "sd3"@ {
        ModelType::SD3
    } else if kind == "flux"@ {
        ModelType::Flux
    } else if kind == "sdxl"@ {
        ModelType::SDXL
    } else if kind == "sd15"@ {
        ModelType::SD15
    } else {
        ModelType::Wan
    }
}

/// The family the Wan sampler works with (see [`wan_sampler_model_type`]).
pub fn wan_model_type_for(kind: &str) -> (r: ModelType)
    ensures
        r == wan_sampler_model_type(kind@),
{
    if str_eq(kind, "sd3") {
        ModelType::SD3
    } else if str_eq(kind, "flux") {
        ModelType::Flux
    } else if str_eq(kind, "sdxl") {
        ModelType::SDXL
    } else if str_eq(kind, "sd15") {
        ModelType::SD15
    } else {
        ModelType::Wan
    }
}

/// Refuses a Wan sampler run without a T5-XXL encoder: `Ok` where the
/// support files have one, else `NodeExecutionFailed` on `node_id`.
pub fn check_wan_encoder(node_id: &str, files: &SupportFiles) -> (r: Result<(), ExecutorError>)
    ensures
        r is Ok <==> files.t5xxl is Some,
        r matches Err(e) ==> (e matches ExecutorError::NodeExecutionFailed { node_id: n, message: m }
            && n@ == node_id@ && m@ == "Wan model requires t5xxl text encoder but it is missing."@),
{
    if files.t5xxl.is_some() {
        Ok(())
    } else {
        Err(
            ExecutorError::NodeExecutionFailed {
                node_id: String::from_str(node_id),
                message: String::from_str("Wan model requires t5xxl text encoder but it is missing."),
            },
        )
    }
}

/// A list of strings in [`lex_lt`] order (equal ones in any order).
pub open spec fn sorted(v: Seq<String>) -> bool {
    forall|i: int, j: int| 0 <= i < j < v.len() ==> !lex_lt((#[trigger] v[j])@, (#[trigger] v[i])@)
}

/// The strings of `v` in sorted order (`sort`): a sorted permutation.
pub fn sort_strings(v: Vec<String>) -> (r: Vec<String>)
    ensures
        sorted(r@),
        r@.to_multiset() == v@.to_multiset(),
{
    broadcast use vstd::seq_lib::to_multiset_insert, vstd::seq_lib::to_multiset_build;

    let mut out: Vec<String> = Vec::new();
    let mut i: usize = 0;
    assert(v@.subrange(0, 0) =~= out@);
    while i < v.len()
        invariant
            i <= v@.len(),
            sorted(out@),
            out@.to_multiset() == v@.subrange(0, i as int).to_multiset(),
        decreases v@.len() - i,
    {
        let x = v[i].clone();
        let xc = chars_of(x.as_str());
        // the first element that `x` precedes
        let mut p: usize = 0;
        while p < out.len() && !lex_less(&xc, &chars_of(out[p].as_str()))
            invariant
                p <= out@.len(),
                xc@ == x@,
                forall|k: int| 0 <= k < p ==> !lex_lt(x@, (#[trigger] out@[k])@),
            decreases out@.len() - p,
        {
            p = p + 1;
        }
        let ghost before = out@;
        proof {
            assert forall|a: int, b: int|
                0 <= a < b < before.len() + 1 implies !lex_lt(
                (#[trigger] before.insert(p as int, x)[b])@,
                (#[trigger] before.insert(p as int, x)[a])@,
            ) by {
                let s = before.insert(p as int, x);
                if b < p {
                } else if a < p && b == p {
                } else if a < p && b > p {
                    assert(s[b] == before[b - 1]);
                    assert(s[a] == before[a]);
                } else if a == p {
                    // b > p: x precedes before[p], which does not follow before[b - 1]
                    assert(s[b] == before[b - 1]);
                    assert(lex_lt(x@, before[p as int]@));
                    if lex_lt(before[b - 1]@, x@) {
                        lemma_lex_transitive(before[b - 1]@, x@, before[p as int]@);
                        if b - 1 == p {
                            lemma_lex_irreflexive(before[p as int]@);
                        } else {
                            assert(!lex_lt(before[b - 1]@, before[p as int]@));
                        }
                    }
                } else {
                    assert(s[b] == before[b - 1]);
                    assert(s[a] == before[a - 1]);
                }
            }
        }
        out.insert(p, x);
        proof {
            vstd::seq_lib::to_multiset_insert(before, p as int, x);
            assert(v@.subrange(0, i + 1) =~= v@.subrange(0, i as int).push(v@[i as int]));
            vstd::seq_lib::to_multiset_build(v@.subrange(0, i as int), v@[i as int]);
        }
        i = i + 1;
    }
    assert(v@.subrange(0, v@.len() as int) =~= v@);
    out
}

/// Does a file's lower-case name end with one of `exts`?
pub open spec fn has_ext(name: Seq<char>, exts: Seq<Seq<char>>) -> bool {
    exists|i: int| 0 <= i < exts.len() && ends_with(lowercase(name), #[trigger] exts[i])
}

/// The relative paths of the files of a listing (relative path, file name)
/// whose names have one of the extensions, in listing order.
pub open spec fn listed(files: Seq<(String, String)>, exts: Seq<Seq<char>>) -> Seq<String>
    decreases files.len(),
{
    if files.len() == 0 {
        Seq::empty()
    } else {
        let rest = listed(files.drop_last(), exts);
        if has_ext(files.last().1@, exts) {
            rest.push(files.last().0)
        } else {
            rest
        }
    }
}

/// Image file extensions of the input directory.
pub open spec fn image_exts() -> Seq<Seq<char>> {
    seq![".png"@, ".jpg"@, ".jpeg"@, ".webp"@, ".gif"@, ".bmp"@]
}

/// Video file extensions of the input directory.
pub open spec fn video_exts() -> Seq<Seq<char>> {
    seq![".gif"@, ".mp4"@, ".webm"@, ".avi"@, ".mov"@]
}

fn ext_match(name: &String, exts: &Vec<&str>) -> (r: bool)
    ensures
        r == has_ext(name@, str_views(exts@)),
{
    let lower = to_lowercase(name.as_str());
    let l = chars_of(lower.as_str());
    let mut i: usize = 0;
    while i < exts.len()
        invariant
            i <= exts@.len(),
            l@ == lowercase(name@),
            forall|k: int| 0 <= k < i ==> !ends_with(l@, #[trigger] str_views(exts@)[k]),
        decreases exts@.len() - i,
    {
        assert(str_views(exts@)[i as int] == exts@[i as int]@);
        if has_suffix(&l, &chars_of(exts[i])) {
            return true;
        }
        i = i + 1;
    }
    false
}

fn scan_listing(files: &Vec<(String, String)>, exts: &Vec<&str>) -> (r: Vec<String>)
    ensures
        sorted(r@),
        r@.to_multiset() == listed(files@, str_views(exts@)).to_multiset(),
{
    let mut found: Vec<String> = Vec::new();
    let mut i: usize = 0;
    while i < files.len()
        invariant
            i <= files@.len(),
            found@ == listed(files@.subrange(0, i as int), str_views(exts@)),
        decreases files@.len() - i,
    {
        assert(files@.subrange(0, i + 1).drop_last() =~= files@.subrange(0, i as int));
        if ext_match(&files[i].1, exts) {
            found.push(files[i].0.clone());
        }
        i = i + 1;
    }
    assert(files@.subrange(0, files@.len() as int) =~= files@);
    sort_strings(found)
}

/// The image files under the input directory, sorted: from a listing of
/// every file there (its path relative to the directory, its name), those
/// whose names end in `.png`, `.jpg`, `.jpeg`, `.webp`, `.gif` or `.bmp`,
/// in any case.
pub fn scan_input_images(files: &Vec<(String, String)>) -> (r: Vec<String>)
    ensures
        sorted(r@),
        r@.to_multiset() == listed(files@, image_exts()).to_multiset(),
{
    let exts = vec![".png", ".jpg", ".jpeg", ".webp", ".gif", ".bmp"];
    assert(str_views(exts@) =~= image_exts());
    scan_listing(files, &exts)
}

/// The video files under the input directory, sorted: those whose names
/// end in `.gif`, `.mp4`, `.webm`, `.avi` or `.mov`, in any case.
pub fn scan_input_videos(files: &Vec<(String, String)>) -> (r: Vec<String>)
    ensures
        sorted(r@),
        r@.to_multiset() == listed(files@, video_exts()).to_multiset(),
{
    let exts = vec![".gif", ".mp4", ".webm", ".avi", ".mov"];
    assert(str_views(exts@) =~= video_exts());
    scan_listing(files, &exts)
}


/// The sub-directory of the models directory that holds a kind of model:
/// `clip` and `text_encoders` share `text_encoders`; every other known kind
/// has a directory of its own name, and an unknown kind is its own name.
pub open spec fn model_subdir_of(kind: Seq<char>) -> Seq<char> {
    if kind == "clip"@ {
        "text_encoders"@
    } else {
        kind
    }
}

/// The sub-directory that holds a kind of model (see [`model_subdir_of`]).
pub fn model_subdir(model_type: &str) -> (r: String)
    ensures
        r@ == model_subdir_of(model_type@),
{
    if str_eq(model_type, "clip") {
        String::from_str("text_encoders")
    } else {
        String::from_str(model_type)
    }
}

/// Sampling methods of the inference backend.
#[allow(non_camel_case_types)]
#[derive(Debug, Clone, Copy, PartialEq, Eq)]
pub enum SampleMethod {
    Euler,
    EulerA,
    Heun,
    DPM2,
    DPMPP2SA,
    DPMPP2M,
    DPMPP2Mv2,
    IPNDM,
    IPNDMV,
    LCM,
    DDIMTrailing,
    TCD,
    ResMultistep,
    Res2S,
    ErSde,
}

/// The sampling method a sampler name selects; `euler_a` where the name is unknown.
pub open spec fn sample_method_of(name: Seq<char>) -> SampleMethod {
    if name == "euler"@ {
        SampleMethod::Euler
    } else if name == "euler_ancestral"@ {
        SampleMethod::EulerA
    } else if name == "euler_a"@ {
        SampleMethod::EulerA
    } else if name == "heun"@ {
        SampleMethod::Heun
    } else if name == "dpm_2"@ {
        SampleMethod::DPM2
    } else if name == "dpmpp_2s_ancestral"@ {
        SampleMethod::DPMPP2SA
    } else if name == "dpmpp_2m"@ {
        SampleMethod::DPMPP2M
    } else if name == "dpmpp_2m_sde"@ {
        SampleMethod::DPMPP2Mv2
    } else if name == "dpmpp_2m_v2"@ {
        SampleMethod::DPMPP2Mv2
    } else if name == "ipndm"@ {
        SampleMethod::IPNDM
    } else if name == "ipndm_v"@ {
        SampleMethod::IPNDMV
    } else if name == "lcm"@ {
        SampleMethod::LCM
    } else if name == "ddim"@ {
        SampleMethod::DDIMTrailing
    } else if name == "tcd"@ {
        SampleMethod::TCD
    } else if name == "res_multistep"@ {
        SampleMethod::ResMultistep
    } else if name == "res_2s"@ {
        SampleMethod::Res2S
    } else if name == "er_sde"@ {
        SampleMethod::ErSde
    } else {
        SampleMethod::EulerA
    }
}

/// The SampleMethod a name selects (see [`sample_method_of`]).
pub fn parse_sample_method(name: &str) -> (r: SampleMethod)
    ensures
        r == sample_method_of(name@),
{
    if str_eq(name, "euler") {
        SampleMethod::Euler
    } else if str_eq(name, "euler_ancestral") {
        SampleMethod::EulerA
    } else if str_eq(name, "euler_a") {
        SampleMethod::EulerA
    } else if str_eq(name, "heun") {
        SampleMethod::Heun
    } else if str_eq(name, "dpm_2") {
        SampleMethod::DPM2
    } else if str_eq(name, "dpmpp_2s_ancestral") {
        SampleMethod::DPMPP2SA
    } else if str_eq(name, "dpmpp_2m") {
        SampleMethod::DPMPP2M
    } else if str_eq(name, "dpmpp_2m_sde") {
        SampleMethod::DPMPP2Mv2
    } else if str_eq(name, "dpmpp_2m_v2") {
        SampleMethod::DPMPP2Mv2
    } else if str_eq(name, "ipndm") {
        SampleMethod::IPNDM
    } else if str_eq(name, "ipndm_v") {
        SampleMethod::IPNDMV
    } else if str_eq(name, "lcm") {
        SampleMethod::LCM
    } else if str_eq(name, "ddim") {
        SampleMethod::DDIMTrailing
    } else if str_eq(name, "tcd") {
        SampleMethod::TCD
    } else if str_eq(name, "res_multistep") {
        SampleMethod::ResMultistep
    } else if str_eq(name, "res_2s") {
        SampleMethod::Res2S
    } else if str_eq(name, "er_sde") {
        SampleMethod::ErSde
    } else {
        SampleMethod::EulerA
    }
}

/// Noise schedules of the inference backend.
#[allow(non_camel_case_types)]
#[derive(Debug, Clone, Copy, PartialEq, Eq)]
pub enum Scheduler {
    Discrete,
    Karras,
    Exponential,
    SgmUniform,
    Simple,
    Smoothstep,
    KlOptimal,
    Lcm,
    BongTangent,
}

/// The schedule a scheduler name selects; `Discrete` where the name is unknown.
pub open spec fn scheduler_of(name: Seq<char>) -> Scheduler {
    if name == "normal"@ {
        Scheduler::Discrete
    } else if name == "discrete"@ {
        Scheduler::Discrete
    } else if name == "karras"@ {
        Scheduler::Karras
    } else if name == "exponential"@ {
        Scheduler::Exponential
    } else if name == "ays"@ {
        Scheduler::SgmUniform
    } else if name == "sgm_uniform"@ {
        Scheduler::SgmUniform
    } else if name == "simple"@ {
        Scheduler::Simple
    } else if name == "smoothstep"@ {
        Scheduler::Smoothstep
    } else if name == "kl_optimal"@ {
        Scheduler::KlOptimal
    } else if name == "lcm"@ {
        Scheduler::Lcm
    } else if name == "bong_tangent"@ {
        Scheduler::BongTangent
    } else {
        Scheduler::Discrete
    }
}

/// The Scheduler a name selects (see [`scheduler_of`]).
pub fn parse_scheduler(name: &str) -> (r: Scheduler)
    ensures
        r == scheduler_of(name@),
{
    if str_eq(name, "normal") {
        Scheduler::Discrete
    } else if str_eq(name, "discrete") {
        Scheduler::Discrete
    } else if str_eq(name, "karras") {
        Scheduler::Karras
    } else if str_eq(name, "exponential") {
        Scheduler::Exponential
    } else if str_eq(name, "ays") {
        Scheduler::SgmUniform
    } else if str_eq(name, "sgm_uniform") {
        Scheduler::SgmUniform
    } else if str_eq(name, "simple") {
        Scheduler::Simple
    } else if str_eq(name, "smoothstep") {
        Scheduler::Smoothstep
    } else if str_eq(name, "kl_optimal") {
        Scheduler::KlOptimal
    } else if str_eq(name, "lcm") {
        Scheduler::Lcm
    } else if str_eq(name, "bong_tangent") {
        Scheduler::BongTangent
    } else {
        Scheduler::Discrete
    }
}

/// Weight types that a model can be converted to.
#[allow(non_camel_case_types)]
#[derive(Debug, Clone, Copy, PartialEq, Eq)]
pub enum SdType {
    F32,
    F16,
    BF16,
    Q4_0,
    Q4_1,
    Q5_0,
    Q5_1,
    Q8_0,
    Q8_1,
    Q2_K,
    Q3_K,
    Q4_K,
    Q5_K,
    Q6_K,
    Q8_K,
}

/// The weight type a name selects; `q8_0` where the name is unknown.
pub open spec fn sd_type_of(name: Seq<char>) -> SdType {
    if name == "f32"@ {
        SdType::F32
    } else if name == "f16"@ {
        SdType::F16
    } else if name == "bf16"@ {
        SdType::BF16
    } else if name == "q4_0"@ {
        SdType::Q4_0
    } else if name == "q4_1"@ {
        SdType::Q4_1
    } else if name == "q5_0"@ {
        SdType::Q5_0
    } else if name == "q5_1"@ {
        SdType::Q5_1
    } else if name == "q8_0"@ {
        SdType::Q8_0
    } else if name == "q8_1"@ {
        SdType::Q8_1
    } else if name == "q2_k"@ {
        SdType::Q2_K
    } else if name == "q3_k"@ {
        SdType::Q3_K
    } else if name == "q4_k"@ {
        SdType::Q4_K
    } else if name == "q5_k"@ {
        SdType::Q5_K
    } else if name == "q6_k"@ {
        SdType::Q6_K
    } else if name == "q8_k"@ {
        SdType::Q8_K
    } else {
        SdType::Q8_0
    }
}

/// The SdType a name selects (see [`sd_type_of`]).
pub fn parse_sd_type(name: &str) -> (r: SdType)
    ensures
        r == sd_type_of(name@),
{
    if str_eq(name, "f32") {
        SdType::F32
    } else if str_eq(name, "f16") {
        SdType::F16
    } else if str_eq(name, "bf16") {
        SdType::BF16
    } else if str_eq(name, "q4_0") {
        SdType::Q4_0
    } else if str_eq(name, "q4_1") {
        SdType::Q4_1
    } else if str_eq(name, "q5_0") {
        SdType::Q5_0
    } else if str_eq(name, "q5_1") {
        SdType::Q5_1
    } else if str_eq(name, "q8_0") {
        SdType::Q8_0
    } else if str_eq(name, "q8_1") {
        SdType::Q8_1
    } else if str_eq(name, "q2_k") {
        SdType::Q2_K
    } else if str_eq(name, "q3_k") {
        SdType::Q3_K
    } else if str_eq(name, "q4_k") {
        SdType::Q4_K
    } else if str_eq(name, "q5_k") {
        SdType::Q5_K
    } else if str_eq(name, "q6_k") {
        SdType::Q6_K
    } else if str_eq(name, "q8_k") {
        SdType::Q8_K
    } else {
        SdType::Q8_0
    }
}

} // verus!
