//! What the text generation node sends: the completions endpoint of a
//! server, and the command line of a local llama.cpp run.

use vstd::prelude::*;
use vstd::string::StringExecFns;
use crate::error::ExecutorError;
use crate::text::{
    chars_of, decimal, lemma_run_fwd, push_decimal, run_fwd, skip_fwd, string_of, sub_vec,
    CharClass,
};

verus! {

/// `s` without the `c`s at its end (`trim_end_matches`).
pub open spec fn strip_end(s: Seq<char>, c: char) -> Seq<char>
    decreases s.len(),
{
    if s.len() > 0 && s.last() == c {
        strip_end(s.drop_last(), c)
    } else {
        s
    }
}

/// The completions endpoint of a server: its address without trailing
/// `/`, then `/v1/completions`.
pub fn completions_url(api_url: &str) -> (r: String)
    ensures
        r@ == strip_end(api_url@, '/') + "/v1/completions"@,
{
    let v = chars_of(api_url);
    let mut n = v.len();
    assert(v@.subrange(0, n as int) =~= v@);
    while n > 0 && v[n - 1] == '/'
        invariant
            n <= v@.len(),
            strip_end(v@.subrange(0, n as int), '/') == strip_end(v@, '/'),
        decreases n,
    {
        assert(v@.subrange(0, n as int).drop_last() =~= v@.subrange(0, n - 1));
        n = n - 1;
    }
    let mut r = string_of(&sub_vec(&v, 0, n));
    r.append("/v1/completions");
    r
}

/// The white-space separated words of `s[i..]` (`split_whitespace`).
pub open spec fn words_from(s: Seq<char>, i: int) -> Seq<Seq<char>>
    decreases s.len() - i,
{
    if i < 0 || i >= s.len() {
        Seq::empty()
    } else {
        let a = i + run_fwd(s, i, CharClass::Space);
        if a >= s.len() {
            Seq::empty()
        } else {
            let b = a + run_fwd(s, a, CharClass::NonSpace);
            proof {
                lemma_run_fwd(s, i, CharClass::Space);
                lemma_run_fwd(s, a, CharClass::NonSpace);
            }
            seq![s.subrange(a, b)] + words_from(s, b)
        }
    }
}

/// The decimal numeral of an integer, with `-` before a negative one.
pub open spec fn signed_decimal(n: int) -> Seq<char> {
    if n < 0 {
        "-"@ + decimal((-n) as nat)
    } else {
        decimal(n as nat)
    }
}

/// A local generation request. `temperature` and `top_p` are the numerals
/// of the sampling parameters.
pub struct LlamaRequest {
    pub model_path: String,
    pub prompt: String,
    pub max_tokens: i64,
    pub temperature: String,
    pub top_p: String,
    pub mmproj: Option<String>,
    pub seed: i64,
    pub system_prompt: Option<String>,
    pub extra_args: Option<String>,
}

/// The views of a list of strings.
pub open spec fn string_views(v: Seq<String>) -> Seq<Seq<char>> {
    v.map_values(|s: String| s@)
}

/// The arguments of `llama-cli` for a request: model, prompt, token
/// budget, temperature and top-p, quiet output; the projector where one is
/// named, the seed where it is not negative, the system prompt where given,
/// and the words of the extra arguments.
pub open spec fn llama_args(q: LlamaRequest) -> Seq<Seq<char>> {
    seq![
        "-m"@,
        q.model_path@,
        "-p"@,
        q.prompt@,
        "--n-predict"@,
        signed_decimal(q.max_tokens as int),
        "--temp"@,
        q.temperature@,
        "--top-p"@,
        q.top_p@,
        "--no-display-prompt"@,
        "--log-disable"@,
    ] + match q.mmproj {
        Some(m) => if m@.len() > 0 {
            seq!["--mmproj"@, m@]
        } else {
            Seq::empty()
        },
        None => Seq::empty(),
    } + if q.seed >= 0 {
        seq!["--seed"@, decimal(q.seed as nat)]
    } else {
        Seq::empty()
    } + match q.system_prompt {
        Some(p) => seq!["--system-prompt"@, p@],
        None => Seq::empty(),
    } + match q.extra_args {
        Some(e) => words_from(e@, 0),
        None => Seq::empty(),
    }
}

fn push_arg(args: &mut Vec<String>, a: String)
    ensures
        string_views(final(args)@) == string_views(old(args)@).push(a@),
{
    args.push(a);
    assert(string_views(args@) =~= string_views(old(args)@).push(a@));
}

fn push_words(args: &mut Vec<String>, text: &str)
    ensures
        string_views(final(args)@) == string_views(old(args)@) + words_from(text@, 0),
{
    let v = chars_of(text);
    let n = v.len();
    let mut i: usize = 0;
    let ghost start = string_views(args@);
    while i < n
        invariant
            i <= n == v@.len(),
            string_views(args@) + words_from(v@, i as int) == start + words_from(v@, 0),
        decreases n - i,
    {
        let a = skip_fwd(&v, i, CharClass::Space);
        if a >= n {
            assert(words_from(v@, i as int) =~= Seq::<Seq<char>>::empty());
            assert(string_views(args@) + words_from(v@, n as int) =~= string_views(args@));
            i = n;
        } else {
            let b = skip_fwd(&v, a, CharClass::NonSpace);
            proof {
                lemma_run_fwd(v@, a as int, CharClass::NonSpace);
            }
            let ghost before = string_views(args@);
            push_arg(args, string_of(&sub_vec(&v, a, b)));
            assert(before + words_from(v@, i as int) =~= string_views(args@) + words_from(v@, b as int));
            i = b;
        }
    }
    assert(words_from(v@, n as int) =~= Seq::<Seq<char>>::empty());
    assert(string_views(args@) =~= start + words_from(v@, 0));
}

fn signed_numeral(n: i64) -> (r: String)
    ensures
        r@ == signed_decimal(n as int),
{
    let mut s = String::new();
    if n >= 0 {
        push_decimal(&mut s, n as u64);
    } else {
        s.append("-");
        let m: u64 = ((-(n + 1)) as u64) + 1;
        push_decimal(&mut s, m);
    }
    s
}

/// The command line of a local run (see [`llama_args`]); a request
/// without a model path is refused with `NodeExecutionFailed` on `node_id`.
pub fn llama_cli_args(node_id: &str, q: &LlamaRequest) -> (r: Result<Vec<String>, ExecutorError>)
    ensures
        match r {
            Ok(v) => q.model_path@.len() > 0 && string_views(v@) == llama_args(*q),
            Err(e) => q.model_path@.len() == 0 && (e matches ExecutorError::NodeExecutionFailed {
                node_id: n,
                message: m,
            } && n@ == node_id@ && m@ == "LLM model path is empty"@),
        },
{
    if q.model_path.as_str().is_empty() {
        return Err(
            ExecutorError::NodeExecutionFailed {
                node_id: String::from_str(node_id),
                message: String::from_str("LLM model path is empty"),
            },
        );
    }
    let mut args: Vec<String> = Vec::new();
    push_arg(&mut args, String::from_str("-m"));
    push_arg(&mut args, String::from_str(q.model_path.as_str()));
    push_arg(&mut args, String::from_str("-p"));
    push_arg(&mut args, String::from_str(q.prompt.as_str()));
    push_arg(&mut args, String::from_str("--n-predict"));
    push_arg(&mut args, signed_numeral(q.max_tokens));
    push_arg(&mut args, String::from_str("--temp"));
    push_arg(&mut args, String::from_str(q.temperature.as_str()));
    push_arg(&mut args, String::from_str("--top-p"));
    push_arg(&mut args, String::from_str(q.top_p.as_str()));
    push_arg(&mut args, String::from_str("--no-display-prompt"));
    push_arg(&mut args, String::from_str("--log-disable"));
    match &q.mmproj {
        Some(m) => {
            if !m.as_str().is_empty() {
                push_arg(&mut args, String::from_str("--mmproj"));
                push_arg(&mut args, String::from_str(m.as_str()));
            }
        },
        None => {},
    }
    if q.seed >= 0 {
        push_arg(&mut args, String::from_str("--seed"));
        let mut s = String::new();
        push_decimal(&mut s, q.seed as u64);
        push_arg(&mut args, s);
    }
    match &q.system_prompt {
        Some(p) => {
            push_arg(&mut args, String::from_str("--system-prompt"));
            push_arg(&mut args, String::from_str(p.as_str()));
        },
        None => {},
    }
    match &q.extra_args {
        Some(e) => push_words(&mut args, e.as_str()),
        None => {},
    }
    assert(string_views(args@) =~= llama_args(*q));
    Ok(args)
}

} // verus!
