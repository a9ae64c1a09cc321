//! Derivation of picker options from an environment-supplied option string.
//!
//! The option string is word-split with a shell-aware lexer; each field of
//! the picker's configuration is then taken from the first token that
//! carries it, or falls back to a fixed default.  A field can be carried
//! either inside one token (`--height=75%`) or by the token that follows a
//! bare mention (`--height 75%`).

use vstd::prelude::*;
use vstd::string::StringExecFns;
use crate::text::contains_sub;
use crate::text::str_contains;
use crate::text::str_eq;

verus! {

/// The picker configuration derived once per process from the option
/// string.  The preview template is no part of it: that is chosen per call.
pub struct PickerOptions {
    pub height: String,
    pub margin: String,
    pub layout: String,
    pub color: String,
    pub bind: Vec<String>,
    pub reverse: bool,
    pub tac: bool,
    pub no_sort: bool,
    pub inline_info: bool,
}

/// What `shlex::split` returns for a given option string; the split depends
/// on the characters alone.
pub uninterp spec fn shell_lexed(s: Seq<char>) -> Option<Seq<Seq<char>>>;

/// The first position at or after `i` of a token that mentions `flag` and
/// stands apart from it (so it carries a value of its own); `toks.len()`
/// when there is none.
pub open spec fn first_value_idx(toks: Seq<Seq<char>>, flag: Seq<char>, i: int) -> int
    decreases toks.len() - i,
{
    if i < 0 || i >= toks.len() {
        toks.len() as int
    } else if contains_sub(toks[i], flag) && toks[i] != flag {
        i
    } else {
        first_value_idx(toks, flag, i + 1)
    }
}

/// The first position at or after `i` of a token that mentions `flag` at
/// all; `toks.len()` when there is none.
pub open spec fn first_mention_idx(toks: Seq<Seq<char>>, flag: Seq<char>, i: int) -> int
    decreases toks.len() - i,
{
    if i < 0 || i >= toks.len() {
        toks.len() as int
    } else if contains_sub(toks[i], flag) {
        i
    } else {
        first_mention_idx(toks, flag, i + 1)
    }
}

/// The value a field takes from the token list: the first value-carrying
/// mention of its flag; else the token after the first bare mention; else
/// the field's default.
pub open spec fn flag_value(toks: Seq<Seq<char>>, flag: Seq<char>, dflt: Seq<char>) -> Seq<char> {
    let v = first_value_idx(toks, flag, 0);
    let m = first_mention_idx(toks, flag, 0);
    if v < toks.len() {
        toks[v]
    } else if m < toks.len() && m + 1 < toks.len() {
        toks[m + 1]
    } else {
        dflt
    }
}

/// The first position at or after `i` of a token that carries a color value
/// of its own: it mentions the color flag, stands apart from it, and holds
/// no `{}` (a cursor placeholder makes it a preview, not a theme).
pub open spec fn first_color_value_idx(toks: Seq<Seq<char>>, i: int) -> int
    decreases toks.len() - i,
{
    if i < 0 || i >= toks.len() {
        toks.len() as int
    } else if contains_sub(toks[i], "--color"@) && toks[i] != "--color"@ && !contains_sub(
        toks[i],
        "{}"@,
    ) {
        i
    } else {
        first_color_value_idx(toks, i + 1)
    }
}

/// The color theme taken from the token list, with the same fallback rule
/// as `flag_value`.
pub open spec fn color_value(toks: Seq<Seq<char>>, dflt: Seq<char>) -> Seq<char> {
    let v = first_color_value_idx(toks, 0);
    let m = first_mention_idx(toks, "--color"@, 0);
    if v < toks.len() {
        toks[v]
    } else if m < toks.len() && m + 1 < toks.len() {
        toks[m + 1]
    } else {
        dflt
    }
}

/// Some token mentions `flag`.
pub open spec fn any_mention(toks: Seq<Seq<char>>, flag: Seq<char>) -> bool {
    exists|k: int| 0 <= k < toks.len() && contains_sub(toks[k], flag)
}

/// All tokens that mention the key-binding flag, in order.
pub open spec fn bind_tokens(toks: Seq<Seq<char>>) -> Seq<Seq<char>>
    decreases toks.len(),
{
    if toks.len() == 0 {
        Seq::empty()
    } else {
        let rest = bind_tokens(toks.drop_last());
        if contains_sub(toks.last(), "--bind"@) {
            rest.push(toks.last())
        } else {
            rest
        }
    }
}

/// The default color theme of the embedded matcher.
pub open spec fn default_theme() -> Seq<char> {
    "matched:108,matched_bg:0,current:254,current_bg:236,current_match:151,current_match_bg:236,spinner:148,info:144,prompt:110,cursor:161,selected:168,header:109,border:59"@
}

/// All nine field equations of a derived `PickerOptions` against one token
/// list.
pub open spec fn options_match(r: PickerOptions, toks: Seq<Seq<char>>) -> bool {
    &&& r.height@ == flag_value(toks, "--height"@, "50%"@)
    &&& r.margin@ == flag_value(toks, "--margin"@, "0%"@)
    &&& r.layout@ == flag_value(toks, "--layout"@, "default"@)
    &&& r.color@ == color_value(toks, default_theme())
    &&& r.bind.deep_view() == bind_tokens(toks)
    &&& r.reverse == any_mention(toks, "--reverse"@)
    &&& r.tac == any_mention(toks, "--tac"@)
    &&& r.no_sort == any_mention(toks, "--no-sort"@)
    &&& r.inline_info == any_mention(toks, "--inline-info"@)
}

proof fn lemma_first_value_from(toks: Seq<Seq<char>>, flag: Seq<char>, a: int, i: int)
    requires
        0 <= a <= i <= toks.len(),
        forall|k: int| a <= k < i ==> !(contains_sub(#[trigger] toks[k], flag) && toks[k] != flag),
        i == toks.len() || (contains_sub(toks[i], flag) && toks[i] != flag),
    ensures
        first_value_idx(toks, flag, a) == i,
    decreases i - a,
{
    if a < i {
        lemma_first_value_from(toks, flag, a + 1, i);
    }
}

proof fn lemma_first_mention_from(toks: Seq<Seq<char>>, flag: Seq<char>, a: int, i: int)
    requires
        0 <= a <= i <= toks.len(),
        forall|k: int| a <= k < i ==> !contains_sub(#[trigger] toks[k], flag),
        i == toks.len() || contains_sub(toks[i], flag),
    ensures
        first_mention_idx(toks, flag, a) == i,
    decreases i - a,
{
    if a < i {
        lemma_first_mention_from(toks, flag, a + 1, i);
    }
}

proof fn lemma_first_color_from(toks: Seq<Seq<char>>, a: int, i: int)
    requires
        0 <= a <= i <= toks.len(),
        forall|k: int| a <= k < i ==> !(contains_sub(#[trigger] toks[k], "--color"@) && toks[k]
            != "--color"@ && !contains_sub(toks[k], "{}"@)),
        i == toks.len() || (contains_sub(toks[i], "--color"@) && toks[i] != "--color"@
            && !contains_sub(toks[i], "{}"@)),
    ensures
        first_color_value_idx(toks, a) == i,
    decreases i - a,
{
    if a < i {
        lemma_first_color_from(toks, a + 1, i);
    }
}

fn find_value_token(tokens: &Vec<String>, flag: &str) -> (r: Option<usize>)
    ensures
        (match r {
            Some(i) => i < tokens@.len() && first_value_idx(tokens.deep_view(), flag@, 0)
                == i as int,
            None => first_value_idx(tokens.deep_view(), flag@, 0) == tokens@.len() as int,
        }),
{
    let ghost toks = tokens.deep_view();
    let mut i: usize = 0;
    while i < tokens.len()
        invariant
            toks == tokens.deep_view(),
            i <= tokens@.len(),
            forall|k: int| 0 <= k < i ==> !(contains_sub(#[trigger] toks[k], flag@) && toks[k]
                != flag@),
        decreases tokens@.len() - i,
    {
        if str_contains(tokens[i].as_str(), flag) && !str_eq(tokens[i].as_str(), flag) {
            proof {
                lemma_first_value_from(toks, flag@, 0, i as int);
            }
            return Some(i);
        }
        i = i + 1;
    }
    proof {
        lemma_first_value_from(toks, flag@, 0, toks.len() as int);
    }
    None
}

fn find_mention_token(tokens: &Vec<String>, flag: &str) -> (r: Option<usize>)
    ensures
        (match r {
            Some(i) => i < tokens@.len() && first_mention_idx(tokens.deep_view(), flag@, 0)
                == i as int,
            None => first_mention_idx(tokens.deep_view(), flag@, 0) == tokens@.len() as int,
        }),
{
    let ghost toks = tokens.deep_view();
    let mut i: usize = 0;
    while i < tokens.len()
        invariant
            toks == tokens.deep_view(),
            i <= tokens@.len(),
            forall|k: int| 0 <= k < i ==> !contains_sub(#[trigger] toks[k], flag@),
        decreases tokens@.len() - i,
    {
        if str_contains(tokens[i].as_str(), flag) {
            proof {
                lemma_first_mention_from(toks, flag@, 0, i as int);
            }
            return Some(i);
        }
        i = i + 1;
    }
    proof {
        lemma_first_mention_from(toks, flag@, 0, toks.len() as int);
    }
    None
}

fn derive_field(tokens: &Vec<String>, flag: &str, dflt: &str) -> (r: String)
    ensures
        r@ == flag_value(tokens.deep_view(), flag@, dflt@),
{
    match find_value_token(tokens, flag) {
        Some(i) => tokens[i].clone(),
        None => {
            match find_mention_token(tokens, flag) {
                Some(m) => {
                    let nlen = tokens.len();
                    if m < nlen - 1 {
                        tokens[m + 1].clone()
                    } else {
                        String::from_str(dflt)
                    }
                },
                None => String::from_str(dflt),
            }
        },
    }
}

fn derive_color(tokens: &Vec<String>, dflt: &str) -> (r: String)
    ensures
        r@ == color_value(tokens.deep_view(), dflt@),
{
    let ghost toks = tokens.deep_view();
    let mut i: usize = 0;
    while i < tokens.len()
        invariant
            toks == tokens.deep_view(),
            i <= tokens@.len(),
            forall|k: int| 0 <= k < i ==> !(contains_sub(#[trigger] toks[k], "--color"@) && toks[k]
                != "--color"@ && !contains_sub(toks[k], "{}"@)),
        decreases tokens@.len() - i,
    {
        if str_contains(tokens[i].as_str(), "--color") && !str_eq(tokens[i].as_str(), "--color")
            && !str_contains(tokens[i].as_str(), "{}") {
            proof {
                lemma_first_color_from(toks, 0, i as int);
            }
            return tokens[i].clone();
        }
        i = i + 1;
    }
    proof {
        lemma_first_color_from(toks, 0, toks.len() as int);
    }
    match find_mention_token(tokens, "--color") {
        Some(m) => {
            let nlen = tokens.len();
            if m < nlen - 1 {
                tokens[m + 1].clone()
            } else {
                String::from_str(dflt)
            }
        },
        None => String::from_str(dflt),
    }
}

fn any_flag(tokens: &Vec<String>, flag: &str) -> (r: bool)
    ensures
        r == any_mention(tokens.deep_view(), flag@),
{
    let ghost toks = tokens.deep_view();
    let mut i: usize = 0;
    while i < tokens.len()
        invariant
            toks == tokens.deep_view(),
            i <= tokens@.len(),
            forall|k: int| 0 <= k < i ==> !contains_sub(#[trigger] toks[k], flag@),
        decreases tokens@.len() - i,
    {
        if str_contains(tokens[i].as_str(), flag) {
            proof {
                assert(toks[i as int] == tokens@[i as int]@);
                assert(any_mention(toks, flag@));
            }
            return true;
        }
        i = i + 1;
    }
    false
}

fn collect_bind(tokens: &Vec<String>) -> (r: Vec<String>)
    ensures
        r.deep_view() == bind_tokens(tokens.deep_view()),
{
    let ghost toks = tokens.deep_view();
    let mut r: Vec<String> = Vec::new();
    let mut i: usize = 0;
    while i < tokens.len()
        invariant
            toks == tokens.deep_view(),
            i <= tokens@.len(),
            r.deep_view() =~= bind_tokens(toks.take(i as int)),
        decreases tokens@.len() - i,
    {
        let ghost r_old = r.deep_view();
        if str_contains(tokens[i].as_str(), "--bind") {
            r.push(tokens[i].clone());
            proof {
                assert(r.deep_view() =~= r_old.push(toks[i as int]));
            }
        }
        proof {
            assert(toks.take(i as int + 1).drop_last() =~= toks.take(i as int));
            assert(toks.take(i as int + 1).last() == toks[i as int]);
        }
        i = i + 1;
    }
    proof {
        assert(toks.take(toks.len() as int) =~= toks);
    }
    r
}

/// The picker configuration the token list describes.
pub fn options_from_tokens(tokens: &Vec<String>) -> (r: PickerOptions)
    ensures
        options_match(r, tokens.deep_view()),
{
    PickerOptions {
        height: derive_field(tokens, "--height", "50%"),
        margin: derive_field(tokens, "--margin", "0%"),
        layout: derive_field(tokens, "--layout", "default"),
        color: derive_color(
            tokens,
            "matched:108,matched_bg:0,current:254,current_bg:236,current_match:151,current_match_bg:236,spinner:148,info:144,prompt:110,cursor:161,selected:168,header:109,border:59",
        ),
        bind: collect_bind(tokens),
        reverse: any_flag(tokens, "--reverse"),
        tac: any_flag(tokens, "--tac"),
        no_sort: any_flag(tokens, "--no-sort"),
        inline_info: any_flag(tokens, "--inline-info"),
    }
}

/// Relies on `shlex::split`: POSIX-shell-style word splitting of an option
/// string into tokens, `None` for erroneous input such as an unclosed
/// quote; the result depends on the input characters alone.
#[verifier::external_body]
fn shlex_split(s: &str) -> (r: Option<Vec<String>>)
    ensures
        r.deep_view() == shell_lexed(s@),
{
    shlex::split(s)
}

/// The picker configuration for one process: the environment's option
/// string, when present and well-formed, decides each field; an absent or
/// erroneous option string leaves every field at its default.
pub fn picker_options(option_string: Option<&str>) -> (r: PickerOptions)
    ensures
        (match option_string {
            Some(s) => (match shell_lexed(s@) {
                Some(toks) => options_match(r, toks),
                None => options_match(r, Seq::empty()),
            }),
            None => options_match(r, Seq::empty()),
        }),
{
    let tokens: Vec<String> = match option_string {
        Some(s) => match shlex_split(s) {
            Some(t) => t,
            None => Vec::new(),
        },
        None => Vec::new(),
    };
    proof {
        if tokens@.len() == 0 {
            assert(tokens.deep_view() =~= Seq::<Seq<char>>::empty());
        }
    }
    options_from_tokens(&tokens)
}

} // verus!
