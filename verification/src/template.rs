//! Placeholder substitution for command templates.
//!
//! A template holds placeholders of the form `{j}`, with `j` a decimal index
//! without leading zeros.  Substitution replaces `{j}` by the `j`-th collected
//! argument for every `j` below the number of arguments; every other
//! character, including placeholders with higher indices, is kept as it is.

use vstd::prelude::*;
use vstd::string::StrSliceExecFns;
use vstd::string::StringExecFns;

verus! {

/// A decimal digit character.
pub open spec fn is_digit_char(c: char) -> bool {
    48 <= c as int && c as int <= 57
}

/// The numeric value of a digit character.
pub open spec fn digit_val(c: char) -> int {
    c as int - 48
}

/// The number written by a sequence of digit characters, most significant
/// digit first.
pub open spec fn dec_val(s: Seq<char>) -> int
    decreases s.len(),
{
    if s.len() == 0 {
        0
    } else {
        10 * dec_val(s.drop_last()) + digit_val(s.last())
    }
}

/// How many consecutive digit characters stand in `t` from position `i` on.
pub open spec fn digit_run_len(t: Seq<char>, i: int) -> int
    decreases t.len() - i,
{
    if i < 0 || i >= t.len() || !is_digit_char(t[i]) {
        0
    } else {
        1 + digit_run_len(t, i + 1)
    }
}

/// A placeholder `{j}` (decimal digits, no leading zeros) begins at position
/// `i` of `t`.
pub open spec fn placeholder_at(t: Seq<char>, i: int) -> bool {
    let run = digit_run_len(t, i + 1);
    &&& 0 <= i < t.len()
    &&& t[i] == '{'
    &&& run > 0
    &&& i + 1 + run < t.len()
    &&& t[i + 1 + run] == '}'
    &&& (t[i + 1] != '0' || run == 1)
}

/// The index named by the placeholder at position `i`.
pub open spec fn placeholder_index(t: Seq<char>, i: int) -> int {
    dec_val(t.subrange(i + 1, i + 1 + digit_run_len(t, i + 1)))
}

/// The length in characters of the placeholder at position `i`, braces
/// included.
pub open spec fn placeholder_len(t: Seq<char>, i: int) -> int {
    digit_run_len(t, i + 1) + 2
}

/// The template from position `i` on, with every placeholder `{j}`,
/// `j < args.len()`, replaced by `args[j]`.  Everything else is kept.
pub open spec fn subst_from(t: Seq<char>, args: Seq<Seq<char>>, i: int) -> Seq<char>
    decreases t.len() - i,
{
    if i < 0 || i >= t.len() {
        Seq::empty()
    } else if placeholder_at(t, i) && placeholder_index(t, i) < args.len() {
        args[placeholder_index(t, i)] + subst_from(t, args, i + placeholder_len(t, i))
    } else {
        seq![t[i]] + subst_from(t, args, i + 1)
    }
}

/// The whole template after substitution.
pub open spec fn subst(t: Seq<char>, args: Seq<Seq<char>>) -> Seq<char> {
    subst_from(t, args, 0)
}

proof fn lemma_dec_val_nonneg(s: Seq<char>)
    requires
        forall|k: int| 0 <= k < s.len() ==> is_digit_char(s[k]),
    ensures
        dec_val(s) >= 0,
    decreases s.len(),
{
    if s.len() > 0 {
        assert forall|k: int| 0 <= k < s.drop_last().len() implies is_digit_char(
            s.drop_last()[k],
        ) by {
            assert(s.drop_last()[k] == s[k]);
        }
        lemma_dec_val_nonneg(s.drop_last());
    }
}

proof fn lemma_dec_val_snoc(s: Seq<char>, a: int, k: int)
    requires
        0 <= a <= k < s.len(),
    ensures
        dec_val(s.subrange(a, k + 1)) == 10 * dec_val(s.subrange(a, k)) + digit_val(s[k]),
{
    assert(s.subrange(a, k + 1).drop_last() =~= s.subrange(a, k));
    assert(s.subrange(a, k + 1).last() == s[k]);
}

proof fn lemma_digit_run(t: Seq<char>, a: int, b: int)
    requires
        0 <= a <= b <= t.len(),
        forall|k: int| a <= k < b ==> is_digit_char(t[k]),
        b == t.len() || !is_digit_char(t[b]),
    ensures
        digit_run_len(t, a) == b - a,
    decreases b - a,
{
    if a < b {
        lemma_digit_run(t, a + 1, b);
    }
}

proof fn lemma_subst_from_no_args(t: Seq<char>, args: Seq<Seq<char>>, i: int)
    requires
        args.len() == 0,
        0 <= i <= t.len(),
    ensures
        subst_from(t, args, i) =~= t.skip(i),
    decreases t.len() - i,
{
    if i < t.len() {
        lemma_subst_from_no_args(t, args, i + 1);
        if placeholder_at(t, i) {
            let run = digit_run_len(t, i + 1);
            assert forall|k: int| i + 1 <= k < i + 1 + run implies is_digit_char(t[k]) by {
                lemma_digit_run_digits(t, i + 1, k);
            }
            assert forall|k: int| 0 <= k < t.subrange(i + 1, i + 1 + run).len() implies
                is_digit_char(#[trigger] t.subrange(i + 1, i + 1 + run)[k]) by {
                assert(t.subrange(i + 1, i + 1 + run)[k] == t[i + 1 + k]);
            }
            lemma_dec_val_nonneg(t.subrange(i + 1, i + 1 + run));
        }
    }
}

proof fn lemma_digit_run_digits(t: Seq<char>, a: int, k: int)
    requires
        0 <= a,
        a <= k < a + digit_run_len(t, a),
    ensures
        is_digit_char(t[k]),
        k < t.len(),
    decreases t.len() - a,
{
    if a < k {
        lemma_digit_run_digits(t, a + 1, k);
    }
}

/// A placeholder left alone: a template substituted with no collected
/// arguments is returned unchanged, so a placeholder can never refer to the
/// step it stands in, nor to a later one.
pub proof fn lemma_subst_empty_args(t: Seq<char>, args: Seq<Seq<char>>)
    requires
        args.len() == 0,
    ensures
        subst(t, args) == t,
{
    lemma_subst_from_no_args(t, args, 0);
    assert(t.skip(0) =~= t);
}

fn digit_value(c: char) -> (r: Option<u8>)
    ensures
        r is Some <==> is_digit_char(c),
        r matches Some(v) ==> v as int == digit_val(c),
{
    let u = c as u32;
    if 48 <= u && u <= 57 {
        Some((u - 48) as u8)
    } else {
        None
    }
}

/// `template` with every placeholder `{j}`, `j < args.len()`, replaced by
/// `args[j]`; placeholders with higher indices, with leading zeros or with no
/// digits at all are copied unchanged.
pub fn substitute(template: &str, args: &Vec<String>) -> (r: String)
    ensures
        r@ == subst(template@, args.deep_view()),
{
    let ghost t = template@;
    let ghost argv = args.deep_view();
    let n = template.unicode_len();
    let args_len = args.len();
    proof {
        assert(argv.len() == args@.len());
    }
    let mut out = String::new();
    let mut i: usize = 0;
    while i < n
        invariant
            n == t.len(),
            t == template@,
            argv == args.deep_view(),
            argv.len() == args@.len(),
            args_len == args@.len(),
            i <= n,
            out@ + subst_from(t, argv, i as int) == subst(t, argv),
        decreases n - i,
    {
        let c = template.get_char(i);
        let mut handled = false;
        if c == '{' {
            // measure the digit run that follows the opening brace
            let mut j = i + 1;
            while j < n && digit_value(template.get_char(j)).is_some()
                invariant
                    n == t.len(),
                    t == template@,
                    i + 1 <= j <= n,
                    forall|k: int| i + 1 <= k < j ==> is_digit_char(t[k]),
                decreases n - j,
            {
                j = j + 1;
            }
            proof {
                lemma_digit_run(t, i as int + 1, j as int);
            }
            let run = j - (i + 1);
            if run > 0 && j < n && template.get_char(j) == '}' && !(template.get_char(i + 1)
                == '0' && run > 1) {
                // the shape of a placeholder; parse its index, saturating at
                // the argument count
                proof {
                    assert(placeholder_at(t, i as int));
                }
                let mut val: u128 = 0;
                let mut too_big = args_len == 0;
                let mut k = i + 1;
                proof {
                    assert(t.subrange(i as int + 1, k as int) =~= Seq::<char>::empty());
                }
                while k < j
                    invariant
                        n == t.len(),
                        t == template@,
                        i + 1 <= k <= j <= n,
                        args_len == args@.len(),
                        forall|q: int| i + 1 <= q < j ==> is_digit_char(t[q]),
                        !too_big ==> val as int == dec_val(t.subrange(i as int + 1, k as int))
                            && (val as int) < args_len as int,
                        too_big ==> dec_val(t.subrange(i as int + 1, k as int)) >= args_len as int,
                    decreases j - k,
                {
                    let d = match digit_value(template.get_char(k)) {
                        Some(d) => d,
                        None => 0,
                    };
                    proof {
                        lemma_dec_val_snoc(t, i as int + 1, k as int);
                    }
                    if too_big {
                        proof {
                            assert forall|q: int| 0 <= q < t.subrange(
                                i as int + 1,
                                k as int,
                            ).len() implies is_digit_char(
                                #[trigger] t.subrange(i as int + 1, k as int)[q],
                            ) by {
                                assert(t.subrange(i as int + 1, k as int)[q] == t[i + 1 + q]);
                            }
                            lemma_dec_val_nonneg(t.subrange(i as int + 1, k as int));
                        }
                    } else {
                        let next = val * 10 + d as u128;
                        if next >= args_len as u128 {
                            too_big = true;
                        } else {
                            val = next;
                        }
                    }
                    k = k + 1;
                }
                if !too_big {
                    // a placeholder whose index names a collected argument
                    let idx = val as usize;
                    proof {
                        assert(t.subrange(i as int + 1, j as int) == t.subrange(
                            i as int + 1,
                            i as int + 1 + digit_run_len(t, i as int + 1),
                        ));
                        assert(placeholder_index(t, i as int) == idx as int);
                        assert(argv[idx as int] == args@[idx as int]@);
                        assert((out@ + argv[idx as int]) + subst_from(
                            t,
                            argv,
                            j as int + 1,
                        ) =~= out@ + (argv[idx as int] + subst_from(t, argv, j as int + 1)));
                    }
                    out.append(args[idx].as_str());
                    i = j + 1;
                    handled = true;
                } else {
                    proof {
                        assert(placeholder_index(t, i as int) >= args_len as int);
                    }
                }
            }
        }
        if !handled {
            proof {
                assert(!(placeholder_at(t, i as int) && placeholder_index(t, i as int)
                    < argv.len()));
                assert(subst_from(t, argv, i as int) == seq![t[i as int]] + subst_from(
                    t,
                    argv,
                    i as int + 1,
                ));
                assert(t.subrange(i as int, i as int + 1) =~= seq![t[i as int]]);
                assert((out@ + seq![t[i as int]]) + subst_from(t, argv, i as int + 1) =~= out@ + (
                seq![t[i as int]] + subst_from(t, argv, i as int + 1)));
            }
            let piece = template.substring_char(i, i + 1);
            out.append(piece);
            i = i + 1;
        }
    }
    proof {
        assert(subst_from(t, argv, n as int) =~= Seq::<char>::empty());
        assert(out@ + Seq::<char>::empty() =~= out@);
    }
    out
}

} // verus!
