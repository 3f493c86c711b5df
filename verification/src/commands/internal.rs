//! Completion for the shell integration.

use vstd::prelude::*;

use crate::order::{sort_unique_strings, strictly_sorted, views};
use crate::text::{ascii_lower_seq, chars_of, chars_start_with, lower_chars, push_str, starts_with, string_from_chars};

verus! {

/// The words always offered: the daily subcommands, `-`, and the pull request prefix.
pub open spec fn fixed_words() -> Seq<Seq<char>> {
    seq!["new"@, "done"@, "setup"@, "-"@, "pr:"@]
}

/// A value is offered for `token` when the token is empty or the value starts with it,
/// ignoring ASCII case.
pub open spec fn offered(value: Seq<char>, token: Seq<char>) -> bool {
    token.len() == 0 || starts_with(ascii_lower_seq(value), ascii_lower_seq(token))
}

pub open spec fn offered_values(values: Seq<Seq<char>>, token: Seq<char>) -> Seq<Seq<char>>
    decreases values.len(),
{
    if values.len() == 0 {
        Seq::empty()
    } else if offered(values.last(), token) {
        offered_values(values.drop_last(), token).push(values.last())
    } else {
        offered_values(values.drop_last(), token)
    }
}

/// Lines, each ending with a newline.
pub open spec fn lines_text(values: Seq<Seq<char>>) -> Seq<char>
    decreases values.len(),
{
    if values.len() == 0 {
        seq!['\n']
    } else if values.len() == 1 {
        values[0] + seq!['\n']
    } else {
        lines_text(values.drop_last()).drop_last() + seq!['\n'] + values.last() + seq!['\n']
    }
}

/// What `acre __complete <token>` prints: the fixed words and `candidates` (branch names of the
/// repository's worktrees and the qualified names of its refs), sorted, without repeats, those
/// offered for `token`, one per line.
pub fn complete(candidates: &Vec<String>, token: &str) -> (output: String)
    ensures
        exists|s: Seq<Seq<char>>|
            strictly_sorted(s) && s.to_set() == fixed_words().to_set() + views(candidates@).to_set()
                && output@ == #[trigger] lines_text(offered_values(s, token@)),
{
    let mut all: Vec<String> = vec!["new".to_owned(), "done".to_owned(), "setup".to_owned(), "-".to_owned(), "pr:".to_owned()];
    assert(views(all@) =~= fixed_words());
    let ghost fixed = views(all@);
    let mut i: usize = 0;
    while i < candidates.len()
        invariant
            i <= candidates@.len(),
            views(all@) == fixed + views(candidates@.take(i as int)),
        decreases candidates.len() - i,
    {
        let ghost before = views(all@);
        all.push(candidates[i].clone());
        assert(views(all@) =~= before.push(candidates@[i as int]@));
        assert(views(candidates@.take(i + 1)) =~= views(candidates@.take(i as int)).push(candidates@[i as int]@));
        i = i + 1;
    }
    assert(candidates@.take(candidates@.len() as int) =~= candidates@);
    let sorted = sort_unique_strings(&all);
    proof {
        vstd::seq_lib::seq_to_set_distributes_over_add(fixed_words(), views(candidates@));
    }
    let lower_token = lower_chars(&chars_of(token));
    let token_empty = token.is_empty();
    let mut out: Vec<char> = Vec::new();
    let mut count: usize = 0;
    let ghost s = views(sorted@);
    let mut k: usize = 0;
    while k < sorted.len()
        invariant
            k <= sorted@.len(),
            s == views(sorted@),
            lower_token@ == ascii_lower_seq(token@),
            token_empty == (token@.len() == 0),
            count == offered_values(s.take(k as int), token@).len(),
            count <= k,
            count == 0 ==> out@.len() == 0,
            count > 0 ==> out@ + seq!['\n'] == lines_text(offered_values(s.take(k as int), token@)),
        decreases sorted.len() - k,
    {
        proof {
            assert(s.take(k + 1).drop_last() =~= s.take(k as int));
        }
        let value = lower_chars(&chars_of(sorted[k].as_str()));
        let keep = token_empty || chars_start_with(&value, &lower_token);
        proof {
            assert(s[k as int] == sorted@[k as int]@);
            assert(s.take(k + 1).last() == s[k as int]);
            assert(keep == offered(s[k as int], token@));
            if keep {
                assert(offered_values(s.take(k + 1), token@) == offered_values(s.take(k as int), token@).push(s[k as int]));
            } else {
                assert(offered_values(s.take(k + 1), token@) == offered_values(s.take(k as int), token@));
            }
        }
        if keep {
            let ghost before = out@;
            if count > 0 {
                out.push('\n');
            }
            push_str(&mut out, sorted[k].as_str());
            proof {
                let prev = offered_values(s.take(k as int), token@);
                let vs = offered_values(s.take(k + 1), token@);
                let x = s[k as int];
                assert(vs == prev.push(x));
                assert(vs.drop_last() =~= prev);
                assert(vs.last() == x);
                if count == 0 {
                    assert(vs.len() == 1);
                    assert(vs[0] == x);
                    assert(out@ =~= x);
                    assert(lines_text(vs) == x + seq!['\n']);
                } else {
                    assert(vs.len() >= 2);
                    assert((before + seq!['\n']).drop_last() =~= before);
                    assert(lines_text(prev).drop_last() =~= before);
                    assert(lines_text(vs) == lines_text(prev).drop_last() + seq!['\n'] + x + seq!['\n']);
                    assert(out@ =~= before + seq!['\n'] + x);
                }
                assert(out@ + seq!['\n'] =~= lines_text(vs));
            }
            count = count + 1;
        }
        k = k + 1;
    }
    assert(s.take(s.len() as int) =~= s);
    out.push('\n');
    let result = string_from_chars(&out);
    proof {
        if count == 0 {
            assert(offered_values(s, token@).len() == 0);
            assert(result@ =~= lines_text(offered_values(s, token@)));
        }
        assert(strictly_sorted(s));
        assert(s.to_set() == fixed_words().to_set() + views(candidates@).to_set());
        assert(result@ == lines_text(offered_values(s, token@)));
    }
    result
}

} // verus!
