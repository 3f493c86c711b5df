//! Where the parent shell goes: the same relative spot inside the target, when it exists.

use vstd::prelude::*;

use crate::cli::CommandContext;
use crate::git::repository::Repository;
use crate::util::{is_inside, join_path, path_join, path_within};

verus! {

/// The directory inside `target_root` at the shell's relative position within its current
/// worktree: `None` when the shell is not inside a worktree or stands at its top.
pub open spec fn relative_candidate(cwd: Seq<char>, current: Option<Seq<char>>, target_root: Seq<char>) -> Option<Seq<char>> {
    match current {
        None => None,
        Some(worktree) => if !path_within(worktree, cwd) || cwd == worktree {
            None
        } else {
            let relative = if crate::text::starts_with(cwd, worktree + seq!['/']) {
                cwd.skip(worktree.len() as int + 1)
            } else {
                cwd.skip(worktree.len() as int)
            };
            if relative.len() == 0 {
                None
            } else {
                Some(path_join(target_root, relative))
            }
        },
    }
}

pub open spec fn current_path(repository: Repository) -> Option<Seq<char>> {
    match repository.current_worktree {
        Some(w) => Some(w.path@),
        None => None,
    }
}

/// The candidate directory for the shell inside `target_root`, if any; the caller checks
/// whether it exists there.
pub fn navigation_candidate(context: &CommandContext, repository: &Repository, target_root: &str) -> (r: Option<String>)
    ensures
        match (r, relative_candidate(context.cwd@, current_path(*repository), target_root@)) {
            (Some(a), Some(b)) => a@ == b,
            (None, None) => true,
            _ => false,
        },
{
    let current = match &repository.current_worktree {
        Some(w) => &w.path,
        None => {
            return None;
        },
    };
    if !is_inside(current.as_str(), context.cwd.as_str()) || crate::text::str_equal(context.cwd.as_str(), current.as_str()) {
        return None;
    }
    let cwd = crate::text::chars_of(context.cwd.as_str());
    let mut prefix = crate::text::chars_of(current.as_str());
    let base = prefix.len();
    prefix.push('/');
    assert(prefix@ =~= current@ + seq!['/']);
    let relative = if crate::text::chars_start_with(&cwd, &prefix) {
        assert(prefix@.len() <= cwd@.len());
        assert(base + 1 <= cwd.len());
        crate::text::slice_chars(&cwd, base + 1, cwd.len())
    } else {
        proof {
            assert(path_within(current@, cwd@));
        }
        crate::text::slice_chars(&cwd, base, cwd.len())
    };
    assert(relative@ =~= (if crate::text::starts_with(cwd@, current@ + seq!['/']) {
        cwd@.skip(current@.len() as int + 1)
    } else {
        cwd@.skip(current@.len() as int)
    }));
    if relative.len() == 0 {
        return None;
    }
    let text = crate::text::string_from_chars(&relative);
    Some(join_path(target_root, text.as_str()))
}

/// Where the shell goes: the candidate inside `target_root` when it is a directory there
/// (`candidate_is_dir`), else the top of the target.
pub fn navigation_destination(
    context: &CommandContext,
    repository: &Repository,
    target_root: &str,
    candidate_is_dir: bool,
) -> (destination: String)
    ensures
        destination@ == match relative_candidate(context.cwd@, current_path(*repository), target_root@) {
            Some(candidate) => if candidate_is_dir {
                candidate
            } else {
                target_root@
            },
            None => target_root@,
        },
{
    match navigation_candidate(context, repository, target_root) {
        Some(candidate) => if candidate_is_dir {
            candidate
        } else {
            target_root.to_owned()
        },
        None => target_root.to_owned(),
    }
}


/// The repositories, among the `sources` a shell is leaving (by common directory, in order),
/// whose shell lease it gives up: every one that is not the `destination`'s, each once.
pub open spec fn left_repositories(sources: Seq<Seq<char>>, destination: Option<Seq<char>>) -> Seq<int>
    decreases sources.len(),
{
    if sources.len() == 0 {
        Seq::empty()
    } else {
        let n = sources.len() - 1;
        let prev = left_repositories(sources.drop_last(), destination);
        if destination != Some(sources[n]) && !sources.drop_last().contains(sources[n]) {
            prev.push(n)
        } else {
            prev
        }
    }
}

/// Which of the repositories a shell moved out of lose its lease: `sources[i]` is the common
/// directory of each place the shell was (where it was last recorded, then where it moved
/// from), `destination` the common directory of where it arrives. A repository it stays in
/// keeps the lease, and none is released twice.
pub fn repositories_left(sources: &Vec<String>, destination: Option<&String>) -> (r: Vec<usize>)
    ensures
        r@.map_values(|i: usize| i as int) == left_repositories(
            crate::order::views(sources@),
            match destination {
                Some(d) => Some(d@),
                None => None,
            },
        ),
{
    let ghost sv = crate::order::views(sources@);
    let ghost dv = match destination {
        Some(d) => Some(d@),
        None => None,
    };
    let mut r: Vec<usize> = Vec::new();
    let mut i: usize = 0;
    while i < sources.len()
        invariant
            i <= sources@.len(),
            sv == crate::order::views(sources@),
            dv == match destination {
                Some(d) => Some(d@),
                None => None,
            },
            r@.map_values(|k: usize| k as int) == left_repositories(sv.take(i as int), dv),
        decreases sources.len() - i,
    {
        assert(sv.take(i + 1).drop_last() =~= sv.take(i as int));
        let same_place = match destination {
            Some(d) => crate::text::str_equal(d.as_str(), sources[i].as_str()),
            None => false,
        };
        let mut seen = false;
        let mut j: usize = 0;
        while j < i
            invariant
                j <= i,
                i < sources@.len(),
                sv == crate::order::views(sources@),
                seen == exists|t: int| 0 <= t < j && sv[t] == sv[i as int],
            decreases i - j,
        {
            assert(sv[j as int] == sources@[j as int]@ && sv[i as int] == sources@[i as int]@);
            if crate::text::str_equal(sources[j].as_str(), sources[i].as_str()) {
                seen = true;
            }
            j = j + 1;
        }
        proof {
            let prefix = sv.take(i as int);
            assert(sv.take(i + 1)[i as int] == sv[i as int]);
            if seen {
                let t = choose|t: int| 0 <= t < i && sv[t] == sv[i as int];
                assert(prefix[t] == sv[i as int]);
            }
            if prefix.contains(sv[i as int]) {
                let t = choose|t: int| 0 <= t < prefix.len() && prefix[t] == sv[i as int];
                assert(sv[t] == sv[i as int]);
            }
        }
        if !same_place && !seen {
            let ghost before = r@.map_values(|k: usize| k as int);
            r.push(i);
            assert(r@.map_values(|k: usize| k as int) =~= before.push(i as int));
        }
        i = i + 1;
    }
    assert(sv.take(sources@.len() as int) =~= sv);
    r
}

} // verus!
