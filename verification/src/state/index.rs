//! The index of repositories Acre has touched, so a lease can be released from anywhere.
//! Most recently seen first: release searches the index in order.

use vstd::prelude::*;

use crate::git::repository::Repository;
use crate::model::KnownRepository;
use crate::order::{lemma_le_transitive, lemma_less_asymmetric, lemma_less_irreflexive, lemma_less_total, seq_le, seq_less, str_less};
use crate::util::now_iso;

verus! {

#[derive(Debug, Clone)]
pub struct RepositoryIndex {
    pub schema_version: u32,
    pub repositories: Vec<KnownRepository>,
}

/// The schema of the index Acre writes.
pub const INDEX_SCHEMA: u32 = 1;

/// The repositories a stored index holds; an index with another schema holds none.
pub open spec fn index_entries(stored: Option<RepositoryIndex>) -> Seq<KnownRepository> {
    match stored {
        Some(index) => if index.schema_version == INDEX_SCHEMA {
            index.repositories@
        } else {
            Seq::empty()
        },
        None => Seq::empty(),
    }
}

/// The repositories of a stored index; an index with another schema reads as empty.
pub fn load_repository_index(stored: Option<RepositoryIndex>) -> (r: Vec<KnownRepository>)
    ensures
        r@ == index_entries(stored),
{
    match stored {
        Some(index) => if index.schema_version == INDEX_SCHEMA {
            index.repositories
        } else {
            Vec::new()
        },
        None => Vec::new(),
    }
}

/// The index to write for `repositories`, in the current schema.
pub fn index_for(repositories: Vec<KnownRepository>) -> (index: RepositoryIndex)
    ensures
        index.schema_version == INDEX_SCHEMA,
        index.repositories@ == repositories@,
{
    RepositoryIndex { schema_version: INDEX_SCHEMA, repositories }
}

/// An index written for a list of repositories reads back as that same list, in order.
pub proof fn law_written_index_reads_back(repositories: Seq<KnownRepository>, index: RepositoryIndex)
    requires
        index.schema_version == INDEX_SCHEMA,
        index.repositories@ == repositories,
    ensures
        index_entries(Some(index)) == repositories,
{
}

pub open spec fn seen_keys(v: Seq<KnownRepository>) -> Seq<Seq<char>> {
    v.map_values(|r: KnownRepository| r.last_seen_at@)
}

/// Most recently seen first (timestamps compare as text, which orders RFC 3339 times).
pub open spec fn newest_first(v: Seq<KnownRepository>) -> bool {
    forall|i: int, j: int|
        0 <= i < j < v.len() ==> seq_le(#[trigger] v[j].last_seen_at@, #[trigger] v[i].last_seen_at@)
}

/// `r` is recorded under another id and another common directory than `repository`.
pub open spec fn unrelated(r: KnownRepository, repository: Repository) -> bool {
    r.id@ != repository.id@ && r.common_dir@ != repository.common_dir@
}

/// The entry `remember_repository_at` records for `repository`.
pub open spec fn is_entry_for(r: KnownRepository, repository: Repository, now: Seq<char>) -> bool {
    &&& r.id@ == repository.id@
    &&& r.name@ == repository.name@
    &&& r.common_dir@ == repository.common_dir@
    &&& r.top_level@ == repository.top_level@
    &&& crate::git::refs::opt_view(r.remote_url) == crate::git::refs::opt_view(repository.remote_url)
    &&& r.last_seen_at@ == now
}

/// Inserts `x` after every entry seen at the same time or later, so the order stays newest
/// first and earlier entries stay ahead of later equal ones.
fn insert_by_recency(v: &mut Vec<KnownRepository>, x: KnownRepository)
    requires
        newest_first(old(v)@),
    ensures
        newest_first(final(v)@),
        final(v)@.to_multiset() == old(v)@.to_multiset().insert(x),
{
    let mut k: usize = 0;
    while k < v.len() && !str_less(v[k].last_seen_at.as_str(), x.last_seen_at.as_str())
        invariant
            k <= v.len(),
            v@ == old(v)@,
            forall|i: int| 0 <= i < k ==> !seq_less(#[trigger] v@[i].last_seen_at@, x.last_seen_at@),
        decreases v.len() - k,
    {
        k = k + 1;
    }
    let ghost old_v = v@;
    let ghost xk = x.last_seen_at@;
    v.insert(k, x);
    proof {
        let nv = v@;
        assert(nv =~= old_v.insert(k as int, x));
        assert forall|i: int, j: int| 0 <= i < j < nv.len() implies seq_le(
            #[trigger] nv[j].last_seen_at@,
            #[trigger] nv[i].last_seen_at@,
        ) by {
            if j < k {
                assert(nv[i] == old_v[i] && nv[j] == old_v[j]);
            } else if j == k {
                let a = old_v[i].last_seen_at@;
                lemma_less_total(a, xk);
            } else if i == k {
                let b = old_v[j - 1].last_seen_at@;
                assert(seq_less(old_v[k as int].last_seen_at@, xk));
                if j - 1 > k {
                    assert(seq_le(old_v[j - 1].last_seen_at@, old_v[k as int].last_seen_at@));
                }
                lemma_less_irreflexive(b);
                assert(seq_le(b, old_v[k as int].last_seen_at@));
                lemma_less_asymmetric(old_v[k as int].last_seen_at@, xk);
                lemma_le_transitive(b, old_v[k as int].last_seen_at@, xk);
            } else if i < k {
                let a = old_v[i].last_seen_at@;
                let b = old_v[j - 1].last_seen_at@;
                assert(!seq_less(a, xk));
                assert(seq_le(b, a));
            } else {
                assert(nv[i] == old_v[i - 1] && nv[j] == old_v[j - 1]);
            }
        }
        assert(nv.remove(k as int) =~= old_v);
        broadcast use vstd::seq_lib::group_to_multiset_ensures;
        assert(nv.to_multiset().remove(x) =~= old_v.to_multiset());
        assert(nv.to_multiset().count(x) > 0) by {
            assert(nv[k as int] == x);
            assert(nv.contains(x));
        }
        assert(nv.to_multiset() =~= old_v.to_multiset().insert(x));
    }
}

fn clone_known(r: &KnownRepository) -> (c: KnownRepository)
    ensures
        c == *r,
{
    KnownRepository {
        id: r.id.clone(),
        name: r.name.clone(),
        common_dir: r.common_dir.clone(),
        top_level: r.top_level.clone(),
        remote_url: match &r.remote_url {
            Some(u) => Some(u.clone()),
            None => None,
        },
        last_seen_at: r.last_seen_at.clone(),
    }
}

/// The index after `repository` is seen at `now`: any entry with its id or its common
/// directory is replaced (so a moved checkout updates its paths), and the entries are ordered
/// newest first.
pub fn remember_repository_at(repositories: Vec<KnownRepository>, repository: &Repository, now: String) -> (r:
    Vec<KnownRepository>)
    ensures
        newest_first(r@),
        exists|entry: KnownRepository|
            is_entry_for(entry, *repository, now@) && #[trigger] r@.to_multiset()
                == repositories@.filter(|k: KnownRepository| unrelated(k, *repository)).to_multiset().insert(entry),
{
    let ghost kept_spec = repositories@.filter(|k: KnownRepository| unrelated(k, *repository));
    let mut kept: Vec<KnownRepository> = Vec::new();
    let mut i: usize = 0;
    while i < repositories.len()
        invariant
            i <= repositories@.len(),
            kept@ == repositories@.take(i as int).filter(|k: KnownRepository| unrelated(k, *repository)),
        decreases repositories.len() - i,
    {
        let r = &repositories[i];
        proof {
            reveal(Seq::filter);
            assert(repositories@.take(i + 1).drop_last() =~= repositories@.take(i as int));
        }
        if !crate::text::str_equal(r.id.as_str(), repository.id.as_str()) && !crate::text::str_equal(
            r.common_dir.as_str(),
            repository.common_dir.as_str(),
        ) {
            kept.push(clone_known(r));
        }
        i = i + 1;
    }
    assert(repositories@.take(repositories@.len() as int) =~= repositories@);
    let entry = KnownRepository {
        id: repository.id.clone(),
        name: repository.name.clone(),
        common_dir: repository.common_dir.clone(),
        top_level: repository.top_level.clone(),
        remote_url: match &repository.remote_url {
            Some(u) => Some(u.clone()),
            None => None,
        },
        last_seen_at: now,
    };
    let ghost e = entry;
    let mut sorted: Vec<KnownRepository> = Vec::new();
    let mut j: usize = 0;
    proof {
        broadcast use vstd::seq_lib::group_to_multiset_ensures;
        assert(kept@.take(0) =~= Seq::<KnownRepository>::empty());
        assert(sorted@ =~= Seq::<KnownRepository>::empty());
    }
    while j < kept.len()
        invariant
            j <= kept@.len(),
            newest_first(sorted@),
            sorted@.to_multiset() == kept@.take(j as int).to_multiset(),
        decreases kept.len() - j,
    {
        insert_by_recency(&mut sorted, clone_known(&kept[j]));
        proof {
            broadcast use vstd::seq_lib::group_to_multiset_ensures;
            assert(kept@.take(j + 1) =~= kept@.take(j as int).push(kept@[j as int]));
        }
        j = j + 1;
    }
    assert(kept@.take(kept@.len() as int) =~= kept@);
    insert_by_recency(&mut sorted, entry);
    assert(is_entry_for(e, *repository, now@));
    sorted
}

/// Records that `repository` was seen now.
pub fn remember_repository(repositories: Vec<KnownRepository>, repository: &Repository) -> (r: Vec<
    KnownRepository,
>)
    ensures
        newest_first(r@),
        exists|entry: KnownRepository, now: Seq<char>|
            crate::util::is_millis_stamp(now) && is_entry_for(entry, *repository, now) && #[trigger] r@.to_multiset()
                == repositories@.filter(|k: KnownRepository| unrelated(k, *repository)).to_multiset().insert(entry),
{
    remember_repository_at(repositories, repository, now_iso())
}

} // verus!
