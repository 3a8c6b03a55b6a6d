use vstd::prelude::*;
use crate::nest::{
    chain, commit_id, commit_of, commit_post, has_commit, next_parent, CommitView, Nest,
    NewCommit, RatError,
};

verus! {

/// Committing the same tree with the same message on top of the same parent
/// gives the same hash, whatever nest the commit is made in.
pub proof fn lemma_commit_deterministic(
    a: Nest,
    a2: Nest,
    b: Nest,
    b2: Nest,
    message: Seq<char>,
    tree: Seq<Seq<u8>>,
    ra: Result<NewCommit, RatError>,
    rb: Result<NewCommit, RatError>,
)
    requires
        commit_post(a, a2, message, tree, ra),
        commit_post(b, b2, message, tree, rb),
        next_parent(a.head_view(), a.branches_view()) == next_parent(
            b.head_view(),
            b.branches_view(),
        ),
        ra is Ok,
        rb is Ok,
    ensures
        ra->Ok_0.hash@ == rb->Ok_0.hash@,
{
}

/// Every stored commit that names a parent has that parent stored, so every
/// commit reachable from a branch or HEAD has its parent stored.
pub proof fn lemma_chain_integrity(n: Nest, hash: Seq<char>)
    requires
        n.wf(),
        has_commit(n.commits_view(), hash),
        commit_of(n.commits_view(), hash).1.len() > 0,
    ensures
        has_commit(n.commits_view(), commit_of(n.commits_view(), hash).1),
{
    let cs = n.commits_view();
    let i = choose|i: int| 0 <= i < cs.len() && cs[i].0 == hash;
    assert(cs[i].1.len() > 0);
}

/// A walk of the history starts at the given hash, goes from each commit to
/// its parent, newest first, and ends at a commit whose parent is empty.
pub proof fn lemma_log_order(cs: Seq<CommitView>, hash: Seq<char>, fuel: nat)
    requires
        chain(cs, hash, fuel) is Some,
    ensures
        ({
            let hs = chain(cs, hash, fuel)->Some_0;
            &&& hs.len() > 0
            &&& hs[0] == hash
            &&& forall|i: int| 0 <= i < hs.len() ==> has_commit(cs, #[trigger] hs[i])
            &&& forall|i: int|
                0 <= i < hs.len() - 1 ==> commit_of(cs, #[trigger] hs[i]).1 == hs[i + 1]
                    && hs[i + 1].len() > 0
            &&& commit_of(cs, hs[hs.len() - 1]).1.len() == 0
        }),
    decreases fuel,
{
    let parent = commit_of(cs, hash).1;
    if parent.len() > 0 {
        lemma_log_order(cs, parent, (fuel - 1) as nat);
        let rest = chain(cs, parent, (fuel - 1) as nat)->Some_0;
        let hs = chain(cs, hash, fuel)->Some_0;
        assert(hs == seq![hash] + rest);
        assert forall|i: int| 0 <= i < hs.len() implies has_commit(cs, #[trigger] hs[i]) by {
            if i > 0 {
                assert(hs[i] == rest[i - 1]);
            }
        }
        assert forall|i: int| 0 <= i < hs.len() - 1 implies commit_of(cs, #[trigger] hs[i]).1
            == hs[i + 1] && hs[i + 1].len() > 0 by {
            if i > 0 {
                assert(hs[i] == rest[i - 1]);
            }
        }
    }
}

/// Checking out a commit leaves the nest as it was, so committing the
/// restored tree again, with the same message and parent, gives the hash
/// that committing the snapshot's tree itself gives.
pub proof fn lemma_checkout_round_trip(
    n: Nest,
    n2: Nest,
    message: Seq<char>,
    snapshot: Seq<Seq<u8>>,
    restored: Seq<Seq<u8>>,
    r: Result<NewCommit, RatError>,
)
    requires
        restored == snapshot,
        commit_post(n, n2, message, restored, r),
        r is Ok,
    ensures
        r->Ok_0.hash@ == commit_id(
            next_parent(n.head_view(), n.branches_view()),
            message,
            snapshot,
        ),
{
}

} // verus!
