use vstd::prelude::*;
use crate::digest::{sha256, sha256_of};
use crate::hex::{encode_hash, hex_of, lemma_hex_len};
use crate::meta::{metadata_of, render_metadata};
use crate::refs::{Head, HeadView};
use crate::text::{blank, is_blank, str_eq};
use vstd::utf8::encode_utf8;

verus! {

/// A named branch and the commit hash it points at.
#[derive(Debug, Clone, PartialEq, Eq)]
pub struct BranchRef {
    pub name: String,
    pub hash: String,
}

/// A commit as stored in the commit namespace: its hash, its parent's hash
/// (empty for a root commit) and its message.
#[derive(Debug, Clone, PartialEq, Eq)]
pub struct CommitRecord {
    pub hash: String,
    pub parent: String,
    pub message: String,
}

/// The ways an operation on a nest can fail.
#[derive(Debug, Clone, Copy, PartialEq, Eq, Structural)]
pub enum RatError {
    /// HEAD, a branch or a parent names a commit that is not stored, or the
    /// stored history is malformed.
    CorruptHistory,
    /// A branch of that name already exists.
    BranchExists,
    /// The requested commit is not stored.
    UnknownCommit,
    /// The commit message is empty or only white space.
    EmptyCommitMessage,
}

/// A branch as a pair of name and hash.
pub type BranchView = (Seq<char>, Seq<char>);

/// A commit as a triple of hash, parent hash and message.
pub type CommitView = (Seq<char>, Seq<char>, Seq<char>);

pub open spec fn branch_view(b: BranchRef) -> BranchView {
    (b.name@, b.hash@)
}

pub open spec fn commit_view(c: CommitRecord) -> CommitView {
    (c.hash@, c.parent@, c.message@)
}

/// No two branches share a name.
pub open spec fn names_unique(bs: Seq<BranchView>) -> bool {
    forall|i: int, j: int| 0 <= i < j < bs.len() ==> bs[i].0 != bs[j].0
}

/// No two commits share a hash.
pub open spec fn hashes_unique(cs: Seq<CommitView>) -> bool {
    forall|i: int, j: int| 0 <= i < j < cs.len() ==> cs[i].0 != cs[j].0
}

pub open spec fn has_branch(bs: Seq<BranchView>, name: Seq<char>) -> bool {
    exists|i: int| 0 <= i < bs.len() && bs[i].0 == name
}

/// The hash a branch points at, if the branch exists.
pub open spec fn lookup_branch(bs: Seq<BranchView>, name: Seq<char>) -> Option<Seq<char>> {
    if has_branch(bs, name) {
        Some(bs[choose|i: int| 0 <= i < bs.len() && bs[i].0 == name].1)
    } else {
        None
    }
}

pub open spec fn has_commit(cs: Seq<CommitView>, hash: Seq<char>) -> bool {
    exists|i: int| 0 <= i < cs.len() && cs[i].0 == hash
}

/// The stored commit with a given hash; meaningful when it exists.
pub open spec fn commit_of(cs: Seq<CommitView>, hash: Seq<char>) -> CommitView {
    cs[choose|i: int| 0 <= i < cs.len() && cs[i].0 == hash]
}

/// Every parent named by a stored commit is stored too.
pub open spec fn parents_stored(cs: Seq<CommitView>) -> bool {
    forall|i: int| 0 <= i < cs.len() && cs[i].1.len() > 0 ==> has_commit(cs, #[trigger] cs[i].1)
}

/// The commit that HEAD designates: the direct hash, or the hash of the
/// branch it names; `None` when that branch has no commit yet.
pub open spec fn resolve(head: HeadView, bs: Seq<BranchView>) -> Option<Seq<char>> {
    match head {
        HeadView::Direct(h) => Some(h),
        HeadView::Symbolic(name) => lookup_branch(bs, name),
    }
}

/// The branches after pointing `name` at `hash`: the branch is moved in
/// place when it exists, and added at the end otherwise.
pub open spec fn set_branch(bs: Seq<BranchView>, name: Seq<char>, hash: Seq<char>) -> Seq<BranchView> {
    if has_branch(bs, name) {
        bs.update(choose|i: int| 0 <= i < bs.len() && bs[i].0 == name, (name, hash))
    } else {
        bs.push((name, hash))
    }
}

/// The names of the branches that point at `hash`, in the order of `bs`.
pub open spec fn names_at(bs: Seq<BranchView>, hash: Seq<char>) -> Seq<Seq<char>>
    decreases bs.len(),
{
    if bs.len() == 0 {
        Seq::empty()
    } else if bs.last().1 == hash {
        names_at(bs.drop_last(), hash).push(bs.last().0)
    } else {
        names_at(bs.drop_last(), hash)
    }
}

/// The hashes met when following parent links from `hash`, newest first,
/// up to a root commit; `None` when a hash on the way is not stored or the
/// walk takes more than `fuel` commits.
pub open spec fn chain(cs: Seq<CommitView>, hash: Seq<char>, fuel: nat) -> Option<Seq<Seq<char>>>
    decreases fuel,
{
    if fuel == 0 || !has_commit(cs, hash) {
        None
    } else if commit_of(cs, hash).1.len() == 0 {
        Some(seq![hash])
    } else {
        match chain(cs, commit_of(cs, hash).1, (fuel - 1) as nat) {
            Some(rest) => Some(seq![hash] + rest),
            None => None,
        }
    }
}

/// The file contents of a working tree, in traversal order.
pub open spec fn tree_view(files: Seq<Vec<u8>>) -> Seq<Seq<u8>> {
    files.map_values(|f: Vec<u8>| f@)
}

/// The hash of a commit: the lowercase hex SHA-256 digest of the UTF-8
/// metadata followed by the bytes of every file of the tree, in order.
pub open spec fn commit_id(parent: Seq<char>, message: Seq<char>, tree: Seq<Seq<u8>>) -> Seq<char> {
    hex_of(sha256_of(encode_utf8(metadata_of(parent, message)) + tree.flatten()))
}

/// The parent of the next commit: the commit HEAD designates, or empty.
pub open spec fn next_parent(head: HeadView, bs: Seq<BranchView>) -> Seq<char> {
    match resolve(head, bs) {
        Some(h) => h,
        None => Seq::empty(),
    }
}

/// The commits after storing `c`; storing a hash that is already there
/// changes nothing.
pub open spec fn add_commit(cs: Seq<CommitView>, c: CommitView) -> Seq<CommitView> {
    if has_commit(cs, c.0) {
        cs
    } else {
        cs.push(c)
    }
}

/// HEAD and the branches after moving HEAD to `hash`: through the branch
/// it names when symbolic, else HEAD itself.
pub open spec fn write_head(head: HeadView, bs: Seq<BranchView>, hash: Seq<char>) -> (
    HeadView,
    Seq<BranchView>,
) {
    match head {
        HeadView::Symbolic(name) => (head, set_branch(bs, name, hash)),
        HeadView::Direct(_) => (HeadView::Direct(hash), bs),
    }
}

/// Where a moved HEAD is persisted: the HEAD slot, or a branch's slot.
#[derive(Debug, Clone, PartialEq, Eq)]
pub enum Slot {
    Head,
    Branch(String),
}

/// What a commit produced: its hash, the metadata to store under it, and
/// the slot that now holds the hash.
#[derive(Debug, Clone, PartialEq, Eq)]
pub struct NewCommit {
    pub hash: String,
    pub metadata: String,
    pub slot: Slot,
}

/// Copies the bytes of `metadata`, then those of every file, into one buffer.
fn commit_bytes(metadata: &str, files: &Vec<Vec<u8>>) -> (r: Vec<u8>)
    ensures
        r@ == encode_utf8(metadata@) + tree_view(files@).flatten(),
{
    let mut data: Vec<u8> = metadata.as_bytes_vec();
    let mut i: usize = 0;
    assert(tree_view(files@).subrange(0, 0) =~= Seq::<Seq<u8>>::empty());
    while i < files.len()
        invariant
            i <= files@.len(),
            data@ == encode_utf8(metadata@) + tree_view(files@).subrange(0, i as int).flatten(),
        decreases files@.len() - i,
    {
        let f = &files[i];
        let ghost before = data@;
        let mut j: usize = 0;
        while j < f.len()
            invariant
                j <= f@.len(),
                f == files@[i as int],
                data@ == before + f@.subrange(0, j as int),
            decreases f@.len() - j,
        {
            data.push(f[j]);
            assert(data@ =~= before + f@.subrange(0, j + 1));
            j += 1;
        }
        proof {
            let t = tree_view(files@);
            assert(t.subrange(0, i + 1) =~= t.subrange(0, i as int).push(f@));
            t.subrange(0, i as int).lemma_flatten_push(f@);
            assert(f@.subrange(0, j as int) =~= f@);
            assert(data@ =~= encode_utf8(metadata@) + t.subrange(0, i + 1).flatten());
        }
        i += 1;
    }
    assert(tree_view(files@).subrange(0, i as int) =~= tree_view(files@));
    data
}

/// Hashes commit metadata together with the file contents of a tree.
pub fn hash_directory(metadata: &str, files: &Vec<Vec<u8>>) -> (r: String)
    ensures
        r@ == hex_of(sha256_of(encode_utf8(metadata@) + tree_view(files@).flatten())),
        r@.len() == 64,
{
    let data = commit_bytes(metadata, files);
    let digest = sha256(data.as_slice());
    proof {
        lemma_hex_len(digest@);
    }
    encode_hash(digest.as_slice())
}

/// One commit of a history: its hash, its message and the names of the
/// branches that point at it.
#[derive(Debug, Clone, PartialEq, Eq)]
pub struct LogEntry {
    pub hash: String,
    pub message: String,
    pub branches: Vec<String>,
}

pub type EntryView = (Seq<char>, Seq<char>, Seq<Seq<char>>);

pub open spec fn names_view(names: Seq<String>) -> Seq<Seq<char>> {
    names.map_values(|s: String| s@)
}

pub open spec fn entry_view(e: LogEntry) -> EntryView {
    (e.hash@, e.message@, names_view(e.branches@))
}

/// The history shown for the hashes `hs`: each with its message and the
/// branches pointing at it.
pub open spec fn history(cs: Seq<CommitView>, bs: Seq<BranchView>, hs: Seq<Seq<char>>) -> Seq<
    EntryView,
> {
    hs.map_values(|h: Seq<char>| (h, commit_of(cs, h).2, names_at(bs, h)))
}

/// `prefix` placed before the walk `rest`, when the walk succeeded.
pub open spec fn prepend(prefix: Seq<Seq<char>>, rest: Option<Seq<Seq<char>>>) -> Option<
    Seq<Seq<char>>,
> {
    match rest {
        Some(s) => Some(prefix + s),
        None => None,
    }
}

/// What a commit of `tree` with `message` does to `before`, giving `after`
/// and the result `r`.
pub open spec fn commit_post(
    before: Nest,
    after: Nest,
    message: Seq<char>,
    tree: Seq<Seq<u8>>,
    r: Result<NewCommit, RatError>,
) -> bool {
    let parent = next_parent(before.head_view(), before.branches_view());
    let hash = commit_id(parent, message, tree);
    if parent.len() > 0 && !has_commit(before.commits_view(), parent) {
        &&& r == Err::<NewCommit, RatError>(RatError::CorruptHistory)
        &&& after.head_view() == before.head_view()
        &&& after.branches_view() == before.branches_view()
        &&& after.commits_view() == before.commits_view()
    } else {
        &&& r matches Ok(c) && {
            &&& c.hash@ == hash
            &&& c.hash@.len() == 64
            &&& c.metadata@ == metadata_of(parent, message)
            &&& match before.head_view() {
                HeadView::Symbolic(name) => c.slot matches Slot::Branch(b) && b@ == name,
                HeadView::Direct(_) => c.slot == Slot::Head,
            }
        }
        &&& after.commits_view() == add_commit(before.commits_view(), (hash, parent, message))
        &&& (after.head_view(), after.branches_view()) == write_head(
            before.head_view(),
            before.branches_view(),
            hash,
        )
    }
}

/// Accepts a commit message unless it is empty or only white space, which
/// cancels the commit.
pub fn check_message(message: &str) -> (r: Result<(), RatError>)
    ensures
        is_blank(message@) ==> r == Err::<(), RatError>(RatError::EmptyCommitMessage),
        !is_blank(message@) ==> r is Ok,
{
    if blank(message) {
        Err(RatError::EmptyCommitMessage)
    } else {
        Ok(())
    }
}

/// The storage of a nest: HEAD, the branch refs, and the commit metadata.
/// Snapshots of the working tree are kept beside it, under each commit's
/// hash.
pub struct Nest {
    head: Head,
    branches: Vec<BranchRef>,
    commits: Vec<CommitRecord>,
}

impl Nest {
    pub closed spec fn head_view(&self) -> HeadView {
        self.head@
    }

    pub closed spec fn branches_view(&self) -> Seq<BranchView> {
        self.branches@.map_values(|b: BranchRef| branch_view(b))
    }

    pub closed spec fn commits_view(&self) -> Seq<CommitView> {
        self.commits@.map_values(|c: CommitRecord| commit_view(c))
    }

    /// Branch names are unique, commit hashes are unique, and every parent
    /// that a commit names is stored.
    pub open spec fn wf(&self) -> bool {
        &&& names_unique(self.branches_view())
        &&& hashes_unique(self.commits_view())
        &&& parents_stored(self.commits_view())
    }

    /// A freshly initialised nest: HEAD on `main`, no branches, no commits.
    pub fn new() -> (r: Nest)
        ensures
            r.wf(),
            r.head_view() == HeadView::Symbolic(seq!['m', 'a', 'i', 'n']),
            r.branches_view() == Seq::<BranchView>::empty(),
            r.commits_view() == Seq::<CommitView>::empty(),
    {
        let r = Nest { head: Head::initial(), branches: Vec::new(), commits: Vec::new() };
        assert(r.branches_view() =~= Seq::<BranchView>::empty());
        assert(r.commits_view() =~= Seq::<CommitView>::empty());
        r
    }

    /// Assembles a nest from stored parts. Fails with `CorruptHistory`
    /// exactly when two branches share a name, two commits share a hash, or
    /// a commit names a parent that is not stored.
    pub fn load(head: Head, branches: Vec<BranchRef>, commits: Vec<CommitRecord>) -> (r: Result<
        Nest,
        RatError,
    >)
        ensures
            ({
                let bv = branches@.map_values(|b: BranchRef| branch_view(b));
                let cv = commits@.map_values(|c: CommitRecord| commit_view(c));
                match r {
                    Ok(n) => {
                        &&& n.wf()
                        &&& n.head_view() == head@
                        &&& n.branches_view() == bv
                        &&& n.commits_view() == cv
                    },
                    Err(e) => e == RatError::CorruptHistory && !(names_unique(bv) && hashes_unique(
                        cv,
                    ) && parents_stored(cv)),
                }
            }),
    {
        let ghost bv = branches@.map_values(|b: BranchRef| branch_view(b));
        let ghost cv = commits@.map_values(|c: CommitRecord| commit_view(c));
        let mut n = Nest { head, branches: Vec::new(), commits: Vec::new() };
        let mut i: usize = 0;
        assert(n.branches_view() =~= bv.subrange(0, 0));
        while i < branches.len()
            invariant
                i <= branches@.len(),
                bv == branches@.map_values(|b: BranchRef| branch_view(b)),
                n.branches_view() == bv.subrange(0, i as int),
                names_unique(n.branches_view()),
                n.head_view() == head@,
                n.commits@.len() == 0,
            decreases branches@.len() - i,
        {
            let b = &branches[i];
            match n.find_branch(b.name.as_str()) {
                Some(j) => {
                    assert(bv[j as int].0 == bv[i as int].0);
                    return Err(RatError::CorruptHistory);
                },
                None => {
                    n.branches.push(BranchRef { name: b.name.clone(), hash: b.hash.clone() });
                    assert(n.branches_view() =~= bv.subrange(0, i + 1));
                },
            }
            i += 1;
        }
        assert(bv.subrange(0, i as int) =~= bv);
        let mut i: usize = 0;
        assert(n.commits_view() =~= cv.subrange(0, 0));
        while i < commits.len()
            invariant
                i <= commits@.len(),
                cv == commits@.map_values(|c: CommitRecord| commit_view(c)),
                n.commits_view() == cv.subrange(0, i as int),
                hashes_unique(n.commits_view()),
                n.head_view() == head@,
                n.branches_view() == bv,
                names_unique(bv),
            decreases commits@.len() - i,
        {
            let c = &commits[i];
            match n.find_commit(c.hash.as_str()) {
                Some(j) => {
                    assert(cv[j as int].0 == cv[i as int].0);
                    return Err(RatError::CorruptHistory);
                },
                None => {
                    n.commits.push(
                        CommitRecord {
                            hash: c.hash.clone(),
                            parent: c.parent.clone(),
                            message: c.message.clone(),
                        },
                    );
                    assert(n.commits_view() =~= cv.subrange(0, i + 1));
                },
            }
            i += 1;
        }
        assert(cv.subrange(0, i as int) =~= cv);
        let mut k: usize = 0;
        while k < n.commits.len()
            invariant
                k <= cv.len(),
                cv == commits@.map_values(|c: CommitRecord| commit_view(c)),
                bv == branches@.map_values(|b: BranchRef| branch_view(b)),
                n.commits_view() == cv,
                n.branches_view() == bv,
                n.head_view() == head@,
                names_unique(bv),
                hashes_unique(cv),
                forall|j: int| 0 <= j < k && cv[j].1.len() > 0 ==> has_commit(cv, #[trigger] cv[j].1),
            decreases cv.len() - k,
        {
            let p = n.commits[k].parent.as_str();
            assert(p@ == cv[k as int].1);
            if p.unicode_len() > 0 && n.find_commit(p).is_none() {
                assert(!parents_stored(cv)) by {
                    assert(cv[k as int].1.len() > 0 && !has_commit(cv, cv[k as int].1));
                }
                return Err(RatError::CorruptHistory);
            }
            k += 1;
        }
        Ok(n)
    }

    pub fn head(&self) -> (r: &Head)
        ensures
            r@ == self.head_view(),
    {
        &self.head
    }

    /// The branch refs, in the order stored.
    pub fn branches(&self) -> (r: &Vec<BranchRef>)
        ensures
            r@.map_values(|b: BranchRef| branch_view(b)) == self.branches_view(),
    {
        &self.branches
    }

    /// The stored commits.
    pub fn commits(&self) -> (r: &Vec<CommitRecord>)
        ensures
            r@.map_values(|c: CommitRecord| commit_view(c)) == self.commits_view(),
    {
        &self.commits
    }

    /// The index of the branch called `name`, if there is one.
    fn find_branch(&self, name: &str) -> (r: Option<usize>)
        ensures
            match r {
                Some(i) => i < self.branches_view().len() && self.branches_view()[i as int].0
                    == name@,
                None => !has_branch(self.branches_view(), name@),
            },
    {
        let mut i: usize = 0;
        while i < self.branches.len()
            invariant
                i <= self.branches@.len(),
                forall|j: int| 0 <= j < i ==> self.branches_view()[j].0 != name@,
            decreases self.branches@.len() - i,
        {
            if str_eq(self.branches[i].name.as_str(), name) {
                return Some(i);
            }
            i += 1;
        }
        None
    }

    /// The index of the commit with hash `hash`, if it is stored.
    fn find_commit(&self, hash: &str) -> (r: Option<usize>)
        ensures
            match r {
                Some(i) => i < self.commits_view().len() && self.commits_view()[i as int].0
                    == hash@,
                None => !has_commit(self.commits_view(), hash@),
            },
    {
        let mut i: usize = 0;
        while i < self.commits.len()
            invariant
                i <= self.commits@.len(),
                forall|j: int| 0 <= j < i ==> self.commits_view()[j].0 != hash@,
            decreases self.commits@.len() - i,
        {
            if str_eq(self.commits[i].hash.as_str(), hash) {
                return Some(i);
            }
            i += 1;
        }
        None
    }

    /// The commit that HEAD designates, if any. Changes nothing.
    pub fn resolve_head(&self) -> (r: Option<String>)
        requires
            self.wf(),
        ensures
            match r {
                Some(h) => resolve(self.head_view(), self.branches_view()) == Some(h@),
                None => resolve(self.head_view(), self.branches_view()) is None,
            },
    {
        match &self.head {
            Head::Direct(h) => Some(h.clone()),
            Head::Symbolic(name) => match self.find_branch(name.as_str()) {
                Some(i) => {
                    assert(names_unique(self.branches_view()));
                    Some(self.branches[i].hash.clone())
                },
                None => None,
            },
        }
    }

    /// Points the branch `name` at `hash`, creating it if needed.
    fn write_branch(&mut self, name: &str, hash: &str)
        requires
            old(self).wf(),
        ensures
            final(self).wf(),
            final(self).head_view() == old(self).head_view(),
            final(self).commits_view() == old(self).commits_view(),
            final(self).branches_view() == set_branch(old(self).branches_view(), name@, hash@),
    {
        match self.find_branch(name) {
            Some(i) => {
                self.branches[i] = BranchRef { name: name.to_owned(), hash: hash.to_owned() };
                assert(self.branches_view() =~= set_branch(old(self).branches_view(), name@, hash@));
            },
            None => {
                self.branches.push(BranchRef { name: name.to_owned(), hash: hash.to_owned() });
                assert(self.branches_view() =~= set_branch(old(self).branches_view(), name@, hash@));
            },
        }
    }

    /// Records a commit of the working tree `files` (file contents in
    /// traversal order) with `message`, on top of the commit HEAD designates,
    /// and moves HEAD to it. Fails, and changes nothing, when HEAD designates
    /// a commit that is not stored.
    pub fn commit(&mut self, message: &str, files: &Vec<Vec<u8>>) -> (r: Result<NewCommit, RatError>)
        requires
            old(self).wf(),
        ensures
            final(self).wf(),
            commit_post(*old(self), *final(self), message@, tree_view(files@), r),
    {
        let parent = match self.resolve_head() {
            Some(h) => h,
            None => String::new(),
        };
        let ghost parent_v = next_parent(self.head_view(), self.branches_view());
        assert(parent@ == parent_v);
        if parent.as_str().unicode_len() > 0 {
            if self.find_commit(parent.as_str()).is_none() {
                return Err(RatError::CorruptHistory);
            }
        }
        let metadata = render_metadata(parent.as_str(), message);
        let hash = hash_directory(metadata.as_str(), files);
        let ghost cv: CommitView = (hash@, parent@, message@);
        if self.find_commit(hash.as_str()).is_none() {
            self.commits.push(
                CommitRecord { hash: hash.clone(), parent: parent, message: message.to_owned() },
            );
            proof {
                let cs = self.commits_view();
                let os = old(self).commits_view();
                assert(cs =~= os.push(cv));
                assert forall|i: int| 0 <= i < cs.len() && cs[i].1.len() > 0 implies has_commit(
                    cs,
                    #[trigger] cs[i].1,
                ) by {
                    if i < os.len() {
                        let k = choose|k: int| 0 <= k < os.len() && os[k].0 == os[i].1;
                        assert(cs[k].0 == cs[i].1);
                    } else {
                        let k = choose|k: int| 0 <= k < os.len() && os[k].0 == parent_v;
                        assert(cs[k].0 == cs[i].1);
                    }
                }
            }
        }
        let slot = match &self.head {
            Head::Symbolic(name) => {
                let name = name.clone();
                self.write_branch(name.as_str(), hash.as_str());
                Slot::Branch(name)
            },
            Head::Direct(_) => {
                self.head = Head::Direct(hash.clone());
                Slot::Head
            },
        };
        Ok(NewCommit { hash, metadata, slot })
    }

    /// The names of the branches pointing at `hash`, in the order stored.
    fn branches_at(&self, hash: &str) -> (r: Vec<String>)
        ensures
            names_view(r@) == names_at(self.branches_view(), hash@),
    {
        let mut r: Vec<String> = Vec::new();
        let mut i: usize = 0;
        while i < self.branches.len()
            invariant
                i <= self.branches@.len(),
                names_view(r@) == names_at(self.branches_view().subrange(0, i as int), hash@),
            decreases self.branches@.len() - i,
        {
            let ghost bs = self.branches_view();
            let ghost before = r@;
            assert(bs.subrange(0, i + 1).drop_last() =~= bs.subrange(0, i as int));
            if str_eq(self.branches[i].hash.as_str(), hash) {
                r.push(self.branches[i].name.clone());
                assert(names_view(r@) =~= names_view(before).push(bs[i as int].0));
            }
            i += 1;
        }
        assert(self.branches_view().subrange(0, i as int) =~= self.branches_view());
        r
    }

    /// The history from the commit HEAD designates back to the root,
    /// newest first. Empty when HEAD designates no commit; fails when a hash
    /// on the way is not stored or the parent links loop.
    pub fn log(&self) -> (r: Result<Vec<LogEntry>, RatError>)
        requires
            self.wf(),
        ensures
            match resolve(self.head_view(), self.branches_view()) {
                None => r matches Ok(es) && es@.len() == 0,
                Some(h) => match chain(self.commits_view(), h, self.commits_view().len()) {
                    None => r == Err::<Vec<LogEntry>, RatError>(RatError::CorruptHistory),
                    Some(hs) => r matches Ok(es) && es@.map_values(|e: LogEntry| entry_view(e))
                        == history(self.commits_view(), self.branches_view(), hs),
                },
            },
    {
        let start = match self.resolve_head() {
            None => {
                return Ok(Vec::new());
            },
            Some(h) => h,
        };
        let ghost cs = self.commits_view();
        let ghost bs = self.branches_view();
        let n = self.commits.len();
        let mut cur = start.clone();
        let mut steps: usize = 0;
        let mut out: Vec<LogEntry> = Vec::new();
        let ghost mut hs: Seq<Seq<char>> = Seq::empty();
        assert(hs + seq![cur@] =~= seq![cur@]);
        loop
            invariant
                steps <= n == cs.len(),
                cs == self.commits_view(),
                bs == self.branches_view(),
                self.wf(),
                resolve(self.head_view(), bs) == Some(start@),
                out@.map_values(|e: LogEntry| entry_view(e)) == history(cs, bs, hs),
                chain(cs, start@, n as nat) == prepend(hs, chain(cs, cur@, (n - steps) as nat)),
            decreases n - steps,
        {
            if steps == n {
                assert(chain(cs, cur@, 0) is None);
                assert(chain(cs, start@, n as nat) is None);
                return Err(RatError::CorruptHistory);
            }
            match self.find_commit(cur.as_str()) {
                None => {
                    assert(chain(cs, cur@, (n - steps) as nat) is None);
                    assert(chain(cs, start@, n as nat) is None);
                    return Err(RatError::CorruptHistory);
                },
                Some(i) => {
                    let ghost fuel = (n - steps) as nat;
                    let ghost old_hs = hs;
                    let ghost c = cur@;
                    assert(commit_of(cs, c) == cs[i as int]);
                    let entry = LogEntry {
                        hash: cur.clone(),
                        message: self.commits[i].message.clone(),
                        branches: self.branches_at(cur.as_str()),
                    };
                    assert(cs[i as int] == commit_view(self.commits@[i as int]));
                    assert(entry_view(entry) == (c, commit_of(cs, c).2, names_at(bs, c)));
                    let ghost before = out@;
                    out.push(entry);
                    proof {
                        assert(out@ == before.push(entry));
                        hs = hs.push(c);
                        assert(out@.map_values(|e: LogEntry| entry_view(e)) =~= before.map_values(
                            |e: LogEntry| entry_view(e),
                        ).push(entry_view(entry)));
                        assert(history(cs, bs, hs) =~= history(cs, bs, old_hs).push(
                            (c, commit_of(cs, c).2, names_at(bs, c)),
                        ));
                        assert(out@.map_values(|e: LogEntry| entry_view(e)) =~= history(cs, bs, hs));
                    }
                    if self.commits[i].parent.as_str().unicode_len() == 0 {
                        assert(old_hs + seq![c] =~= hs);
                        return Ok(out);
                    }
                    cur = self.commits[i].parent.clone();
                    steps += 1;
                    proof {
                        match chain(cs, cur@, (fuel - 1) as nat) {
                            Some(rest) => {
                                assert(old_hs + (seq![c] + rest) =~= hs + rest);
                            },
                            None => {},
                        }
                    }
                },
            }
        }
    }

    /// Checks that the snapshot of `hash` can be checked out: the commit must
    /// be stored. Changes nothing; the working tree is restored from the
    /// snapshot kept under that hash.
    pub fn checkout(&self, hash: &str) -> (r: Result<(), RatError>)
        ensures
            r is Ok <==> has_commit(self.commits_view(), hash@),
            r is Err ==> r == Err::<(), RatError>(RatError::UnknownCommit),
    {
        match self.find_commit(hash) {
            Some(_) => Ok(()),
            None => Err(RatError::UnknownCommit),
        }
    }

    /// Creates the branch `name` pointing at `target`. Fails, and changes
    /// nothing, when a branch of that name exists.
    pub fn create_branch(&mut self, name: &str, target: &str) -> (r: Result<(), RatError>)
        requires
            old(self).wf(),
        ensures
            final(self).wf(),
            final(self).head_view() == old(self).head_view(),
            final(self).commits_view() == old(self).commits_view(),
            has_branch(old(self).branches_view(), name@) ==> r == Err::<(), RatError>(
                RatError::BranchExists,
            ) && final(self).branches_view() == old(self).branches_view(),
            !has_branch(old(self).branches_view(), name@) ==> r is Ok
                && final(self).branches_view() == old(self).branches_view().push(
                (name@, target@),
            ),
    {
        match self.find_branch(name) {
            Some(_) => Err(RatError::BranchExists),
            None => {
                self.branches.push(BranchRef { name: name.to_owned(), hash: target.to_owned() });
                assert(self.branches_view() =~= old(self).branches_view().push((name@, target@)));
                Ok(())
            },
        }
    }
}

} // verus!
