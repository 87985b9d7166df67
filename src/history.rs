//! The manifest-history walk: finds the commit of a release from the commits
//! that changed the package's manifest.
use vstd::prelude::*;

verus! {

/// Whether both texts are semantic versions and the first orders strictly
/// before the second.
pub uninterp spec fn semver_less(a: Seq<char>, b: Seq<char>) -> bool;

/// Relies on semver::Version::parse and semver's ordering of versions.
#[verifier::external_body]
fn version_less(a: &str, b: &str) -> (r: bool)
    ensures
        r == semver_less(a@, b@),
{
    match (semver::Version::parse(a), semver::Version::parse(b)) {
        (Ok(x), Ok(y)) => x < y,
        _ => false,
    }
}

/// What was observed of one commit of the walk, taken from head backward in
/// time order.
///
/// `version` is the package's version declared at the commit, `None` where no
/// manifest of the package was found there; `parent_version` the same at its
/// single parent. Both need only be read where `needs_versions` says so.
pub struct CommitObservation {
    pub id: String,
    pub parent_count: usize,
    pub touches_manifest: bool,
    pub version: Option<String>,
    pub parent_version: Option<String>,
}

/// Whether the versions at a commit decide anything: true of the initial
/// commit and of an ordinary commit that changed a manifest.
pub open spec fn inspected(parent_count: nat, touches_manifest: bool) -> bool {
    parent_count == 0 || (parent_count == 1 && touches_manifest)
}

/// The commit is the release of version `target`: an initial commit at the
/// version; or an ordinary commit that changed a manifest, sets the version,
/// and whose parent had no version or a strictly smaller one.
pub open spec fn is_release(o: CommitObservation, target: Seq<char>) -> bool {
    &&& o.version matches Some(v) && v@ == target
    &&& inspected(o.parent_count as nat, o.touches_manifest)
    &&& o.parent_count == 1 ==> match o.parent_version {
        None => true,
        Some(p) => semver_less(p@, target),
    }
}

/// The index of the first release commit of the walk, if any.
pub open spec fn first_release(h: Seq<CommitObservation>, target: Seq<char>) -> Option<int> {
    if exists|i: int|
        0 <= i < h.len() && is_release(h[i], target) && forall|j: int|
            0 <= j < i ==> !is_release(#[trigger] h[j], target) {
        Some(
            choose|i: int|
                0 <= i < h.len() && is_release(h[i], target) && forall|j: int|
                    0 <= j < i ==> !is_release(#[trigger] h[j], target),
        )
    } else {
        None
    }
}

/// Whether the walk must read the versions at a commit with this many
/// parents: merges and commits that left the manifests alone are skipped.
pub fn needs_versions(parent_count: usize, touches_manifest: bool) -> (r: bool)
    ensures
        r == inspected(parent_count as nat, touches_manifest),
{
    parent_count == 0 || (parent_count == 1 && touches_manifest)
}

/// Whether the observed commit is the release of version `target`.
pub fn commit_is_release(o: &CommitObservation, target: &str) -> (r: bool)
    ensures
        r == is_release(*o, target@),
{
    let at_target = match &o.version {
        Some(v) => v.as_str().to_owned() == target.to_owned(),
        None => false,
    };
    if !at_target || !needs_versions(o.parent_count, o.touches_manifest) {
        return false;
    }
    if o.parent_count == 0 {
        return true;
    }
    match &o.parent_version {
        None => true,
        Some(p) => version_less(p.as_str(), target),
    }
}

proof fn lemma_first_release_is(h: Seq<CommitObservation>, target: Seq<char>, i: int)
    requires
        0 <= i < h.len(),
        is_release(h[i], target),
        forall|j: int| 0 <= j < i ==> !is_release(#[trigger] h[j], target),
    ensures
        first_release(h, target) == Some(i),
{
    let c = choose|c: int|
        0 <= c < h.len() && is_release(h[c], target) && forall|j: int|
            0 <= j < c ==> !is_release(#[trigger] h[j], target);
    if c < i {
        assert(!is_release(h[c], target));
    } else if c > i {
        assert(!is_release(h[i], target));
    }
}

proof fn lemma_first_release_push(h: Seq<CommitObservation>, o: CommitObservation, target: Seq<char>)
    ensures
        first_release(h.push(o), target) == match first_release(h, target) {
            Some(i) => Some(i),
            None => if is_release(o, target) {
                Some(h.len() as int)
            } else {
                None
            },
        },
{
    let g = h.push(o);
    match first_release(h, target) {
        Some(i) => {
            assert(g[i] == h[i]);
            assert forall|j: int| 0 <= j < i implies !is_release(#[trigger] g[j], target) by {
                assert(g[j] == h[j]);
            }
            lemma_first_release_is(g, target, i);
        },
        None => {
            assert forall|j: int| 0 <= j < h.len() implies !is_release(#[trigger] h[j], target) by {
                if is_release(h[j], target) {
                    lemma_first_exists(h, target, j);
                }
            }
            assert forall|j: int| 0 <= j < h.len() implies !is_release(#[trigger] g[j], target) by {
                assert(g[j] == h[j]);
            }
            if is_release(o, target) {
                assert(g[h.len() as int] == o);
                lemma_first_release_is(g, target, h.len() as int);
            } else {
                if first_release(g, target) is Some {
                    let c = first_release(g, target)->Some_0;
                    lemma_closest_to_head_wins(g, target, c);
                    if c < h.len() {
                        assert(!is_release(g[c], target));
                    } else {
                        assert(g[c] == o);
                    }
                }
            }
        },
    }
}

/// The walk over the commits from head backward, fed one observed commit at
/// a time. It settles on the first release commit of the target version that
/// it is shown, the one closest to head.
pub struct HistoryWalk {
    target: String,
    found: Option<String>,
    seen: Ghost<Seq<CommitObservation>>,
}

impl HistoryWalk {
    /// The commits observed so far, newest first.
    pub closed spec fn observed(&self) -> Seq<CommitObservation> {
        self.seen@
    }

    /// The version the walk looks for.
    pub closed spec fn target_version(&self) -> Seq<char> {
        self.target@
    }

    /// The walk holds the release commit among those observed, if any.
    pub closed spec fn wf(&self) -> bool {
        match first_release(self.seen@, self.target@) {
            Some(i) => self.found matches Some(id) && id@ == self.seen@[i].id@,
            None => self.found is None,
        }
    }

    /// A walk for version `target` that has seen no commit yet.
    pub fn new(target: &str) -> (r: HistoryWalk)
        ensures
            r.wf(),
            r.observed() == Seq::<CommitObservation>::empty(),
            r.target_version() == target@,
    {
        let r = HistoryWalk { target: target.to_owned(), found: None, seen: Ghost(Seq::empty()) };
        proof {
            assert(first_release(r.seen@, r.target@) is None);
        }
        r
    }

    /// Shows the walk the next commit; true once a release commit was found,
    /// when the walk can stop.
    pub fn observe(&mut self, o: &CommitObservation) -> (done: bool)
        requires
            old(self).wf(),
        ensures
            final(self).wf(),
            final(self).observed() == old(self).observed().push(*o),
            final(self).target_version() == old(self).target_version(),
            done == first_release(final(self).observed(), final(self).target_version()) is Some,
    {
        proof {
            lemma_first_release_push(self.seen@, *o, self.target@);
        }
        let ghost before = self.seen@;
        if self.found.is_none() {
            if commit_is_release(o, self.target.as_str()) {
                self.found = Some(o.id.clone());
            }
        }
        self.seen = Ghost(self.seen@.push(*o));
        proof {
            assert(self.seen@[before.len() as int] == *o);
            if first_release(before, self.target@) is Some {
                let i = first_release(before, self.target@)->Some_0;
                assert(self.seen@[i] == before[i]);
            }
        }
        self.found.is_some()
    }

    /// The release commit among those observed, if any.
    pub fn result(&self) -> (r: Option<String>)
        requires
            self.wf(),
        ensures
            match first_release(self.observed(), self.target_version()) {
                Some(i) => r matches Some(id) && id@ == self.observed()[i].id@,
                None => r is None,
            },
    {
        match &self.found {
            Some(id) => Some(id.clone()),
            None => None,
        }
    }
}

/// Walks the observed commits from head backward and returns the first that
/// is the release of version `target`: the one closest to head.
pub fn resolve_from_history(history: &Vec<CommitObservation>, target: &str) -> (r: Option<String>)
    ensures
        match first_release(history@, target@) {
            Some(i) => r matches Some(id) && id@ == history@[i].id@,
            None => r is None,
        },
{
    let n = history.len();
    let mut walk = HistoryWalk::new(target);
    let mut i: usize = 0;
    while i < n
        invariant
            n == history@.len(),
            0 <= i <= n,
            walk.wf(),
            walk.target_version() == target@,
            walk.observed() == history@.subrange(0, i as int),
        decreases n - i,
    {
        walk.observe(&history[i]);
        assert(walk.observed() =~= history@.subrange(0, i + 1));
        i = i + 1;
    }
    assert(history@.subrange(0, n as int) =~= history@);
    walk.result()
}

/// A merge commit is never the result of the walk.
pub proof fn lemma_merge_never_resolved(h: Seq<CommitObservation>, target: Seq<char>)
    ensures
        first_release(h, target) matches Some(i) ==> h[i].parent_count <= 1,
{
}

/// Of several release commits in the walk, the one closest to head is the
/// result.
pub proof fn lemma_closest_to_head_wins(h: Seq<CommitObservation>, target: Seq<char>, k: int)
    requires
        0 <= k < h.len(),
        is_release(h[k], target),
    ensures
        first_release(h, target) matches Some(i) && i <= k && is_release(h[i], target),
{
    lemma_first_exists(h, target, k);
    let i = first_release(h, target)->Some_0;
    if i > k {
        assert(!is_release(h[k], target));
    }
}

proof fn lemma_first_exists(h: Seq<CommitObservation>, target: Seq<char>, k: int)
    requires
        0 <= k < h.len(),
        is_release(h[k], target),
    ensures
        exists|i: int|
            0 <= i < h.len() && is_release(h[i], target) && forall|j: int|
                0 <= j < i ==> !is_release(#[trigger] h[j], target),
    decreases k,
{
    if exists|j: int| 0 <= j < k && is_release(h[j], target) {
        let j = choose|j: int| 0 <= j < k && is_release(h[j], target);
        lemma_first_exists(h, target, j);
    } else {
        assert(forall|j: int| 0 <= j < k ==> !is_release(#[trigger] h[j], target));
    }
}

} // verus!
