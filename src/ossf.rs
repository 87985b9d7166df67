//! Security-practice scorecards of the packages a project depends on.
use vstd::prelude::*;
use crate::text::{contains_text, distinct_texts, insert_text};

verus! {

/// A package and its scorecard, where one was found.
#[derive(Debug, Clone, Default)]
pub struct PackageOSSFReport {
    pub name: String,
    pub ossf_report: Option<OSSFReport>,
}

/// Which security practices a package's repository follows.
#[derive(Debug, Clone, Copy, Default)]
pub struct OSSFReport {
    pub security_policy: bool,
    pub multi_org_contributors: bool,
    pub frozen_deps: bool,
    pub signed_releases: bool,
    pub signed_tags: bool,
    pub ci_tests: bool,
    pub code_review: bool,
    pub cii_best_practices: bool,
    pub pull_requests: bool,
    pub fuzzing: bool,
    pub sast: bool,
    pub active: bool,
    pub branch_protection: bool,
    pub packaging: bool,
}

/// Collects the names of the packages whose scorecards are wanted.
pub struct OSSFClient {
    packages: Vec<String>,
}

impl OSSFClient {
    /// The names collected, each once.
    pub closed spec fn package_names(&self) -> Set<Seq<char>> {
        Set::new(|p: Seq<char>| contains_text(self.packages@, p))
    }

    /// The client's list holds no name twice.
    pub closed spec fn wf(&self) -> bool {
        distinct_texts(self.packages@)
    }

    /// A client with no packages yet.
    pub fn new() -> (r: Self)
        ensures
            r.wf(),
            r.package_names() == Set::<Seq<char>>::empty(),
    {
        let r = OSSFClient { packages: Vec::new() };
        assert(r.package_names() =~= Set::<Seq<char>>::empty());
        r
    }

    /// Adds the name of a package, once however often it is added.
    pub fn add_package(&mut self, name: &str)
        requires
            old(self).wf(),
        ensures
            final(self).wf(),
            final(self).package_names() == old(self).package_names().insert(name@),
    {
        insert_text(&mut self.packages, name.to_owned());
        assert(self.package_names() =~= old(self).package_names().insert(name@));
    }

    /// The names collected, in the order first added.
    pub fn packages(&self) -> (r: Vec<String>)
        ensures
            forall|p: Seq<char>| self.package_names().contains(p) <==> contains_text(r@, p),
    {
        let mut out: Vec<String> = Vec::new();
        let mut i: usize = 0;
        while i < self.packages.len()
            invariant
                0 <= i <= self.packages@.len(),
                out@.len() == i,
                forall|j: int| 0 <= j < i ==> out@[j]@ == self.packages@[j]@,
            decreases self.packages@.len() - i,
        {
            out.push(self.packages[i].clone());
            i = i + 1;
        }
        proof {
            assert forall|p: Seq<char>| self.package_names().contains(p) <==> contains_text(out@, p) by {
                if contains_text(out@, p) {
                    let k = choose|k: int| 0 <= k < out@.len() && out@[k]@ == p;
                    assert(self.packages@[k]@ == p);
                }
                if contains_text(self.packages@, p) {
                    let k = choose|k: int| 0 <= k < self.packages@.len() && self.packages@[k]@ == p;
                    assert(out@[k]@ == p);
                }
            }
        }
        out
    }
}

} // verus!
