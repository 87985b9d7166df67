//! The tag heuristic: finds the commit of a release from the names of the
//! repository's tags.
use vstd::prelude::*;
use crate::error::DiffError;
use crate::text::{contains_text, ends_with, has_suffix};

verus! {

#[verifier::external_type_specification]
#[verifier::external_body]
pub struct ExRegex(regex::Regex);

/// Whether `pattern` is a regular expression that the regex crate accepts.
pub uninterp spec fn regex_compiles(pattern: Seq<char>) -> bool;

/// Whether the regex crate finds a match of `pattern` in `text`.
pub uninterp spec fn regex_matches(pattern: Seq<char>, text: Seq<char>) -> bool;

/// A compiled pattern together with the text it was compiled from.
struct TagPattern {
    re: regex::Regex,
    source: String,
}

/// Relies on regex::Regex::new: it accepts or refuses a pattern by its text alone.
#[verifier::external_body]
fn compile_pattern(pattern: &String) -> (r: Option<TagPattern>)
    ensures
        r.is_some() == regex_compiles(pattern@),
        r matches Some(p) ==> p.source@ == pattern@,
{
    regex::Regex::new(pattern).ok().map(|re| TagPattern { re, source: pattern.clone() })
}

/// Relies on regex::Regex::is_match: whether the compiled pattern matches the text.
#[verifier::external_body]
fn pattern_matches(p: &TagPattern, text: &String) -> (r: bool)
    ensures
        r == regex_matches(p.source@, text@),
{
    p.re.is_match(text)
}

/// A tag of the repository and the commit it points to.
pub struct TagRef {
    pub name: String,
    pub commit: String,
}

/// `v` with every `.` written as `\.`, so that a pattern matches it literally.
pub open spec fn escape_dots(v: Seq<char>) -> Seq<char>
    decreases v.len(),
{
    if v.len() == 0 {
        Seq::empty()
    } else if v.last() == '.' {
        escape_dots(v.drop_last()) + seq!['\\', '.']
    } else {
        escape_dots(v.drop_last()) + seq![v.last()]
    }
}

/// The pattern of filter stage `k` (0, 1 or 2) for package `name` and version `v`.
/// Stage 0: the version is not preceded by a digit from 1 to 9.
/// Stage 1: as stage 0, with the package name somewhere before the version.
/// Stage 2: the package name, then only non-word characters, then the version.
pub open spec fn stage_pattern(k: int, name: Seq<char>, v: Seq<char>) -> Seq<char> {
    if k == 0 {
        "^(?:.*[^1-9])?"@ + escape_dots(v) + "$"@
    } else if k == 1 {
        "^.*"@ + name + "(?:.*[^1-9])?"@ + escape_dots(v) + "$"@
    } else {
        "^.*"@ + name + "\\W*"@ + escape_dots(v) + "$"@
    }
}

/// The tag passes the pre-filter and the first `k` filter stages.
pub open spec fn survives(tag: Seq<char>, name: Seq<char>, v: Seq<char>, k: int) -> bool
    decreases k,
{
    if k <= 0 {
        has_suffix(tag, v)
    } else {
        survives(tag, name, v, k - 1) && regex_matches(stage_pattern(k - 1, name, v), tag)
    }
}

/// The commits that tags surviving the first `k` stages point to.
pub open spec fn stage_commits(tags: Seq<TagRef>, name: Seq<char>, v: Seq<char>, k: int) -> Set<
    Seq<char>,
> {
    Set::new(
        |c: Seq<char>|
            exists|i: int|
                0 <= i < tags.len() && survives(tags[i].name@, name, v, k) && tags[i].commit@
                    == c,
    )
}

/// The outcome of the heuristic from stage `k` on: the single commit left
/// after the first stage that leaves exactly one, `None` if no stage does, an
/// error if a stage's pattern does not compile.
pub open spec fn resolution_from(tags: Seq<TagRef>, name: Seq<char>, v: Seq<char>, k: int) -> Result<
    Option<Seq<char>>,
    DiffError,
>
    decreases 3 - k,
{
    if k >= 3 || k < 0 {
        Ok(None)
    } else if !regex_compiles(stage_pattern(k, name, v)) {
        Err(DiffError::InvalidTagPattern)
    } else if exists|c: Seq<char>| stage_commits(tags, name, v, k + 1) == set![c] {
        Ok(Some(choose|c: Seq<char>| stage_commits(tags, name, v, k + 1) == set![c]))
    } else {
        resolution_from(tags, name, v, k + 1)
    }
}

/// The outcome of the tag heuristic over all three stages.
pub open spec fn tag_resolution(tags: Seq<TagRef>, name: Seq<char>, v: Seq<char>) -> Result<
    Option<Seq<char>>,
    DiffError,
> {
    resolution_from(tags, name, v, 0)
}

fn append_escaped(s: &mut String, v: &str)
    ensures
        final(s)@ == old(s)@ + escape_dots(v@),
{
    let n = v.unicode_len();
    let mut i: usize = 0;
    while i < n
        invariant
            n == v@.len(),
            0 <= i <= n,
            s@ == old(s)@ + escape_dots(v@.subrange(0, i as int)),
        decreases n - i,
    {
        let c = v.get_char(i);
        proof {
            let pre = v@.subrange(0, i as int);
            let next = v@.subrange(0, i + 1);
            assert(next.drop_last() == pre);
            assert(next.last() == c);
        }
        if c == '.' {
            s.append("\\.");
            proof { reveal_strlit("\\."); }
        } else {
            let one = v.substring_char(i, i + 1);
            s.append(one);
            assert(one@ == seq![c]);
        }
        assert(s@ == old(s)@ + escape_dots(v@.subrange(0, i + 1)));
        i = i + 1;
    }
    assert(v@.subrange(0, n as int) == v@);
}

fn build_pattern(k: usize, name: &str, v: &str) -> (r: String)
    requires
        k < 3,
    ensures
        r@ == stage_pattern(k as int, name@, v@),
{
    let mut s = String::new();
    if k == 0 {
        s.append("^(?:.*[^1-9])?");
    } else if k == 1 {
        s.append("^.*");
        s.append(name);
        s.append("(?:.*[^1-9])?");
    } else {
        s.append("^.*");
        s.append(name);
        s.append("\\W*");
    }
    append_escaped(&mut s, v);
    s.append("$");
    s
}

proof fn lemma_singleton_eq(c: Seq<char>, d: Seq<char>)
    requires
        set![c] == set![d],
    ensures
        c == d,
{
    assert(set![c].contains(c));
}

/// Some tag before index `j` is still alive and points to `c`.
pub open spec fn alive_before(tags: Seq<TagRef>, alive: Seq<bool>, j: int, c: Seq<char>) -> bool {
    exists|t: int| 0 <= t < j && alive[t] && tags[t].commit@ == c
}

/// The distinct commits of the tags marked alive.
fn distinct_commits(tags: &Vec<TagRef>, alive: &Vec<bool>) -> (r: Vec<String>)
    requires
        alive@.len() == tags@.len(),
    ensures
        forall|a: int, b: int| 0 <= a < b < r@.len() ==> r@[a]@ != r@[b]@,
        forall|c: Seq<char>|
            #[trigger] contains_text(r@, c) == alive_before(tags@, alive@, tags@.len() as int, c),
{
    let n = tags.len();
    let mut commits: Vec<String> = Vec::new();
    let mut j: usize = 0;
    while j < n
        invariant
            n == tags@.len(),
            alive@.len() == n,
            0 <= j <= n,
            forall|a: int, b: int| 0 <= a < b < commits@.len() ==> commits@[a]@ != commits@[b]@,
            forall|c: Seq<char>|
                #[trigger] contains_text(commits@, c) == alive_before(tags@, alive@, j as int, c),
        decreases n - j,
    {
        let ghost before = commits@;
        let ghost tc = tags@[j as int].commit@;
        if alive[j] {
            let mut seen = false;
            let mut a: usize = 0;
            while a < commits.len()
                invariant
                    0 <= a <= commits@.len(),
                    j < tags@.len(),
                    tc == tags@[j as int].commit@,
                    seen ==> contains_text(commits@, tc),
                    !seen ==> forall|b: int| 0 <= b < a ==> commits@[b]@ != tc,
                decreases commits@.len() - a,
            {
                if commits[a] == tags[j].commit {
                    seen = true;
                }
                a = a + 1;
            }
            if !seen {
                commits.push(tags[j].commit.clone());
                proof {
                    assert(commits@.last()@ == tc);
                    assert forall|x: int, y: int|
                        0 <= x < y < commits@.len() implies commits@[x]@ != commits@[y]@ by {
                        if y < before.len() {
                            assert(commits@[x] == before[x] && commits@[y] == before[y]);
                        } else {
                            assert(commits@[x] == before[x]);
                        }
                    }
                }
            }
        }
        proof {
            assert forall|c: Seq<char>|
                #[trigger] contains_text(commits@, c) == alive_before(tags@, alive@, j + 1, c) by {
                if contains_text(commits@, c) {
                    let a = choose|a: int| 0 <= a < commits@.len() && commits@[a]@ == c;
                    if a < before.len() {
                        assert(commits@[a] == before[a]);
                        assert(contains_text(before, c));
                        let t = choose|t: int| 0 <= t < j && alive@[t] && tags@[t].commit@ == c;
                    } else {
                        assert(alive@[j as int] && tags@[j as int].commit@ == c);
                    }
                }
                if alive_before(tags@, alive@, j + 1, c) {
                    let t = choose|t: int| 0 <= t < j + 1 && alive@[t] && tags@[t].commit@ == c;
                    if t < j {
                        assert(alive_before(tags@, alive@, j as int, c));
                        assert(contains_text(before, c));
                        let a = choose|a: int| 0 <= a < before.len() && before[a]@ == c;
                        assert(commits@[a] == before[a]);
                    } else {
                        assert(tc == c);
                        assert(contains_text(commits@, c));
                    }
                }
            }
        }
        j = j + 1;
    }
    commits
}

proof fn lemma_survives_earlier(tag: Seq<char>, name: Seq<char>, v: Seq<char>, k: int, m: int)
    requires
        0 <= k <= m,
        survives(tag, name, v, m),
    ensures
        survives(tag, name, v, k),
    decreases m - k,
{
    if k < m {
        lemma_survives_earlier(tag, name, v, k, m - 1);
    }
}

proof fn lemma_not_single(s: Set<Seq<char>>, c: Seq<char>, d: Seq<char>)
    requires
        c != d,
        s.contains(c),
        s.contains(d),
    ensures
        !(exists|x: Seq<char>| s == set![x]),
{
    if exists|x: Seq<char>| s == set![x] {
        let x = choose|x: Seq<char>| s == set![x];
        assert(set![x].contains(c) && set![x].contains(d));
    }
}

/// Where the tags left after the first filter stage point to exactly one
/// commit, the tag heuristic returns that commit.
pub proof fn lemma_single_commit_after_first_stage(
    tags: Seq<TagRef>,
    name: Seq<char>,
    v: Seq<char>,
    c: Seq<char>,
)
    requires
        regex_compiles(stage_pattern(0, name, v)),
        stage_commits(tags, name, v, 1) == set![c],
    ensures
        tag_resolution(tags, name, v) == Ok::<Option<Seq<char>>, DiffError>(Some(c)),
{
    let d = choose|d: Seq<char>| stage_commits(tags, name, v, 1) == set![d];
    lemma_singleton_eq(c, d);
}

/// Where the tags left after all three filter stages still point to two or
/// more commits, the tag heuristic returns no commit.
pub proof fn lemma_ambiguous_tags_give_no_commit(
    tags: Seq<TagRef>,
    name: Seq<char>,
    v: Seq<char>,
    c: Seq<char>,
    d: Seq<char>,
)
    requires
        regex_compiles(stage_pattern(0, name, v)),
        regex_compiles(stage_pattern(1, name, v)),
        regex_compiles(stage_pattern(2, name, v)),
        c != d,
        stage_commits(tags, name, v, 3).contains(c),
        stage_commits(tags, name, v, 3).contains(d),
    ensures
        tag_resolution(tags, name, v) == Ok::<Option<Seq<char>>, DiffError>(None),
{
    let i = choose|i: int| 0 <= i < tags.len() && survives(tags[i].name@, name, v, 3) && tags[i].commit@ == c;
    let j = choose|j: int| 0 <= j < tags.len() && survives(tags[j].name@, name, v, 3) && tags[j].commit@ == d;
    assert forall|k: int| 1 <= k <= 3 implies stage_commits(tags, name, v, k).contains(c)
        && stage_commits(tags, name, v, k).contains(d) by {
        lemma_survives_earlier(tags[i].name@, name, v, k, 3);
        lemma_survives_earlier(tags[j].name@, name, v, k, 3);
    }
    lemma_not_single(stage_commits(tags, name, v, 1), c, d);
    lemma_not_single(stage_commits(tags, name, v, 2), c, d);
    lemma_not_single(stage_commits(tags, name, v, 3), c, d);
    assert(resolution_from(tags, name, v, 3) == Ok::<Option<Seq<char>>, DiffError>(None));
    assert(resolution_from(tags, name, v, 2) == resolution_from(tags, name, v, 3));
    assert(resolution_from(tags, name, v, 1) == resolution_from(tags, name, v, 2));
}

/// Finds the release commit of version `version` of package `name` from the
/// repository's tags. Tags that do not end with the version are left out
/// first; then three filter stages each remove the tags that do not match
/// their pattern, and the first stage after which the remaining tags point to
/// exactly one commit decides. `None` where no stage does.
pub fn resolve_from_tags(tags: &Vec<TagRef>, name: &str, version: &str) -> (r: Result<
    Option<String>,
    DiffError,
>)
    ensures
        r matches Ok(Some(c)) ==> tag_resolution(tags@, name@, version@) == Ok::<
            Option<Seq<char>>,
            DiffError,
        >(Some(c@)),
        r matches Ok(None) ==> tag_resolution(tags@, name@, version@) == Ok::<
            Option<Seq<char>>,
            DiffError,
        >(None),
        r matches Err(e) ==> tag_resolution(tags@, name@, version@) == Err::<
            Option<Seq<char>>,
            DiffError,
        >(e),
{
    let n = tags.len();
    let mut alive: Vec<bool> = Vec::new();
    let mut i: usize = 0;
    while i < n
        invariant
            n == tags@.len(),
            0 <= i <= n,
            alive@.len() == i,
            forall|j: int| 0 <= j < i ==> alive@[j] == survives(tags@[j].name@, name@, version@, 0),
        decreases n - i,
    {
        let keep = ends_with(tags[i].name.as_str(), version);
        alive.push(keep);
        i = i + 1;
    }
    let mut k: usize = 0;
    while k < 3
        invariant
            n == tags@.len(),
            0 <= k <= 3,
            alive@.len() == n,
            forall|j: int|
                0 <= j < n ==> alive@[j] == survives(tags@[j].name@, name@, version@, k as int),
            tag_resolution(tags@, name@, version@) == resolution_from(
                tags@,
                name@,
                version@,
                k as int,
            ),
        decreases 3 - k,
    {
        let source = build_pattern(k, name, version);
        let pattern = match compile_pattern(&source) {
            Some(p) => p,
            None => {
                return Err(DiffError::InvalidTagPattern);
            },
        };
        let mut j: usize = 0;
        while j < n
            invariant
                n == tags@.len(),
                0 <= j <= n,
                alive@.len() == n,
                pattern.source@ == stage_pattern(k as int, name@, version@),
                forall|t: int|
                    0 <= t < j ==> alive@[t] == survives(
                        tags@[t].name@,
                        name@,
                        version@,
                        k + 1,
                    ),
                forall|t: int|
                    j <= t < n ==> alive@[t] == survives(tags@[t].name@, name@, version@, k as int),
            decreases n - j,
        {
            if alive[j] {
                let m = pattern_matches(&pattern, &tags[j].name);
                alive.set(j, m);
            }
            j = j + 1;
        }
        let commits = distinct_commits(tags, &alive);
        let ghost stage = stage_commits(tags@, name@, version@, k + 1);
        proof {
            assert forall|c: Seq<char>| stage.contains(c) <==> contains_text(commits@, c) by {
                if stage.contains(c) {
                    let t = choose|t: int|
                        0 <= t < tags@.len() && survives(tags@[t].name@, name@, version@, k + 1)
                            && tags@[t].commit@ == c;
                    assert(alive@[t]);
                    assert(alive_before(tags@, alive@, n as int, c));
                }
                if contains_text(commits@, c) {
                    assert(alive_before(tags@, alive@, n as int, c));
                    let t = choose|t: int|
                        0 <= t < n && alive@[t] && tags@[t].commit@ == c;
                    assert(survives(tags@[t].name@, name@, version@, k + 1));
                }
            }
        }
        if commits.len() == 1 {
            let c = commits[0].clone();
            proof {
                assert(contains_text(commits@, c@));
                assert forall|x: Seq<char>| stage.contains(x) <==> set![c@].contains(x) by {
                    if contains_text(commits@, x) {
                        let a = choose|a: int| 0 <= a < commits@.len() && commits@[a]@ == x;
                    }
                }
                assert(stage =~= set![c@]);
                let d = choose|d: Seq<char>| stage == set![d];
                lemma_singleton_eq(c@, d);
            }
            return Ok(Some(c));
        }
        proof {
            if exists|c: Seq<char>| stage == set![c] {
                let c = choose|c: Seq<char>| stage == set![c];
                assert(stage.contains(c));
                assert(contains_text(commits@, c));
                if commits@.len() == 0 {
                } else {
                    assert(commits@.len() >= 2);
                    assert(contains_text(commits@, commits@[0]@));
                    assert(contains_text(commits@, commits@[1]@));
                    assert(stage.contains(commits@[0]@));
                    assert(stage.contains(commits@[1]@));
                }
            }
        }
        k = k + 1;
    }
    Ok(None)
}

} // verus!
