use vstd::prelude::*;

verus! {

/// `s` ends with `suffix`.
pub open spec fn has_suffix(s: Seq<char>, suffix: Seq<char>) -> bool {
    suffix.len() <= s.len() && s.subrange(s.len() - suffix.len(), s.len() as int) == suffix
}

/// Whether two strings hold the same characters.
pub fn same_text(a: &str, b: &str) -> (r: bool)
    ensures
        r == (a@ == b@),
{
    a.to_owned() == b.to_owned()
}

/// Whether `s` ends with `suffix`.
pub fn ends_with(s: &str, suffix: &str) -> (r: bool)
    ensures
        r == has_suffix(s@, suffix@),
{
    let n = s.unicode_len();
    let m = suffix.unicode_len();
    if m > n {
        return false;
    }
    let tail = s.substring_char(n - m, n);
    let r = same_text(tail, suffix);
    r
}

/// The text that an optional string holds.
pub open spec fn text_of(o: Option<String>) -> Option<Seq<char>> {
    match o {
        Some(s) => Some(s@),
        None => None,
    }
}

/// Some entry of `v` holds the text `c`.
pub open spec fn contains_text(v: Seq<String>, c: Seq<char>) -> bool {
    exists|a: int| 0 <= a < v.len() && v[a]@ == c
}

/// No two entries of `v` hold the same text.
pub open spec fn distinct_texts(v: Seq<String>) -> bool {
    forall|a: int, b: int| 0 <= a < b < v.len() ==> v[a]@ != v[b]@
}

/// Adds `item` to `v` unless an entry already holds its text.
pub fn insert_text(v: &mut Vec<String>, item: String)
    requires
        distinct_texts(old(v)@),
    ensures
        distinct_texts(final(v)@),
        forall|c: Seq<char>|
            #[trigger] contains_text(final(v)@, c) == (contains_text(old(v)@, c) || c == item@),
{
    let mut a: usize = 0;
    while a < v.len()
        invariant
            0 <= a <= v@.len(),
            v@ == old(v)@,
            distinct_texts(v@),
            forall|b: int| 0 <= b < a ==> v@[b]@ != item@,
        decreases v@.len() - a,
    {
        if v[a] == item {
            proof {
                assert forall|c: Seq<char>|
                    #[trigger] contains_text(v@, c) == (contains_text(v@, c) || c == item@) by {
                    if c == item@ {
                        assert(v@[a as int]@ == c);
                    }
                }
            }
            return;
        }
        a = a + 1;
    }
    let ghost before = v@;
    v.push(item);
    proof {
        assert forall|x: int, y: int| 0 <= x < y < v@.len() implies v@[x]@ != v@[y]@ by {
            assert(v@[x] == before[x] || x == before.len());
        }
        assert forall|c: Seq<char>|
            #[trigger] contains_text(v@, c) == (contains_text(before, c) || c == item@) by {
            if contains_text(before, c) {
                let k = choose|k: int| 0 <= k < before.len() && before[k]@ == c;
                assert(v@[k] == before[k]);
            }
            if c == item@ {
                assert(v@[before.len() as int]@ == c);
            }
            if contains_text(v@, c) {
                let k = choose|k: int| 0 <= k < v@.len() && v@[k]@ == c;
                if k < before.len() {
                    assert(v@[k] == before[k]);
                }
            }
        }
    }
}

} // verus!
