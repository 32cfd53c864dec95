//! Searching raw serial bytes.
use vstd::prelude::*;
use vstd::string::*;

verus! {

/// The bytes of an ASCII text.
pub open spec fn ascii(s: Seq<char>) -> Seq<u8> {
    s.map_values(|c: char| c as u8)
}

/// The bytes of `s`, which is ASCII.
pub fn ascii_bytes(s: &str) -> (r: &[u8])
    requires
        vstd::utf8::is_ascii_chars(s@),
    ensures
        r@ == ascii(s@),
{
    broadcast use is_ascii_spec_bytes;

    assert(is_ascii(s));
    assert(s.spec_bytes() =~= ascii(s@));
    s.as_bytes()
}

/// Whether `needle` stands in `haystack` at position `i`.
pub open spec fn occurs_at(haystack: Seq<u8>, needle: Seq<u8>, i: int) -> bool {
    0 <= i && i + needle.len() <= haystack.len() && haystack.subrange(i, i + needle.len()) == needle
}

/// Whether `needle` stands in `haystack` at all.
pub open spec fn occurs(haystack: Seq<u8>, needle: Seq<u8>) -> bool {
    exists|i: int| occurs_at(haystack, needle, i)
}

/// How many disjoint times `needle` stands in `haystack`, scanning from the
/// left and going on behind each match.
pub open spec fn count_matches(haystack: Seq<u8>, needle: Seq<u8>) -> nat
    decreases haystack.len(),
{
    if needle.len() == 0 || haystack.len() < needle.len() {
        0
    } else if occurs_at(haystack, needle, 0) {
        1 + count_matches(haystack.skip(needle.len() as int), needle)
    } else {
        count_matches(haystack.skip(1), needle)
    }
}

/// Whether `needle` stands in `haystack` at position `i`.
fn matches_at(haystack: &[u8], needle: &[u8], i: usize) -> (r: bool)
    requires
        i + needle@.len() <= haystack@.len(),
    ensures
        r == occurs_at(haystack@, needle@, i as int),
{
    let len: usize = haystack.len();
    let mut k: usize = 0;
    while k < needle.len()
        invariant
            len == haystack@.len(),
            k <= needle@.len(),
            i + needle@.len() <= haystack@.len(),
            forall|j: int| 0 <= j < k ==> haystack@[i + j] == needle@[j],
        decreases needle@.len() - k,
    {
        if haystack[i + k] != needle[k] {
            assert(haystack@.subrange(i as int, i + needle@.len())[k as int] != needle@[k as int]);
            return false;
        }
        k += 1;
    }
    assert(haystack@.subrange(i as int, i + needle@.len()) =~= needle@);
    true
}

/// The first position of `needle` in `haystack`. An empty needle is found
/// nowhere.
pub fn find_subsequence(haystack: &[u8], needle: &[u8]) -> (r: Option<usize>)
    ensures
        match r {
            Some(i) => {
                &&& needle@.len() > 0
                &&& occurs_at(haystack@, needle@, i as int)
                &&& forall|j: int| 0 <= j < i ==> !occurs_at(haystack@, needle@, j)
            },
            None => needle@.len() == 0 || !occurs(haystack@, needle@),
        },
{
    if needle.len() == 0 || haystack.len() < needle.len() {
        return None;
    }
    let mut i: usize = 0;
    while i <= haystack.len() - needle.len()
        invariant
            0 < needle@.len() <= haystack@.len(),
            i <= haystack@.len() - needle@.len() + 1,
            forall|j: int| 0 <= j < i ==> !occurs_at(haystack@, needle@, j),
        decreases haystack@.len() - i,
    {
        if matches_at(haystack, needle, i) {
            return Some(i);
        }
        i += 1;
    }
    None
}

/// Whether `needle` stands in `haystack` behind position `from`.
pub open spec fn occurs_behind(haystack: Seq<u8>, needle: Seq<u8>, from: int) -> bool {
    exists|j: int| from < j && #[trigger] occurs_at(haystack, needle, j)
}

/// Whether `needle` stands in `haystack` behind position `from`.
pub fn stands_behind(haystack: &[u8], needle: &[u8], from: usize) -> (r: bool)
    requires
        from < haystack@.len(),
    ensures
        r == occurs_behind(haystack@, needle@, from as int),
{
    let len: usize = haystack.len();
    let mut j: usize = from + 1;
    while j <= len && needle.len() <= len - j
        invariant
            len == haystack@.len(),
            from < j <= len + 1,
            from < len,
            forall|k: int| from < k < j ==> !occurs_at(haystack@, needle@, k),
        decreases len + 1 - j,
    {
        if matches_at(haystack, needle, j) {
            return true;
        }
        if j == len {
            return false;
        }
        j += 1;
    }
    false
}

/// How many disjoint times `needle` stands in `haystack`.
pub fn count_subsequence(haystack: &[u8], needle: &[u8]) -> (r: usize)
    requires
        needle@.len() > 0,
    ensures
        r == count_matches(haystack@, needle@),
{
    let mut i: usize = 0;
    let mut count: usize = 0;
    assert(haystack@.skip(0) =~= haystack@);
    while i < haystack.len() && haystack.len() - i >= needle.len()
        invariant
            needle@.len() > 0,
            i <= haystack@.len(),
            count <= i,
            count_matches(haystack@, needle@) == count + count_matches(
                haystack@.skip(i as int),
                needle@,
            ),
        decreases haystack@.len() - i,
    {
        let ghost rest = haystack@.skip(i as int);
        assert(rest.subrange(0, needle@.len() as int) =~= haystack@.subrange(
            i as int,
            i + needle@.len(),
        ));
        if matches_at(haystack, needle, i) {
            assert(rest.skip(needle@.len() as int) =~= haystack@.skip(i + needle@.len()));
            count += 1;
            i += needle.len();
        } else {
            assert(rest.skip(1) =~= haystack@.skip(i + 1));
            i += 1;
        }
    }
    count
}

// ─── Laws of counting ─────────────────────────────────────────────────────

/// Skipping up to one match length loses at most one match and gains none.
proof fn lemma_count_skip(h: Seq<u8>, n: Seq<u8>, k: int)
    requires
        n.len() > 0,
        0 <= k <= h.len(),
        k <= n.len(),
    ensures
        count_matches(h.skip(k), n) <= count_matches(h, n) <= 1 + count_matches(h.skip(k), n),
    decreases h.len(), k,
{
    if k == 0 {
        assert(h.skip(0) =~= h);
    } else if h.len() < n.len() {
    } else if occurs_at(h, n, 0) {
        let rest = h.skip(k);
        lemma_count_skip(rest, n, n.len() - k);
        assert(rest.skip(n.len() - k) =~= h.skip(n.len() as int));
    } else {
        lemma_count_skip(h.skip(1), n, k - 1);
        assert(h.skip(1).skip(k - 1) =~= h.skip(k));
    }
}

/// Counts add up over a concatenation, and a match across the seam can only
/// add to them.
pub proof fn law_count_append(a: Seq<u8>, b: Seq<u8>, n: Seq<u8>)
    requires
        n.len() > 0,
    ensures
        count_matches(a + b, n) >= count_matches(a, n) + count_matches(b, n),
    decreases a.len(),
{
    let whole = a + b;
    if a.len() < n.len() {
        lemma_count_skip(whole, n, a.len() as int);
        assert(whole.skip(a.len() as int) =~= b);
    } else {
        assert(whole.subrange(0, n.len() as int) =~= a.subrange(0, n.len() as int));
        let k = if occurs_at(a, n, 0) {
            n.len() as int
        } else {
            1
        };
        law_count_append(a.skip(k), b, n);
        assert(whole.skip(k) =~= a.skip(k) + b);
    }
}

/// The count is positive exactly where the needle occurs.
pub proof fn law_count_occurs(h: Seq<u8>, n: Seq<u8>)
    requires
        n.len() > 0,
    ensures
        occurs(h, n) <==> count_matches(h, n) > 0,
    decreases h.len(),
{
    if h.len() >= n.len() && !occurs_at(h, n, 0) {
        let rest = h.skip(1);
        law_count_occurs(rest, n);
        if occurs(h, n) {
            let i = choose|i: int| occurs_at(h, n, i);
            assert(rest.subrange(i - 1, i - 1 + n.len()) =~= h.subrange(i, i + n.len()));
            assert(occurs_at(rest, n, i - 1));
        }
        if occurs(rest, n) {
            let i = choose|i: int| occurs_at(rest, n, i);
            assert(rest.subrange(i, i + n.len()) =~= h.subrange(i + 1, i + 1 + n.len()));
            assert(occurs_at(h, n, i + 1));
        }
    }
}

/// The bytes of an ASCII text are its code points, one for one.
pub proof fn law_ascii_is_code_points(s: Seq<char>, i: int)
    requires
        0 <= i < s.len(),
        (s[i] as int) < 128,
    ensures
        ascii(s).len() == s.len(),
        ascii(s)[i] as int == s[i] as int,
{
    lemma_ascii_code(s[i]);
}

proof fn lemma_ascii_code(c: char)
    requires
        (c as int) < 128,
    ensures
        (c as u8) as int == c as int,
{
}

/// A needle occurs in bytes exactly if they are something, the needle, and something.
pub proof fn law_occurrence_is_a_cut(h: Seq<u8>, n: Seq<u8>, before: Seq<u8>, behind: Seq<u8>)
    ensures
        h == before + n + behind ==> occurs(h, n) && occurs_at(h, n, before.len() as int),
        occurs(h, n) ==> exists|a: Seq<u8>, b: Seq<u8>| #[trigger] (a + n + b) == h,
{
    if h == before + n + behind {
        assert(h.subrange(before.len() as int, (before.len() + n.len()) as int) =~= n);
        assert(occurs_at(h, n, before.len() as int));
    }
    if occurs(h, n) {
        let i = choose|i: int| occurs_at(h, n, i);
        assert(h.take(i) + n + h.skip(i + n.len()) =~= h);
    }
}

/// The needle stands at `k` places, each behind the end of the one before.
pub open spec fn stands_times(h: Seq<u8>, n: Seq<u8>, k: nat) -> bool
    decreases k,
{
    k == 0 || exists|i: int| #[trigger]
        occurs_at(h, n, i) && stands_times(h.skip(i + n.len()), n, (k - 1) as nat)
}

/// The count is the largest number of disjoint places at which the needle stands.
pub proof fn law_count_is_largest(h: Seq<u8>, n: Seq<u8>, k: nat)
    requires
        n.len() > 0,
    ensures
        stands_times(h, n, k) <==> count_matches(h, n) >= k,
    decreases h.len(), k,
{
    if k > 0 {
        let less = (k - 1) as nat;
        if stands_times(h, n, k) {
            let i = choose|i: int| #[trigger]
                occurs_at(h, n, i) && stands_times(h.skip(i + n.len()), n, less);
            let rest = h.skip(i + n.len());
            law_count_is_largest(rest, n, less);
            law_count_append(h.take(i) + n, rest, n);
            law_count_append(h.take(i), n, n);
            assert(occurs_at(n, n, 0)) by {
                assert(n.subrange(0, n.len() as int) =~= n);
            }
            assert(h =~= h.take(i) + n + rest);
        }
        if count_matches(h, n) >= k {
            if occurs_at(h, n, 0) {
                law_count_is_largest(h.skip(n.len() as int), n, less);
                assert(h.skip(0int + n.len()) =~= h.skip(n.len() as int));
            } else {
                let rest = h.skip(1);
                law_count_is_largest(rest, n, k);
                let i = choose|i: int| #[trigger]
                    occurs_at(rest, n, i) && stands_times(rest.skip(i + n.len()), n, less);
                assert(h.subrange(i + 1, i + 1 + n.len()) =~= rest.subrange(i, i + n.len()));
                assert(h.skip(i + 1 + n.len()) =~= rest.skip(i + n.len()));
                assert(occurs_at(h, n, i + 1));
            }
        }
    }
}

/// A search finds the first place at which the needle stands, and a count the largest number
/// of disjoint ones.
pub proof fn law_searches(
    haystack: &[u8],
    needle: &[u8],
    found: Option<usize>,
    count: usize,
    i: int,
    k: nat,
)
    requires
        needle@.len() > 0,
        call_ensures(find_subsequence, (haystack, needle), found),
        call_ensures(count_subsequence, (haystack, needle), count),
    ensures
        found is Some ==> haystack@.subrange(found->0 as int, found->0 + needle@.len()) == needle@,
        0 <= i <= haystack@.len() - needle@.len() && haystack@.subrange(i, i + needle@.len())
            == needle@ ==> found is Some && found->0 <= i,
        count >= k <==> stands_times(haystack@, needle@, k),
{
    law_count_is_largest(haystack@, needle@, k);
    if 0 <= i <= haystack@.len() - needle@.len() && haystack@.subrange(i, i + needle@.len())
        == needle@ {
        assert(occurs_at(haystack@, needle@, i));
    }
}

} // verus!
