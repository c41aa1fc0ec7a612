//! Reading partition UUIDs out of `parted --script <disk> print -j`.
//!
//! Only one datum of that report matters to the engine: the `uuid` of
//! each partition, in order.  The scanner below finds the `"partitions":`
//! array and collects every `"uuid":"<value>"` pair after it; the
//! partition UUIDs are exactly those, because the disk's own `uuid`
//! precedes the partition array and the per-partition `type-uuid` keys
//! spell differently.

use vstd::prelude::*;

verus! {

/// The characters of `"uuid":"`.
pub open spec fn uuid_key() -> Seq<char> {
    seq!['"', 'u', 'u', 'i', 'd', '"', ':', '"']
}

/// The characters of `"partitions":`.
pub open spec fn partitions_key() -> Seq<char> {
    seq!['"', 'p', 'a', 'r', 't', 'i', 't', 'i', 'o', 'n', 's', '"', ':']
}

/// `pat` occurs in `s` at position `i`.
pub open spec fn spec_match_at(s: Seq<char>, i: int, pat: Seq<char>) -> bool {
    0 <= i && i + pat.len() <= s.len() && s.subrange(i, i + pat.len()) == pat
}

/// The first position at or after `i` where `pat` occurs.
pub open spec fn spec_first_match(s: Seq<char>, pat: Seq<char>, i: int) -> Option<int>
    decreases s.len() - i + 1,
{
    if i + pat.len() > s.len() || i < 0 {
        None
    } else if spec_match_at(s, i, pat) {
        Some(i)
    } else {
        spec_first_match(s, pat, i + 1)
    }
}

/// The position of the first `'"'` at or after `j`, or the end.
pub open spec fn spec_quote_end(s: Seq<char>, j: int) -> int
    decreases s.len() - j,
{
    if j < 0 {
        0
    } else if j >= s.len() {
        s.len() as int
    } else if s[j] == '"' {
        j
    } else {
        spec_quote_end(s, j + 1)
    }
}

/// Every quoted value that follows a `"uuid":"` key at or after `i`.
pub open spec fn spec_uuids_from(s: Seq<char>, i: int) -> Seq<Seq<char>>
    decreases s.len() - i,
{
    if i < 0 || i + 8 > s.len() {
        Seq::empty()
    } else if spec_match_at(s, i, uuid_key()) {
        seq![s.subrange(i + 8, spec_quote_end(s, i + 8))] + spec_uuids_from(s, i + 1)
    } else {
        spec_uuids_from(s, i + 1)
    }
}

/// What the scanner extracts from a parted report: nothing when the
/// partition array is missing, else the uuid values after it, in order.
pub open spec fn spec_parted_uuids(out: Seq<char>) -> Option<Seq<Seq<char>>> {
    match spec_first_match(out, partitions_key(), 0) {
        None => None,
        Some(i) => Some(spec_uuids_from(out, i + partitions_key().len())),
    }
}

/// `pat` occurs at `i`, matching `spec_match_at`.
pub fn match_at(s: &str, i: usize, pat: &str) -> (r: bool)
    requires
        i + pat@.len() <= usize::MAX,
    ensures
        r == spec_match_at(s@, i as int, pat@),
{
    let n = s.unicode_len();
    let m = pat.unicode_len();
    if i + m > n {
        return false;
    }
    let mut k: usize = 0;
    while k < m
        invariant
            0 <= k <= m,
            i + m <= n,
            n == s@.len(),
            m == pat@.len(),
            forall|t: int| 0 <= t < k ==> s@[i + t] == pat@[t],
        decreases m - k,
    {
        if s.get_char(i + k) != pat.get_char(k) {
            assert(s@.subrange(i as int, i + m) != pat@) by {
                assert(s@.subrange(i as int, i + m)[k as int] == s@[i + k]);
            }
            return false;
        }
        k += 1;
    }
    assert(s@.subrange(i as int, i + m) =~= pat@);
    true
}

/// First occurrence of `pat` at or after `from`, matching
/// `spec_first_match`.
pub fn find_match(s: &str, pat: &str, from: usize) -> (r: Option<usize>)
    ensures
        match r {
            Some(i) => spec_first_match(s@, pat@, from as int) == Some(i as int) && from <= i && i
                + pat@.len() <= s@.len(),
            None => spec_first_match(s@, pat@, from as int) is None,
        },
{
    let n = s.unicode_len();
    let m = pat.unicode_len();
    if m > n || from > n - m {
        return None;
    }
    if m == 0 {
        proof {
            assert(s@.subrange(from as int, from as int) =~= pat@);
        }
        return Some(from);
    }
    let mut i: usize = from;
    while i <= n - m
        invariant
            from <= i,
            1 <= m <= n,
            i <= n - m + 1,
            n == s@.len(),
            m == pat@.len(),
            spec_first_match(s@, pat@, from as int) == spec_first_match(s@, pat@, i as int),
        decreases n - i,
    {
        if match_at(s, i, pat) {
            return Some(i);
        }
        i += 1;
    }
    None
}

/// Position of the closing quote, matching `spec_quote_end`.
pub fn quote_end(s: &str, j: usize) -> (r: usize)
    requires
        j <= s@.len(),
    ensures
        r as int == spec_quote_end(s@, j as int),
        j <= r <= s@.len(),
{
    let n = s.unicode_len();
    let mut k: usize = j;
    while k < n
        invariant
            j <= k <= n,
            n == s@.len(),
            spec_quote_end(s@, j as int) == spec_quote_end(s@, k as int),
        decreases n - k,
    {
        if s.get_char(k) == '"' {
            return k;
        }
        k += 1;
    }
    n
}

/// The partition UUIDs of a parted JSON report, matching
/// `spec_parted_uuids`: `None` when the report has no partition array.
pub fn parted_partition_uuids(out: &str) -> (r: Option<Vec<String>>)
    ensures
        match r {
            Some(v) => spec_parted_uuids(out@) == Some(v.deep_view()),
            None => spec_parted_uuids(out@) is None,
        },
{
    let n = out.unicode_len();
    let key = "\"partitions\":";
    proof {
        reveal_strlit("\"partitions\":");
        assert(key@ =~= partitions_key());
    }
    let start = match find_match(out, key, 0) {
        Some(i) => i + 13,
        None => {
            return None;
        },
    };
    let ukey = "\"uuid\":\"";
    proof {
        reveal_strlit("\"uuid\":\"");
        assert(ukey@ =~= uuid_key());
    }
    let mut acc: Vec<String> = Vec::new();
    proof {
        assert(acc.deep_view() =~~= Seq::<Seq<char>>::empty());
        assert(Seq::<Seq<char>>::empty() + spec_uuids_from(out@, start as int) =~~= spec_uuids_from(
            out@,
            start as int,
        ));
    }
    if n < 8 || start > n - 8 {
        return Some(acc);
    }
    let mut i: usize = start;
    while i <= n - 8
        invariant
            start <= i,
            8 <= n,
            i <= n - 8 + 1,
            n == out@.len(),
            ukey@ == uuid_key(),
            spec_uuids_from(out@, start as int) == acc.deep_view() + spec_uuids_from(
                out@,
                i as int,
            ),
        decreases n - i,
    {
        if match_at(out, i, ukey) {
            let e = quote_end(out, i + 8);
            let v = out.substring_char(i + 8, e).to_owned();
            let ghost pre = acc.deep_view();
            acc.push(v);
            proof {
                assert(acc.deep_view() =~~= pre.push(out@.subrange(i + 8, e as int)));
                assert(pre + (seq![out@.subrange(i + 8, spec_quote_end(out@, i + 8))]
                    + spec_uuids_from(out@, i + 1)) =~~= acc.deep_view() + spec_uuids_from(
                    out@,
                    i + 1,
                ));
            }
        }
        i += 1;
    }
    proof {
        assert(acc.deep_view() + spec_uuids_from(out@, i as int) =~~= acc.deep_view());
    }
    Some(acc)
}

} // verus!
