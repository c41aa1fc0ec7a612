//! Lexical path manipulation: joining, parent directories, and the
//! normalization used when device symlinks are resolved.

use vstd::prelude::*;
use crate::strutil::spec_join_with;
use crate::strutil::str_eq;

verus! {

/// `path` appended to `base` the way `PathBuf::push` does it: an absolute
/// `path` replaces `base`, anything else is separated by a single `'/'`.
pub open spec fn spec_join_path(base: Seq<char>, path: Seq<char>) -> Seq<char> {
    if path.len() > 0 && path[0] == '/' {
        path
    } else if base.len() == 0 {
        path
    } else if base[base.len() - 1] == '/' {
        base + path
    } else {
        base + seq!['/'] + path
    }
}

/// Index of the last occurrence of `c` in `s`.
pub open spec fn spec_rfind(s: Seq<char>, c: char) -> Option<int>
    decreases s.len(),
{
    if s.len() == 0 {
        None
    } else if s.last() == c {
        Some(s.len() - 1)
    } else {
        spec_rfind(s.drop_last(), c)
    }
}

/// Everything before the last `'/'`; `"/"` when that slash leads the
/// path, empty when there is no slash at all.
pub open spec fn spec_dirname(p: Seq<char>) -> Seq<char> {
    match spec_rfind(p, '/') {
        None => Seq::empty(),
        Some(i) => if i == 0 {
            seq!['/']
        } else {
            p.take(i)
        },
    }
}

/// `s` split at every occurrence of `sep`.
pub open spec fn spec_split_on(s: Seq<char>, sep: char) -> Seq<Seq<char>>
    decreases s.len(),
{
    if s.len() == 0 {
        seq![Seq::<char>::empty()]
    } else if s[0] == sep {
        seq![Seq::<char>::empty()] + spec_split_on(s.skip(1), sep)
    } else {
        let r = spec_split_on(s.skip(1), sep);
        seq![seq![s[0]] + r[0]] + r.skip(1)
    }
}

/// One step of lexical normalization: empty and `.` components vanish,
/// `..` pops the last kept component, anything else is kept.
pub open spec fn spec_norm_step(acc: Seq<Seq<char>>, part: Seq<char>) -> Seq<Seq<char>> {
    if part.len() == 0 || part == "."@ {
        acc
    } else if part == ".."@ {
        if acc.len() > 0 {
            acc.drop_last()
        } else {
            acc
        }
    } else {
        acc.push(part)
    }
}

/// Left fold of `spec_norm_step` over a component list.
pub open spec fn spec_norm_fold(acc: Seq<Seq<char>>, parts: Seq<Seq<char>>) -> Seq<Seq<char>>
    decreases parts.len(),
{
    if parts.len() == 0 {
        acc
    } else {
        spec_norm_fold(spec_norm_step(acc, parts[0]), parts.skip(1))
    }
}

/// The kept components of an absolute path.
pub open spec fn spec_norm_parts(p: Seq<char>) -> Seq<Seq<char>> {
    spec_norm_fold(Seq::empty(), spec_split_on(p, '/'))
}

/// Lexical normalization of an absolute path: `/` followed by the kept
/// components, joined by `/`.
pub open spec fn spec_normalize(p: Seq<char>) -> Seq<char> {
    seq!['/'] + spec_join_with(spec_norm_parts(p), "/"@)
}

/// A split agrees with scanning for the first separator.
pub proof fn lemma_split_on_first(s: Seq<char>, sep: char, k: int)
    requires
        0 <= k <= s.len(),
        forall|j: int| 0 <= j < k ==> s[j] != sep,
        k == s.len() || s[k] == sep,
    ensures
        k == s.len() ==> spec_split_on(s, sep) == seq![s],
        k < s.len() ==> spec_split_on(s, sep) == seq![s.take(k)] + spec_split_on(
            s.skip(k + 1),
            sep,
        ),
    decreases k,
{
    if k == 0 {
        if s.len() == 0 {
            assert(spec_split_on(s, sep) =~~= seq![s]);
        } else {
            assert(s.take(0) =~= Seq::<char>::empty());
            assert(spec_split_on(s, sep) =~~= seq![s.take(0)] + spec_split_on(s.skip(1), sep));
        }
    } else {
        let t = s.skip(1);
        assert(forall|j: int| 0 <= j < k - 1 ==> t[j] != sep);
        lemma_split_on_first(t, sep, k - 1);
        let r = spec_split_on(t, sep);
        if k == s.len() {
            assert(r == seq![t]);
            assert(seq![s[0]] + r[0] =~= s);
            assert(spec_split_on(s, sep) =~~= seq![s]);
        } else {
            assert(r == seq![t.take(k - 1)] + spec_split_on(t.skip(k), sep));
            assert(seq![s[0]] + t.take(k - 1) =~= s.take(k));
            assert(r.skip(1) =~~= spec_split_on(t.skip(k), sep));
            assert(t.skip(k) =~= s.skip(k + 1));
            assert(spec_split_on(s, sep) =~~= seq![s.take(k)] + spec_split_on(s.skip(k + 1), sep));
        }
    }
}

/// A fold over one more component applies one more step.
pub proof fn lemma_norm_fold_snoc(acc: Seq<Seq<char>>, parts: Seq<Seq<char>>, x: Seq<char>)
    ensures
        spec_norm_fold(acc, parts.push(x)) == spec_norm_step(spec_norm_fold(acc, parts), x),
    decreases parts.len(),
{
    if parts.len() == 0 {
        assert(parts.push(x)[0] == x);
        assert(parts.push(x).skip(1) =~~= Seq::<Seq<char>>::empty());
        assert(spec_norm_fold(acc, parts.push(x)) == spec_norm_fold(
            spec_norm_step(acc, x),
            parts.push(x).skip(1),
        ));
        assert(spec_norm_fold(spec_norm_step(acc, x), Seq::<Seq<char>>::empty())
            == spec_norm_step(acc, x));
    } else {
        assert(parts.push(x)[0] == parts[0]);
        assert(parts.push(x).skip(1) =~~= parts.skip(1).push(x));
        lemma_norm_fold_snoc(spec_norm_step(acc, parts[0]), parts.skip(1), x);
        assert(spec_norm_fold(acc, parts.push(x)) == spec_norm_fold(
            spec_norm_step(acc, parts[0]),
            parts.skip(1).push(x),
        ));
        assert(spec_norm_fold(acc, parts) == spec_norm_fold(
            spec_norm_step(acc, parts[0]),
            parts.skip(1),
        ));
    }
}

/// The pieces of `s` around every `sep`, matching `spec_split_on`.
pub fn split_on(s: &str, sep: char) -> (r: Vec<String>)
    ensures
        r.deep_view() == spec_split_on(s@, sep),
{
    let n = s.unicode_len();
    let mut out: Vec<String> = Vec::new();
    let mut start: usize = 0;
    let mut i: usize = 0;
    proof {
        assert(s@.skip(0) =~= s@);
        assert(out.deep_view() =~~= Seq::<Seq<char>>::empty());
        assert(Seq::<Seq<char>>::empty() + spec_split_on(s@, sep) =~~= spec_split_on(s@, sep));
    }
    while i < n
        invariant
            0 <= start <= i <= n,
            n == s@.len(),
            spec_split_on(s@, sep) == out.deep_view() + spec_split_on(s@.skip(start as int), sep),
            forall|j: int| start <= j < i ==> s@[j] != sep,
        decreases n - i,
    {
        if s.get_char(i) == sep {
            let piece = s.substring_char(start, i).to_owned();
            let ghost pre = out.deep_view();
            proof {
                let rest = s@.skip(start as int);
                let k = i - start;
                assert(forall|j: int| 0 <= j < k ==> rest[j] != sep);
                assert(rest[k as int] == sep);
                lemma_split_on_first(rest, sep, k as int);
                assert(rest.take(k as int) =~= s@.subrange(start as int, i as int));
                assert(rest.skip(k + 1) =~= s@.skip(i + 1));
            }
            out.push(piece);
            proof {
                assert(out.deep_view() =~~= pre.push(piece@));
                assert(pre + (seq![piece@] + spec_split_on(s@.skip(i + 1), sep)) =~~= pre.push(
                    piece@,
                ) + spec_split_on(s@.skip(i + 1), sep));
            }
            start = i + 1;
        }
        i += 1;
    }
    let last = s.substring_char(start, n).to_owned();
    let ghost pre = out.deep_view();
    proof {
        let rest = s@.skip(start as int);
        let k = n - start;
        assert(forall|j: int| 0 <= j < k ==> rest[j] != sep);
        lemma_split_on_first(rest, sep, k as int);
        assert(rest =~= s@.subrange(start as int, n as int));
    }
    out.push(last);
    proof {
        assert(out.deep_view() =~~= pre.push(last@));
        assert(pre + seq![last@] =~~= pre.push(last@));
    }
    out
}

/// `path` joined onto `base`, matching `spec_join_path`.
pub fn join_path(base: &str, path: &str) -> (r: String)
    ensures
        r@ == spec_join_path(base@, path@),
{
    let m = path.unicode_len();
    if m > 0 && path.get_char(0) == '/' {
        return path.to_owned();
    }
    let n = base.unicode_len();
    if n == 0 {
        return path.to_owned();
    }
    let mut r = base.to_owned();
    if base.get_char(n - 1) != '/' {
        r.append("/");
    }
    r.append(path);
    proof {
        if base@[n - 1] == '/' {
            assert(r@ == base@ + path@);
        } else {
            reveal_strlit("/");
            assert("/"@ =~= seq!['/']);
            assert(base@ + "/"@ + path@ =~= base@ + seq!['/'] + path@);
        }
    }
    r
}

/// The parent directory of `p`, matching `spec_dirname`.
pub fn dirname(p: &str) -> (r: String)
    ensures
        r@ == spec_dirname(p@),
{
    let n = p.unicode_len();
    let mut i: usize = n;
    while i > 0
        invariant
            0 <= i <= n,
            n == p@.len(),
            forall|j: int| i <= j < n ==> p@[j] != '/',
        ensures
            0 <= i <= n,
            forall|j: int| i <= j < n ==> p@[j] != '/',
            i == 0 || p@[i - 1] == '/',
        decreases i,
    {
        if p.get_char(i - 1) == '/' {
            break;
        }
        i -= 1;
    }
    if i == 0 {
        proof {
            lemma_rfind_none(p@, '/');
        }
        return String::new();
    }
    proof {
        lemma_rfind_at(p@, '/', i - 1);
    }
    if i == 1 {
        let r = "/".to_owned();
        proof {
            reveal_strlit("/");
            assert(r@ =~= seq!['/']);
        }
        return r;
    }
    p.substring_char(0, i - 1).to_owned()
}

/// The last occurrence of `c` agrees with scanning backwards.
pub proof fn lemma_rfind_at(s: Seq<char>, c: char, i: int)
    requires
        0 <= i < s.len(),
        s[i] == c,
        forall|j: int| i < j < s.len() ==> s[j] != c,
    ensures
        spec_rfind(s, c) == Some(i),
    decreases s.len(),
{
    if i == s.len() - 1 {
    } else {
        let t = s.drop_last();
        assert(s.last() != c);
        assert(forall|j: int| i < j < t.len() ==> t[j] != c);
        lemma_rfind_at(t, c, i);
    }
}

/// Absence of `c` agrees with scanning backwards.
pub proof fn lemma_rfind_none(s: Seq<char>, c: char)
    requires
        forall|j: int| 0 <= j < s.len() ==> s[j] != c,
    ensures
        spec_rfind(s, c) is None,
    decreases s.len(),
{
    if s.len() > 0 {
        lemma_rfind_none(s.drop_last(), c);
    }
}

/// Lexical normalization, matching `spec_normalize`: `.`, `..` and empty
/// components of `p` are resolved without consulting the filesystem.
pub fn normalize(p: &str) -> (r: String)
    ensures
        r@ == spec_normalize(p@),
{
    let parts = split_on(p, '/');
    let mut kept: Vec<String> = Vec::new();
    let mut i: usize = 0;
    proof {
        assert(parts.deep_view().take(0) =~~= Seq::<Seq<char>>::empty());
        assert(kept.deep_view() =~~= Seq::<Seq<char>>::empty());
    }
    while i < parts.len()
        invariant
            0 <= i <= parts.len(),
            kept.deep_view() == spec_norm_fold(
                Seq::empty(),
                parts.deep_view().take(i as int),
            ),
        decreases parts.len() - i,
    {
        let part = &parts[i];
        let ghost pre = kept.deep_view();
        proof {
            lemma_norm_fold_snoc(Seq::empty(), parts.deep_view().take(i as int), parts[i as int]@);
            assert(parts.deep_view().take(i + 1) =~~= parts.deep_view().take(i as int).push(
                parts[i as int]@,
            ));
            reveal_strlit(".");
            reveal_strlit("..");
        }
        if part.as_str().unicode_len() == 0 || str_eq(part.as_str(), ".") {
            // dropped
        } else if str_eq(part.as_str(), "..") {
            if kept.len() > 0 {
                kept.pop();
                proof {
                    assert(kept.deep_view() =~~= pre.drop_last());
                }
            }
        } else {
            kept.push(part.clone());
            proof {
                assert(kept.deep_view() =~~= pre.push(parts[i as int]@));
            }
        }
        i += 1;
    }
    proof {
        assert(parts.deep_view().take(parts.len() as int) =~~= parts.deep_view());
    }
    let tail = crate::strutil::join_with(&kept, "/");
    let mut r = "/".to_owned();
    r.append(tail.as_str());
    proof {
        reveal_strlit("/");
        assert("/"@ =~= seq!['/']);
    }
    r
}

} // verus!
