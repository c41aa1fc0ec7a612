//! Text helpers shared by the parsers and the command builders.
//!
//! Every exec function here carries an exact contract over `Seq<char>`;
//! the spec functions are the reference semantics that the parsers and
//! builders elsewhere in the crate are specified against.

use vstd::prelude::*;

verus! {

/// Horizontal whitespace, as the table and env-file parsers understand it.
pub open spec fn is_ws(c: char) -> bool {
    c == ' ' || c == '\t' || c == '\r'
}

/// `p` is a prefix of `s`.
pub open spec fn spec_starts_with(s: Seq<char>, p: Seq<char>) -> bool {
    s.len() >= p.len() && s.subrange(0, p.len() as int) == p
}

/// `s` split at every `'\n'`; a text of `n` newlines yields `n + 1` pieces.
pub open spec fn spec_split_lines(s: Seq<char>) -> Seq<Seq<char>>
    decreases s.len(),
{
    if s.len() == 0 {
        seq![Seq::<char>::empty()]
    } else if s[0] == '\n' {
        seq![Seq::<char>::empty()] + spec_split_lines(s.skip(1))
    } else {
        let r = spec_split_lines(s.skip(1));
        seq![seq![s[0]] + r[0]] + r.skip(1)
    }
}

/// The whitespace-separated words of `s`, in order, each non-empty.
pub open spec fn spec_tokens(s: Seq<char>) -> Seq<Seq<char>>
    decreases s.len(),
{
    if s.len() == 0 {
        Seq::empty()
    } else if is_ws(s[0]) {
        spec_tokens(s.skip(1))
    } else {
        let r = spec_tokens(s.skip(1));
        if s.len() > 1 && !is_ws(s[1]) {
            seq![seq![s[0]] + r[0]] + r.skip(1)
        } else {
            seq![seq![s[0]]] + r
        }
    }
}

/// `s` without leading whitespace.
pub open spec fn spec_trim_start(s: Seq<char>) -> Seq<char>
    decreases s.len(),
{
    if s.len() > 0 && is_ws(s[0]) {
        spec_trim_start(s.skip(1))
    } else {
        s
    }
}

/// `s` without trailing whitespace.
pub open spec fn spec_trim_end(s: Seq<char>) -> Seq<char>
    decreases s.len(),
{
    if s.len() > 0 && is_ws(s.last()) {
        spec_trim_end(s.drop_last())
    } else {
        s
    }
}

/// `s` without leading or trailing whitespace.
pub open spec fn spec_trim(s: Seq<char>) -> Seq<char> {
    spec_trim_end(spec_trim_start(s))
}

/// Index of the first occurrence of `c` in `s`.
pub open spec fn spec_find(s: Seq<char>, c: char) -> Option<int>
    decreases s.len(),
{
    if s.len() == 0 {
        None
    } else if s[0] == c {
        Some(0int)
    } else {
        match spec_find(s.skip(1), c) {
            Some(i) => Some(i + 1),
            None => None,
        }
    }
}

pub open spec fn is_digit(c: char) -> bool {
    '0' <= c && c <= '9'
}

pub open spec fn digit_val(c: char) -> int {
    c as u32 - '0' as u32
}

pub open spec fn all_digits(s: Seq<char>) -> bool {
    forall|i: int| 0 <= i < s.len() ==> is_digit(s[i])
}

/// The value of a string of decimal digits.
pub open spec fn digits_val(s: Seq<char>) -> int
    decreases s.len(),
{
    if s.len() == 0 {
        0
    } else {
        digits_val(s.drop_last()) * 10 + digit_val(s.last())
    }
}

/// Decimal parse with optional sign, as `i32::from_str` accepts it:
/// `None` on an empty or non-digit body and on values outside `i32`.
pub open spec fn spec_parse_i32(s: Seq<char>) -> Option<int> {
    let neg = s.len() > 0 && s[0] == '-';
    let ds = if s.len() > 0 && (s[0] == '-' || s[0] == '+') {
        s.skip(1)
    } else {
        s
    };
    if ds.len() == 0 || !all_digits(ds) {
        None
    } else {
        let v = if neg {
            -digits_val(ds)
        } else {
            digits_val(ds)
        };
        if -0x8000_0000 <= v && v <= 0x7fff_ffff {
            Some(v)
        } else {
            None
        }
    }
}

/// The parse above, with a fallback for unparseable text.
pub open spec fn spec_parse_i32_or(s: Seq<char>, d: int) -> int {
    match spec_parse_i32(s) {
        Some(v) => v,
        None => d,
    }
}

/// Case-folded character code: ASCII upper case maps onto lower case.
pub open spec fn lower_code(c: char) -> int {
    if 'A' <= c && c <= 'Z' {
        c as u32 + 32
    } else {
        c as u32 as int
    }
}

/// Equality up to ASCII case.
pub open spec fn spec_eq_ignore_case(a: Seq<char>, b: Seq<char>) -> bool {
    a.len() == b.len() && (forall|i: int| 0 <= i < a.len() ==> lower_code(a[i]) == lower_code(b[i]))
}

/// `parts` joined by `sep`.
pub open spec fn spec_join_with(parts: Seq<Seq<char>>, sep: Seq<char>) -> Seq<char>
    decreases parts.len(),
{
    if parts.len() == 0 {
        Seq::empty()
    } else if parts.len() == 1 {
        parts[0]
    } else {
        parts[0] + sep + spec_join_with(parts.skip(1), sep)
    }
}

/// `s` stripped of one pair of matching outer quotes, if present.
pub open spec fn spec_unquote(s: Seq<char>) -> Seq<char> {
    if s.len() >= 2 && s[0] == s[s.len() - 1] && (s[0] == '"' || s[0] == '\'') {
        s.subrange(1, s.len() - 1)
    } else {
        s
    }
}

// ------------------------------------------------------------------
// Lemmas about the spec functions.
// ------------------------------------------------------------------

/// A split always yields at least one piece.
pub proof fn lemma_split_lines_len(s: Seq<char>)
    ensures
        spec_split_lines(s).len() >= 1,
{
}

/// A split agrees with scanning for the first newline: the first piece is
/// everything before it, the rest is the split of everything after it.
pub proof fn lemma_split_lines_first(s: Seq<char>, k: int)
    requires
        0 <= k <= s.len(),
        forall|j: int| 0 <= j < k ==> s[j] != '\n',
        k == s.len() || s[k] == '\n',
    ensures
        k == s.len() ==> spec_split_lines(s) == seq![s],
        k < s.len() ==> spec_split_lines(s) == seq![s.take(k)] + spec_split_lines(s.skip(k + 1)),
    decreases k,
{
    if k == 0 {
        if s.len() == 0 {
            assert(spec_split_lines(s) =~~= seq![s]);
        } else {
            assert(s[0] == '\n');
            assert(s.take(0) =~= Seq::<char>::empty());
            assert(spec_split_lines(s) =~~= seq![s.take(0)] + spec_split_lines(s.skip(1)));
        }
    } else {
        assert(s[0] != '\n');
        let t = s.skip(1);
        assert(forall|j: int| 0 <= j < k - 1 ==> t[j] != '\n');
        lemma_split_lines_first(t, k - 1);
        let r = spec_split_lines(t);
        if k == s.len() {
            assert(r == seq![t]);
            assert(seq![s[0]] + r[0] =~= s);
            assert(spec_split_lines(s) =~~= seq![s]);
        } else {
            assert(r == seq![t.take(k - 1)] + spec_split_lines(t.skip(k)));
            assert(r[0] == t.take(k - 1));
            assert(seq![s[0]] + t.take(k - 1) =~= s.take(k));
            assert(r.skip(1) =~~= spec_split_lines(t.skip(k)));
            assert(t.skip(k) =~= s.skip(k + 1));
            assert(spec_split_lines(s) =~~= seq![s.take(k)] + spec_split_lines(s.skip(k + 1)));
        }
    }
}

/// Tokenizing skips nothing but whitespace: a leading word of length `k`
/// becomes the first token, and the rest tokenizes independently.
pub proof fn lemma_tokens_word(s: Seq<char>, k: int)
    requires
        1 <= k <= s.len(),
        forall|j: int| 0 <= j < k ==> !is_ws(s[j]),
        k == s.len() || is_ws(s[k]),
    ensures
        spec_tokens(s) == seq![s.take(k)] + spec_tokens(s.skip(k)),
    decreases k,
{
    let t = s.skip(1);
    if k == 1 {
        if s.len() == 1 {
            assert(s.take(1) =~= seq![s[0]]);
            assert(s.skip(1).len() == 0);
            assert(spec_tokens(s) =~~= seq![s.take(1)] + spec_tokens(s.skip(1)));
        } else {
            assert(is_ws(s[1]));
            assert(s.take(1) =~= seq![s[0]]);
            assert(spec_tokens(s) =~~= seq![s.take(1)] + spec_tokens(s.skip(1)));
        }
    } else {
        assert(!is_ws(s[1]));
        assert(forall|j: int| 0 <= j < k - 1 ==> !is_ws(t[j]));
        lemma_tokens_word(t, k - 1);
        let r = spec_tokens(t);
        assert(r == seq![t.take(k - 1)] + spec_tokens(t.skip(k - 1)));
        assert(r[0] == t.take(k - 1));
        assert(seq![s[0]] + t.take(k - 1) =~= s.take(k));
        assert(r.skip(1) =~~= spec_tokens(t.skip(k - 1)));
        assert(t.skip(k - 1) =~= s.skip(k));
        assert(spec_tokens(s) =~~= seq![s.take(k)] + spec_tokens(s.skip(k)));
    }
}

/// Every token is a non-empty word.
pub proof fn lemma_tokens_nonempty(s: Seq<char>)
    ensures
        forall|i: int| 0 <= i < spec_tokens(s).len() ==> (#[trigger] spec_tokens(s)[i]).len() > 0,
    decreases s.len(),
{
    if s.len() == 0 {
    } else if is_ws(s[0]) {
        lemma_tokens_nonempty(s.skip(1));
        assert(spec_tokens(s) == spec_tokens(s.skip(1)));
        assert forall|i: int|
            0 <= i < spec_tokens(s).len() implies (#[trigger] spec_tokens(s)[i]).len() > 0 by {
            assert(spec_tokens(s)[i] == spec_tokens(s.skip(1))[i]);
        }
    } else {
        lemma_tokens_nonempty(s.skip(1));
        let r = spec_tokens(s.skip(1));
        let w = spec_tokens(s);
        if s.len() > 1 && !is_ws(s[1]) {
            lemma_tokens_head(s.skip(1));
            assert(w[0] == seq![s[0]] + r[0]);
            assert forall|i: int| 0 <= i < w.len() implies (#[trigger] w[i]).len() > 0 by {
                if i >= 1 {
                    assert(w[i] == r.skip(1)[i - 1]);
                    assert(r.skip(1)[i - 1] == r[i]);
                }
            }
        } else {
            assert(w[0] == seq![s[0]]);
            assert forall|i: int| 0 <= i < w.len() implies (#[trigger] w[i]).len() > 0 by {
                if i >= 1 {
                    assert(w[i] == r[i - 1]);
                }
            }
        }
    }
}

/// A word's first character survives tokenization.
pub proof fn lemma_tokens_head(s: Seq<char>)
    requires
        s.len() > 0,
        !is_ws(s[0]),
    ensures
        spec_tokens(s).len() >= 1,
        spec_tokens(s)[0].len() > 0,
        spec_tokens(s)[0][0] == s[0],
    decreases s.len(),
{
    let r = spec_tokens(s.skip(1));
    if s.len() > 1 && !is_ws(s[1]) {
        lemma_tokens_head(s.skip(1));
    }
}

/// Dropping leading whitespace agrees with scanning.
pub proof fn lemma_trim_start_skip(s: Seq<char>, a: int)
    requires
        0 <= a <= s.len(),
        forall|j: int| 0 <= j < a ==> is_ws(s[j]),
        a == s.len() || !is_ws(s[a]),
    ensures
        spec_trim_start(s) == s.skip(a),
    decreases a,
{
    if a == 0 {
        assert(s.skip(0) =~= s);
    } else {
        let t = s.skip(1);
        assert(forall|j: int| 0 <= j < a - 1 ==> is_ws(t[j]));
        lemma_trim_start_skip(t, a - 1);
        assert(t.skip(a - 1) =~= s.skip(a));
    }
}

/// Dropping trailing whitespace agrees with scanning backwards.
pub proof fn lemma_trim_end_take(s: Seq<char>, b: int)
    requires
        0 <= b <= s.len(),
        forall|j: int| b <= j < s.len() ==> is_ws(s[j]),
        b == 0 || !is_ws(s[b - 1]),
    ensures
        spec_trim_end(s) == s.take(b),
    decreases s.len() - b,
{
    if b == s.len() {
        assert(s.take(b) =~= s);
    } else {
        assert(is_ws(s.last()));
        let t = s.drop_last();
        assert(t =~= s.take(s.len() - 1));
        assert(forall|j: int| b <= j < t.len() ==> is_ws(t[j]));
        lemma_trim_end_take(t, b);
        assert(t.take(b) =~= s.take(b));
    }
}

/// The first occurrence of `c` agrees with scanning.
pub proof fn lemma_find_at(s: Seq<char>, c: char, i: int)
    requires
        0 <= i < s.len(),
        s[i] == c,
        forall|j: int| 0 <= j < i ==> s[j] != c,
    ensures
        spec_find(s, c) == Some(i),
    decreases i,
{
    if i > 0 {
        let t = s.skip(1);
        assert(forall|j: int| 0 <= j < i - 1 ==> t[j] != c);
        lemma_find_at(t, c, i - 1);
    }
}

/// Absence of `c` agrees with scanning.
pub proof fn lemma_find_none(s: Seq<char>, c: char)
    requires
        forall|j: int| 0 <= j < s.len() ==> s[j] != c,
    ensures
        spec_find(s, c) is None,
    decreases s.len(),
{
    if s.len() > 0 {
        lemma_find_none(s.skip(1), c);
    }
}

/// Digit strings denote non-negative values.
pub proof fn lemma_digits_val_nonneg(s: Seq<char>)
    requires
        all_digits(s),
    ensures
        digits_val(s) >= 0,
    decreases s.len(),
{
    if s.len() > 0 {
        assert(all_digits(s.drop_last()));
        lemma_digits_val_nonneg(s.drop_last());
    }
}

/// Extending a digit string multiplies its value by ten and adds the digit.
pub proof fn lemma_digits_val_snoc(s: Seq<char>, c: char)
    ensures
        digits_val(s.push(c)) == digits_val(s) * 10 + digit_val(c),
{
    assert(s.push(c).drop_last() =~= s);
}

/// Joining one more part appends a separator and the part.
pub proof fn lemma_join_with_snoc(parts: Seq<Seq<char>>, x: Seq<char>, sep: Seq<char>)
    ensures
        parts.len() == 0 ==> spec_join_with(parts.push(x), sep) == x,
        parts.len() > 0 ==> spec_join_with(parts.push(x), sep) == spec_join_with(parts, sep) + sep
            + x,
    decreases parts.len(),
{
    if parts.len() == 0 {
        assert(spec_join_with(parts.push(x), sep) == parts.push(x)[0]);
        assert(parts.push(x)[0] == x);
    } else {
        let t = parts.skip(1);
        lemma_join_with_snoc(t, x, sep);
        assert(parts.push(x).skip(1) =~~= t.push(x));
        assert(parts.push(x).len() >= 2);
        assert(spec_join_with(parts.push(x), sep) == parts[0] + sep + spec_join_with(
            t.push(x),
            sep,
        ));
        if t.len() == 0 {
            assert(spec_join_with(parts, sep) == parts[0]);
        } else {
            assert(spec_join_with(parts, sep) == parts[0] + sep + spec_join_with(t, sep));
            assert((parts[0] + sep + (spec_join_with(t, sep) + sep + x)) =~= ((parts[0] + sep
                + spec_join_with(t, sep)) + sep + x));
        }
    }
}

// ------------------------------------------------------------------
// Executable counterparts.
// ------------------------------------------------------------------

/// Append one borrowed piece to an argument vector.
pub fn push_str(v: &mut Vec<String>, s: &str)
    ensures
        final(v).deep_view() == old(v).deep_view().push(s@),
{
    let ghost pre = v.deep_view();
    v.push(s.to_owned());
    proof {
        assert(v.deep_view() =~~= pre.push(s@));
    }
}

/// Append one owned piece to an argument vector.
pub fn push_string(v: &mut Vec<String>, s: String)
    ensures
        final(v).deep_view() == old(v).deep_view().push(s@),
{
    let ghost pre = v.deep_view();
    let ghost sv = s@;
    v.push(s);
    proof {
        assert(v.deep_view() =~~= pre.push(sv));
    }
}

/// Executable whitespace test matching `is_ws`.
pub fn ws_char(c: char) -> (r: bool)
    ensures
        r == is_ws(c),
{
    c == ' ' || c == '\t' || c == '\r'
}

/// String equality by contents.
pub fn str_eq(a: &str, b: &str) -> (r: bool)
    ensures
        r == (a@ == b@),
{
    let x: String = a.to_owned();
    let y: String = b.to_owned();
    x == y
}

/// Prefix test matching `spec_starts_with`.
pub fn starts_with(s: &str, p: &str) -> (r: bool)
    ensures
        r == spec_starts_with(s@, p@),
{
    let n = s.unicode_len();
    let m = p.unicode_len();
    if m > n {
        return false;
    }
    let mut i: usize = 0;
    while i < m
        invariant
            0 <= i <= m,
            m <= n,
            n == s@.len(),
            m == p@.len(),
            forall|j: int| 0 <= j < i ==> s@[j] == p@[j],
        decreases m - i,
    {
        if s.get_char(i) != p.get_char(i) {
            assert(s@.subrange(0, m as int)[i as int] != p@[i as int]);
            return false;
        }
        i += 1;
    }
    assert(s@.subrange(0, m as int) =~= p@);
    true
}

/// The lines of `s`, matching `spec_split_lines`.
pub fn split_lines(s: &str) -> (r: Vec<String>)
    ensures
        r.deep_view() == spec_split_lines(s@),
{
    let n = s.unicode_len();
    let mut out: Vec<String> = Vec::new();
    let mut start: usize = 0;
    let mut i: usize = 0;
    proof {
        assert(s@.skip(0) =~= s@);
        assert(out.deep_view() =~~= Seq::<Seq<char>>::empty());
        assert(Seq::<Seq<char>>::empty() + spec_split_lines(s@) =~~= spec_split_lines(s@));
    }
    while i < n
        invariant
            0 <= start <= i <= n,
            n == s@.len(),
            spec_split_lines(s@) == out.deep_view() + spec_split_lines(s@.skip(start as int)),
            forall|j: int| start <= j < i ==> s@[j] != '\n',
        decreases n - i,
    {
        if s.get_char(i) == '\n' {
            let piece = s.substring_char(start, i).to_owned();
            let ghost pre = out.deep_view();
            proof {
                let rest = s@.skip(start as int);
                let k = i - start;
                assert(forall|j: int| 0 <= j < k ==> rest[j] != '\n');
                assert(rest[k as int] == '\n');
                lemma_split_lines_first(rest, k as int);
                assert(rest.take(k as int) =~= s@.subrange(start as int, i as int));
                assert(rest.skip(k + 1) =~= s@.skip(i + 1));
            }
            out.push(piece);
            proof {
                assert(out.deep_view() =~~= pre.push(piece@));
                assert(pre + (seq![piece@] + spec_split_lines(s@.skip(i + 1))) =~~= pre.push(
                    piece@,
                ) + spec_split_lines(s@.skip(i + 1)));
            }
            start = i + 1;
        }
        i += 1;
    }
    let last = s.substring_char(start, n).to_owned();
    let ghost pre = out.deep_view();
    proof {
        let rest = s@.skip(start as int);
        let k = n - start;
        assert(forall|j: int| 0 <= j < k ==> rest[j] != '\n');
        lemma_split_lines_first(rest, k as int);
        assert(rest =~= s@.subrange(start as int, n as int));
    }
    out.push(last);
    proof {
        assert(out.deep_view() =~~= pre.push(last@));
        assert(pre + seq![last@] =~~= pre.push(last@));
    }
    out
}

/// The whitespace-separated words of `s`, matching `spec_tokens`.
pub fn tokenize(s: &str) -> (r: Vec<String>)
    ensures
        r.deep_view() == spec_tokens(s@),
        forall|i: int| 0 <= i < r.len() ==> (#[trigger] r[i])@.len() > 0,
{
    let n = s.unicode_len();
    let mut out: Vec<String> = Vec::new();
    let mut i: usize = 0;
    proof {
        assert(s@.skip(0) =~= s@);
        assert(out.deep_view() =~~= Seq::<Seq<char>>::empty());
        assert(Seq::<Seq<char>>::empty() + spec_tokens(s@) =~~= spec_tokens(s@));
    }
    while i < n
        invariant
            0 <= i <= n,
            n == s@.len(),
            spec_tokens(s@) == out.deep_view() + spec_tokens(s@.skip(i as int)),
            forall|j: int| 0 <= j < out.len() ==> (#[trigger] out[j])@.len() > 0,
        decreases n - i,
    {
        if ws_char(s.get_char(i)) {
            proof {
                let rest = s@.skip(i as int);
                assert(rest[0] == s@[i as int]);
                assert(spec_tokens(rest) == spec_tokens(rest.skip(1)));
                assert(rest.skip(1) =~= s@.skip(i + 1));
            }
            i += 1;
        } else {
            let word_start = i;
            let mut j = i + 1;
            while j < n
                invariant
                    word_start < j <= n,
                    n == s@.len(),
                    forall|t: int| word_start <= t < j ==> !is_ws(s@[t]),
                ensures
                    word_start < j <= n,
                    forall|t: int| word_start <= t < j ==> !is_ws(s@[t]),
                    j == n || is_ws(s@[j as int]),
                decreases n - j,
            {
                if ws_char(s.get_char(j)) {
                    break;
                }
                j += 1;
            }
            let word = s.substring_char(word_start, j).to_owned();
            let ghost pre = out.deep_view();
            proof {
                let rest = s@.skip(word_start as int);
                let k = j - word_start;
                assert(forall|t: int| 0 <= t < k ==> !is_ws(rest[t]));
                assert(k < rest.len() ==> is_ws(rest[k as int]));
                lemma_tokens_word(rest, k as int);
                assert(rest.take(k as int) =~= s@.subrange(word_start as int, j as int));
                assert(rest.skip(k as int) =~= s@.skip(j as int));
                assert(word@.len() > 0);
            }
            out.push(word);
            proof {
                assert(out.deep_view() =~~= pre.push(word@));
                assert(pre + (seq![word@] + spec_tokens(s@.skip(j as int))) =~~= pre.push(word@)
                    + spec_tokens(s@.skip(j as int)));
            }
            i = j;
        }
    }
    proof {
        assert(s@.skip(n as int) =~= Seq::<char>::empty());
        assert(out.deep_view() + spec_tokens(Seq::<char>::empty()) =~~= out.deep_view());
    }
    out
}

/// `s` without surrounding whitespace, matching `spec_trim`.
pub fn trim_str(s: &str) -> (r: String)
    ensures
        r@ == spec_trim(s@),
{
    let n = s.unicode_len();
    let mut a: usize = 0;
    while a < n
        invariant
            0 <= a <= n,
            n == s@.len(),
            forall|j: int| 0 <= j < a ==> is_ws(s@[j]),
        ensures
            0 <= a <= n,
            forall|j: int| 0 <= j < a ==> is_ws(s@[j]),
            a == n || !is_ws(s@[a as int]),
        decreases n - a,
    {
        if !ws_char(s.get_char(a)) {
            break;
        }
        a += 1;
    }
    proof {
        lemma_trim_start_skip(s@, a as int);
    }
    if a == n {
        proof {
            assert(s@.skip(a as int) =~= Seq::<char>::empty());
            assert(spec_trim_end(Seq::<char>::empty()) =~= Seq::<char>::empty());
        }
        return String::new();
    }
    let mut b: usize = n;
    while b > a
        invariant
            a <= b <= n,
            n == s@.len(),
            forall|j: int| b <= j < n ==> is_ws(s@[j]),
        ensures
            a <= b <= n,
            forall|j: int| b <= j < n ==> is_ws(s@[j]),
            b == a || !is_ws(s@[b - 1]),
        decreases b,
    {
        if !ws_char(s.get_char(b - 1)) {
            break;
        }
        b -= 1;
    }
    if b == a {
        // all of `s@.skip(a)` would be whitespace, impossible since `s@[a]` is not
        assert(is_ws(s@[a as int]));
    }
    assert(!is_ws(s@[b - 1]));
    let r = s.substring_char(a, b).to_owned();
    proof {
        let t = s@.skip(a as int);
        assert(forall|j: int| b - a <= j < t.len() ==> is_ws(t[j]));
        assert(!is_ws(t[b - a - 1]));
        lemma_trim_end_take(t, b - a);
        assert(t.take(b - a) =~= s@.subrange(a as int, b as int));
    }
    r
}

/// First occurrence of `c` in `s`, matching `spec_find`.
pub fn find_char(s: &str, c: char) -> (r: Option<usize>)
    ensures
        match r {
            Some(i) => spec_find(s@, c) == Some(i as int) && i < s@.len() && s@[i as int] == c,
            None => spec_find(s@, c) is None,
        },
{
    let n = s.unicode_len();
    let mut i: usize = 0;
    while i < n
        invariant
            0 <= i <= n,
            n == s@.len(),
            forall|j: int| 0 <= j < i ==> s@[j] != c,
        decreases n - i,
    {
        if s.get_char(i) == c {
            proof {
                lemma_find_at(s@, c, i as int);
            }
            return Some(i);
        }
        i += 1;
    }
    proof {
        lemma_find_none(s@, c);
    }
    None
}

/// Signed decimal parse, matching `spec_parse_i32`.
pub fn parse_i32(s: &str) -> (r: Option<i32>)
    ensures
        match r {
            Some(v) => spec_parse_i32(s@) == Some(v as int),
            None => spec_parse_i32(s@) is None,
        },
{
    let n = s.unicode_len();
    if n == 0 {
        return None;
    }
    let c0 = s.get_char(0);
    let neg = c0 == '-';
    let start: usize = if c0 == '-' || c0 == '+' {
        1
    } else {
        0
    };
    if start == n {
        assert(s@.skip(start as int).len() == 0);
        return None;
    }
    let ghost ds = if start == 1 {
        s@.skip(1)
    } else {
        s@
    };
    let mut acc: u64 = 0;
    let mut over = false;
    let mut i: usize = start;
    while i < n
        invariant
            start <= i <= n,
            start < n,
            n == s@.len(),
            (start == 1) == (s@[0] == '-' || s@[0] == '+'),
            neg == (s@[0] == '-'),
            ds == if start == 1 {
                s@.skip(1)
            } else {
                s@
            },
            ds.len() == n - start,
            forall|j: int| 0 <= j < i - start ==> ds[j] == s@[j + start],
            all_digits(ds.take(i - start)),
            !over ==> acc == digits_val(ds.take(i - start)) && acc <= 0x8000_0000,
            over ==> digits_val(ds.take(i - start)) > 0x8000_0000,
        decreases n - i,
    {
        let c = s.get_char(i);
        if c < '0' || c > '9' {
            proof {
                assert(ds[i - start] == s@[i as int]);
                assert(!is_digit(ds[i - start]));
                assert(!all_digits(ds));
            }
            return None;
        }
        let d: u32 = c as u32 - 48;
        proof {
            assert(ds.take(i + 1 - start) =~= ds.take(i - start).push(s@[i as int]));
            lemma_digits_val_snoc(ds.take(i - start), s@[i as int]);
            if over {
                lemma_digits_val_nonneg(ds.take(i - start));
            }
        }
        if !over {
            let next: u64 = acc * 10 + (d as u64);
            if next > 0x8000_0000 {
                over = true;
            } else {
                acc = next;
            }
        }
        i += 1;
    }
    proof {
        assert(ds.take(n - start) =~= ds);
        assert(all_digits(ds));
        if !over {
            assert(acc == digits_val(ds));
        } else {
            assert(digits_val(ds) > 0x8000_0000);
        }
    }
    if over {
        return None;
    }
    if neg {
        let v: i64 = -(acc as i64);
        assert(-0x8000_0000 <= v <= 0);
        Some(v as i32)
    } else {
        if acc > 0x7fff_ffff {
            assert(digits_val(ds) > 0x7fff_ffff);
            return None;
        }
        Some(acc as i32)
    }
}

/// Decimal parse with a fallback, matching `spec_parse_i32_or`.
pub fn parse_i32_or(s: &str, d: i32) -> (r: i32)
    ensures
        r as int == spec_parse_i32_or(s@, d as int),
{
    match parse_i32(s) {
        Some(v) => v,
        None => d,
    }
}

/// Equality up to ASCII case, matching `spec_eq_ignore_case`.
pub fn eq_ignore_case(a: &str, b: &str) -> (r: bool)
    ensures
        r == spec_eq_ignore_case(a@, b@),
{
    let n = a.unicode_len();
    let m = b.unicode_len();
    if n != m {
        return false;
    }
    let mut i: usize = 0;
    while i < n
        invariant
            0 <= i <= n,
            n == a@.len(),
            n == b@.len(),
            forall|j: int| 0 <= j < i ==> lower_code(a@[j]) == lower_code(b@[j]),
        decreases n - i,
    {
        let ca = a.get_char(i);
        let cb = b.get_char(i);
        let la: u64 = if 'A' <= ca && ca <= 'Z' {
            ca as u64 + 32
        } else {
            ca as u64
        };
        let lb: u64 = if 'A' <= cb && cb <= 'Z' {
            cb as u64 + 32
        } else {
            cb as u64
        };
        if la != lb {
            return false;
        }
        i += 1;
    }
    true
}

/// `parts` joined by `sep`, matching `spec_join_with`.
pub fn join_with(parts: &Vec<String>, sep: &str) -> (r: String)
    ensures
        r@ == spec_join_with(parts.deep_view(), sep@),
{
    let mut r = String::new();
    let mut i: usize = 0;
    while i < parts.len()
        invariant
            0 <= i <= parts.len(),
            r@ == spec_join_with(parts.deep_view().take(i as int), sep@),
        decreases parts.len() - i,
    {
        proof {
            lemma_join_with_snoc(parts.deep_view().take(i as int), parts[i as int]@, sep@);
            assert(parts.deep_view().take(i + 1) =~~= parts.deep_view().take(i as int).push(
                parts[i as int]@,
            ));
        }
        if i > 0 {
            r.append(sep);
        }
        r.append(parts[i].as_str());
        i += 1;
    }
    assert(parts.deep_view().take(parts.len() as int) =~~= parts.deep_view());
    r
}

/// One pair of matching outer quotes removed, matching `spec_unquote`.
pub fn unquote(s: &str) -> (r: String)
    ensures
        r@ == spec_unquote(s@),
{
    let n = s.unicode_len();
    if n >= 2 {
        let first = s.get_char(0);
        let last = s.get_char(n - 1);
        if first == last && (first == '"' || first == '\'') {
            return s.substring_char(1, n - 1).to_owned();
        }
    }
    s.to_owned()
}

} // verus!
