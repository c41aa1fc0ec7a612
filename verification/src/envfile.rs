//! A reader for shell-style `KEY=value` files such as
//! `/etc/default/grub`: blank lines and `#`-comments are skipped, keys
//! and values are trimmed, and one pair of quotes around a value is
//! removed.  Malformed lines are dropped, never reported.

use vstd::prelude::*;
use crate::strutil::{
    find_char, spec_find, spec_split_lines, spec_trim, spec_unquote, split_lines, str_eq, trim_str,
    unquote,
};

verus! {

/// What one line denotes: a key-value pair, or nothing for blank
/// lines, comments, lines without `=` and lines with an empty key.
pub open spec fn spec_env_entry(line: Seq<char>) -> Option<(Seq<char>, Seq<char>)> {
    let t = spec_trim(line);
    if t.len() == 0 || t[0] == '#' {
        None
    } else {
        match spec_find(t, '=') {
            None => None,
            Some(i) => {
                let k = spec_trim(t.subrange(0, i));
                let v = spec_unquote(spec_trim(t.subrange(i + 1, t.len() as int)));
                if k.len() == 0 {
                    None
                } else {
                    Some((k, v))
                }
            },
        }
    }
}

/// The value of the first line defining `key`, or empty when no line
/// does.
pub open spec fn spec_env_lookup_lines(lines: Seq<Seq<char>>, key: Seq<char>) -> Seq<char>
    decreases lines.len(),
{
    if lines.len() == 0 {
        Seq::empty()
    } else {
        match spec_env_entry(lines[0]) {
            Some(kv) => if kv.0 == key {
                kv.1
            } else {
                spec_env_lookup_lines(lines.skip(1), key)
            },
            None => spec_env_lookup_lines(lines.skip(1), key),
        }
    }
}

/// The value `key` takes in a whole file.
pub open spec fn spec_env_lookup(content: Seq<char>, key: Seq<char>) -> Seq<char> {
    spec_env_lookup_lines(spec_split_lines(content), key)
}

/// The entry of one line, matching `spec_env_entry`.
pub fn env_entry(line: &str) -> (r: Option<(String, String)>)
    ensures
        match r {
            Some(kv) => spec_env_entry(line@) == Some((kv.0@, kv.1@)),
            None => spec_env_entry(line@) is None,
        },
{
    let t = trim_str(line);
    let n = t.as_str().unicode_len();
    if n == 0 {
        return None;
    }
    if t.as_str().get_char(0) == '#' {
        return None;
    }
    match find_char(t.as_str(), '=') {
        None => None,
        Some(i) => {
            let k = trim_str(t.as_str().substring_char(0, i));
            let v = unquote(trim_str(t.as_str().substring_char(i + 1, n)).as_str());
            if k.as_str().unicode_len() == 0 {
                None
            } else {
                Some((k, v))
            }
        },
    }
}

/// The value of `key` in an env-format text, matching
/// `spec_env_lookup`; empty when the key is not defined.
pub fn env_lookup(content: &str, key: &str) -> (r: String)
    ensures
        r@ == spec_env_lookup(content@, key@),
{
    let lines = split_lines(content);
    let mut i: usize = 0;
    proof {
        assert(lines.deep_view().skip(0) =~~= lines.deep_view());
    }
    while i < lines.len()
        invariant
            0 <= i <= lines.len(),
            lines.deep_view() == spec_split_lines(content@),
            spec_env_lookup(content@, key@) == spec_env_lookup_lines(
                lines.deep_view().skip(i as int),
                key@,
            ),
        decreases lines.len() - i,
    {
        proof {
            assert(lines.deep_view().skip(i as int)[0] == lines.deep_view()[i as int]);
            assert(lines.deep_view().skip(i as int).skip(1) =~~= lines.deep_view().skip(i + 1));
        }
        match env_entry(lines[i].as_str()) {
            Some(kv) => {
                if str_eq(kv.0.as_str(), key) {
                    return kv.1;
                }
            },
            None => {},
        }
        i += 1;
    }
    proof {
        assert(lines.deep_view().skip(lines.len() as int) =~~= Seq::<Seq<char>>::empty());
    }
    String::new()
}

} // verus!
