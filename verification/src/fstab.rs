//! The filesystem-table reader: parsing of `/proc/self/mounts` and
//! fstab-format files, and the mount and device queries over the result.

use vstd::prelude::*;
use crate::error::Error;
use crate::strutil::{
    is_digit, lemma_split_lines_first, lemma_split_lines_len, parse_i32_or, spec_parse_i32_or,
    spec_split_lines, spec_starts_with, spec_tokens, split_lines, starts_with, str_eq, tokenize,
};

verus! {

/// One row of an fstab-format table.
#[derive(Debug)]
pub struct FstabEntry {
    pub device: String,
    pub mount_point: String,
    pub file_system_type: String,
    pub options: String,
    pub dump: i32,
    pub pass: i32,
}

/// The mathematical value of an entry.
#[verifier::ext_equal]
pub struct FstabEntryV {
    pub device: Seq<char>,
    pub mount_point: Seq<char>,
    pub file_system_type: Seq<char>,
    pub options: Seq<char>,
    pub dump: int,
    pub pass: int,
}

impl View for FstabEntry {
    type V = FstabEntryV;

    open spec fn view(&self) -> FstabEntryV {
        FstabEntryV {
            device: self.device@,
            mount_point: self.mount_point@,
            file_system_type: self.file_system_type@,
            options: self.options@,
            dump: self.dump as int,
            pass: self.pass as int,
        }
    }
}

impl Clone for FstabEntry {
    fn clone(&self) -> (r: Self)
        ensures
            r == *self,
    {
        FstabEntry {
            device: self.device.clone(),
            mount_point: self.mount_point.clone(),
            file_system_type: self.file_system_type.clone(),
            options: self.options.clone(),
            dump: self.dump,
            pass: self.pass,
        }
    }
}

/// The values of a sequence of entries.
pub open spec fn view_entries(s: Seq<FstabEntry>) -> Seq<FstabEntryV> {
    s.map_values(|e: FstabEntry| e@)
}

/// What a single table line denotes: nothing for a blank line, a comment
/// or a row without exactly six columns; otherwise the row, with
/// unparseable `dump`/`pass` defaulting to `-1`.
pub open spec fn spec_line_entry(line: Seq<char>) -> Option<FstabEntryV> {
    let f = spec_tokens(line);
    if f.len() == 0 {
        None
    } else if f[0][0] == '#' {
        None
    } else if f.len() == 6 {
        Some(
            FstabEntryV {
                device: f[0],
                mount_point: f[1],
                file_system_type: f[2],
                options: f[3],
                dump: spec_parse_i32_or(f[4], -1),
                pass: spec_parse_i32_or(f[5], -1),
            },
        )
    } else {
        None
    }
}

/// The entries denoted by a list of lines, in order.
pub open spec fn spec_entries_of(lines: Seq<Seq<char>>) -> Seq<FstabEntryV>
    decreases lines.len(),
{
    if lines.len() == 0 {
        Seq::empty()
    } else {
        (match spec_line_entry(lines[0]) {
            Some(e) => seq![e],
            None => Seq::empty(),
        }) + spec_entries_of(lines.skip(1))
    }
}

/// The entries denoted by a whole table text.
pub open spec fn spec_parse_fstab(s: Seq<char>) -> Seq<FstabEntryV> {
    spec_entries_of(spec_split_lines(s))
}

/// One more line contributes its entry, if any.
pub proof fn lemma_entries_of_snoc(lines: Seq<Seq<char>>, x: Seq<char>)
    ensures
        spec_entries_of(lines.push(x)) == spec_entries_of(lines) + (match spec_line_entry(x) {
            Some(e) => seq![e],
            None => Seq::<FstabEntryV>::empty(),
        }),
    decreases lines.len(),
{
    let added = (match spec_line_entry(x) {
        Some(e) => seq![e],
        None => Seq::<FstabEntryV>::empty(),
    });
    if lines.len() == 0 {
        assert(lines.push(x)[0] == x);
        assert(lines.push(x).skip(1) =~~= Seq::<Seq<char>>::empty());
        assert(spec_entries_of(Seq::<Seq<char>>::empty()) == Seq::<FstabEntryV>::empty());
        assert(spec_entries_of(lines.push(x)) == added + spec_entries_of(lines.push(x).skip(1)));
        assert(added + Seq::<FstabEntryV>::empty() =~~= added);
        assert(spec_entries_of(lines) + added =~~= added);
    } else {
        assert(lines.push(x)[0] == lines[0]);
        assert(lines.push(x).skip(1) =~~= lines.skip(1).push(x));
        lemma_entries_of_snoc(lines.skip(1), x);
        let head = (match spec_line_entry(lines[0]) {
            Some(e) => seq![e],
            None => Seq::<FstabEntryV>::empty(),
        });
        assert(spec_entries_of(lines.push(x)) == head + spec_entries_of(lines.skip(1).push(x)));
        assert(head + (spec_entries_of(lines.skip(1)) + added) =~~= (head + spec_entries_of(
            lines.skip(1),
        )) + added);
    }
}

/// Entries of concatenated line lists concatenate.
pub proof fn lemma_entries_of_concat(a: Seq<Seq<char>>, b: Seq<Seq<char>>)
    ensures
        spec_entries_of(a + b) == spec_entries_of(a) + spec_entries_of(b),
    decreases a.len(),
{
    if a.len() == 0 {
        assert(a + b =~~= b);
        assert(spec_entries_of(a) + spec_entries_of(b) =~~= spec_entries_of(b));
    } else {
        assert((a + b)[0] == a[0]);
        assert((a + b).skip(1) =~~= a.skip(1) + b);
        lemma_entries_of_concat(a.skip(1), b);
        let head = (match spec_line_entry(a[0]) {
            Some(e) => seq![e],
            None => Seq::<FstabEntryV>::empty(),
        });
        assert(spec_entries_of(a + b) == head + (spec_entries_of(a.skip(1)) + spec_entries_of(b)));
        assert(head + (spec_entries_of(a.skip(1)) + spec_entries_of(b)) =~~= (head
            + spec_entries_of(a.skip(1))) + spec_entries_of(b));
    }
}

/// Splitting around an explicit newline splits the line lists.
pub proof fn lemma_split_lines_concat(a: Seq<char>, b: Seq<char>)
    ensures
        spec_split_lines(a + seq!['\n'] + b) == spec_split_lines(a) + spec_split_lines(b),
    decreases a.len(),
{
    let s = a + seq!['\n'] + b;
    if a.len() == 0 {
        assert(s[0] == '\n');
        assert(s.skip(1) =~= b);
        assert(spec_split_lines(a) =~~= seq![Seq::<char>::empty()]);
        assert(spec_split_lines(s) =~~= seq![Seq::<char>::empty()] + spec_split_lines(b));
    } else {
        assert(s[0] == a[0]);
        assert(s.skip(1) =~= a.skip(1) + seq!['\n'] + b);
        lemma_split_lines_concat(a.skip(1), b);
        let r = spec_split_lines(a.skip(1) + seq!['\n'] + b);
        let ra = spec_split_lines(a.skip(1));
        let rb = spec_split_lines(b);
        assert(r == ra + rb);
        lemma_split_lines_len(a.skip(1));
        lemma_split_lines_len(b);
        if a[0] == '\n' {
            assert(spec_split_lines(s) == seq![Seq::<char>::empty()] + r);
            assert(spec_split_lines(a) == seq![Seq::<char>::empty()] + ra);
            assert(seq![Seq::<char>::empty()] + (ra + rb) =~~= (seq![Seq::<char>::empty()] + ra)
                + rb);
        } else {
            assert(spec_split_lines(s) == seq![seq![s[0]] + r[0]] + r.skip(1));
            assert(spec_split_lines(a) == seq![seq![a[0]] + ra[0]] + ra.skip(1));
            assert(r[0] == ra[0]);
            assert(r.skip(1) =~~= ra.skip(1) + rb);
            assert(seq![seq![a[0]] + ra[0]] + (ra.skip(1) + rb) =~~= (seq![seq![a[0]] + ra[0]]
                + ra.skip(1)) + rb);
            assert(spec_split_lines(s) =~~= spec_split_lines(a) + rb);
        }
    }
}

/// The table parser never rejects its input: a text that is one blank or
/// comment line between two table texts contributes exactly the entries
/// of the two texts.
pub proof fn lemma_parse_fstab_skips_line(a: Seq<char>, mid: Seq<char>, b: Seq<char>)
    requires
        spec_line_entry(mid) is None,
        forall|i: int| 0 <= i < mid.len() ==> mid[i] != '\n',
    ensures
        spec_parse_fstab(a + seq!['\n'] + mid + seq!['\n'] + b) == spec_parse_fstab(a)
            + spec_parse_fstab(b),
{
    let whole = a + seq!['\n'] + mid + seq!['\n'] + b;
    assert(whole =~= a + seq!['\n'] + (mid + seq!['\n'] + b));
    lemma_split_lines_concat(a, mid + seq!['\n'] + b);
    lemma_split_lines_concat(mid, b);
    lemma_entries_of_concat(spec_split_lines(a), spec_split_lines(mid + seq!['\n'] + b));
    lemma_entries_of_concat(spec_split_lines(mid), spec_split_lines(b));
    lemma_split_lines_first(mid, mid.len() as int);
    assert(spec_split_lines(mid) == seq![mid]);
    assert(spec_entries_of(seq![mid]) =~~= Seq::<FstabEntryV>::empty()) by {
        assert(seq![mid][0] == mid);
        assert(seq![mid].skip(1) =~~= Seq::<Seq<char>>::empty());
        assert(spec_entries_of(Seq::<Seq<char>>::empty()) == Seq::<FstabEntryV>::empty());
        assert(spec_entries_of(seq![mid]) == Seq::<FstabEntryV>::empty() + spec_entries_of(
            seq![mid].skip(1),
        ));
        assert(Seq::<FstabEntryV>::empty() + Seq::<FstabEntryV>::empty()
            =~~= Seq::<FstabEntryV>::empty());
    }
    assert(spec_entries_of(spec_split_lines(mid)) + spec_entries_of(spec_split_lines(b))
        =~~= spec_entries_of(spec_split_lines(b)));
}

/// Parse an fstab-format text.  Blank lines, `#`-comments and rows
/// without exactly six whitespace-separated columns are dropped, never
/// reported as errors; `dump` and `pass` fall back to `-1`.
pub fn get_fstab_entries_by_content(contents: String) -> (r: Vec<FstabEntry>)
    ensures
        view_entries(r@) == spec_parse_fstab(contents@),
{
    let lines = split_lines(contents.as_str());
    let mut out: Vec<FstabEntry> = Vec::new();
    let mut i: usize = 0;
    proof {
        assert(lines.deep_view().take(0) =~~= Seq::<Seq<char>>::empty());
        assert(view_entries(out@) =~~= Seq::<FstabEntryV>::empty());
    }
    while i < lines.len()
        invariant
            0 <= i <= lines.len(),
            lines.deep_view() == spec_split_lines(contents@),
            view_entries(out@) == spec_entries_of(lines.deep_view().take(i as int)),
        decreases lines.len() - i,
    {
        let ghost line = lines.deep_view()[i as int];
        let ghost pre = view_entries(out@);
        proof {
            lemma_entries_of_snoc(lines.deep_view().take(i as int), line);
            assert(lines.deep_view().take(i + 1) =~~= lines.deep_view().take(i as int).push(line));
        }
        let parts = tokenize(lines[i].as_str());
        assert(parts.deep_view() == spec_tokens(line));
        if parts.len() == 0 {
            proof {
                assert(spec_line_entry(line) is None);
                assert(pre + Seq::<FstabEntryV>::empty() =~~= pre);
            }
        } else if parts[0].as_str().get_char(0) == '#' {
            proof {
                assert(parts[0]@ == spec_tokens(line)[0]);
                assert(spec_line_entry(line) is None);
                assert(pre + Seq::<FstabEntryV>::empty() =~~= pre);
            }
        } else if parts.len() == 6 {
            let entry = FstabEntry {
                device: parts[0].clone(),
                mount_point: parts[1].clone(),
                file_system_type: parts[2].clone(),
                options: parts[3].clone(),
                dump: parse_i32_or(parts[4].as_str(), -1),
                pass: parse_i32_or(parts[5].as_str(), -1),
            };
            proof {
                assert(spec_tokens(line)[0][0] != '#');
                assert(spec_line_entry(line) == Some(entry@));
            }
            out.push(entry);
            proof {
                assert(view_entries(out@) =~~= pre + seq![spec_line_entry(line)->Some_0]);
            }
        } else {
            proof {
                assert(spec_line_entry(line) is None);
                assert(pre + Seq::<FstabEntryV>::empty() =~~= pre);
            }
        }
        i += 1;
    }
    proof {
        assert(lines.deep_view().take(lines.len() as int) =~~= lines.deep_view());
    }
    out
}

// ------------------------------------------------------------------
// Queries over parsed tables.
// ------------------------------------------------------------------

/// A device query is fuzzy (prefix-matching) when it names a whole disk:
/// it lives under `/dev` and does not end in a partition digit, so that
/// `/dev/sda` finds `/dev/sda1`, `/dev/sda2`, and so on.
pub open spec fn spec_dev_fuzzy(dev: Seq<char>) -> bool {
    spec_starts_with(dev, "/dev"@) && dev.len() > 0 && !is_digit(dev.last())
}

/// Whether a canonical device path answers a canonical query.
pub open spec fn spec_dev_match(canon: Seq<char>, c_dev: Seq<char>, fuzzy: bool) -> bool {
    if fuzzy {
        spec_starts_with(canon, c_dev)
    } else {
        canon == c_dev
    }
}

/// The entries whose canonical device answers the query, in table order.
pub open spec fn spec_select_by_dev(
    es: Seq<FstabEntryV>,
    canons: Seq<Seq<char>>,
    c_dev: Seq<char>,
    fuzzy: bool,
) -> Seq<FstabEntryV>
    decreases es.len(),
{
    if es.len() == 0 {
        Seq::empty()
    } else {
        let rest = spec_select_by_dev(es.skip(1), canons.skip(1), c_dev, fuzzy);
        if spec_dev_match(canons[0], c_dev, fuzzy) {
            seq![es[0]] + rest
        } else {
            rest
        }
    }
}

/// Fuzziness of a device query, matching `spec_dev_fuzzy`.
pub fn dev_query_fuzzy(dev: &str) -> (r: bool)
    ensures
        r == spec_dev_fuzzy(dev@),
{
    let n = dev.unicode_len();
    if n == 0 {
        return false;
    }
    if !starts_with(dev, "/dev") {
        return false;
    }
    let last = dev.get_char(n - 1);
    !(last >= '0' && last <= '9')
}

/// Select the entries whose canonical device matches the query `dev`,
/// whose canonical form is `c_dev`; `canons[i]` is the canonical form of
/// `entries[i].device`.  A whole-disk query matches by prefix, a
/// partition query exactly.
pub fn select_mounts_by_device(
    entries: &Vec<FstabEntry>,
    canons: &Vec<String>,
    dev: &str,
    c_dev: &str,
) -> (r: Vec<FstabEntry>)
    requires
        canons.len() == entries.len(),
    ensures
        view_entries(r@) == spec_select_by_dev(
            view_entries(entries@),
            canons.deep_view(),
            c_dev@,
            spec_dev_fuzzy(dev@),
        ),
{
    let fuzzy = dev_query_fuzzy(dev);
    let ghost evs = view_entries(entries@);
    let ghost cvs = canons.deep_view();
    let mut out: Vec<FstabEntry> = Vec::new();
    let mut i: usize = 0;
    proof {
        assert(evs.skip(0) =~~= evs);
        assert(cvs.skip(0) =~~= cvs);
        assert(view_entries(out@) =~~= Seq::<FstabEntryV>::empty());
        assert(Seq::<FstabEntryV>::empty() + spec_select_by_dev(evs, cvs, c_dev@, fuzzy)
            =~~= spec_select_by_dev(evs, cvs, c_dev@, fuzzy));
    }
    while i < entries.len()
        invariant
            0 <= i <= entries.len(),
            canons.len() == entries.len(),
            fuzzy == spec_dev_fuzzy(dev@),
            evs == view_entries(entries@),
            cvs == canons.deep_view(),
            spec_select_by_dev(evs, cvs, c_dev@, fuzzy) == view_entries(out@)
                + spec_select_by_dev(evs.skip(i as int), cvs.skip(i as int), c_dev@, fuzzy),
        decreases entries.len() - i,
    {
        let ghost pre = view_entries(out@);
        proof {
            assert(evs.skip(i as int)[0] == evs[i as int]);
            assert(cvs.skip(i as int)[0] == cvs[i as int]);
            assert(evs.skip(i as int).skip(1) =~~= evs.skip(i + 1));
            assert(cvs.skip(i as int).skip(1) =~~= cvs.skip(i + 1));
        }
        let matched = if fuzzy {
            starts_with(canons[i].as_str(), c_dev)
        } else {
            str_eq(canons[i].as_str(), c_dev)
        };
        if matched {
            out.push(entries[i].clone());
            proof {
                assert(view_entries(out@) =~~= pre.push(evs[i as int]));
                assert(pre + (seq![evs[i as int]] + spec_select_by_dev(
                    evs.skip(i + 1),
                    cvs.skip(i + 1),
                    c_dev@,
                    fuzzy,
                )) =~~= pre.push(evs[i as int]) + spec_select_by_dev(
                    evs.skip(i + 1),
                    cvs.skip(i + 1),
                    c_dev@,
                    fuzzy,
                ));
            }
        }
        i += 1;
    }
    proof {
        assert(evs.skip(entries.len() as int) =~~= Seq::<FstabEntryV>::empty());
        assert(view_entries(out@) + Seq::<FstabEntryV>::empty() =~~= view_entries(out@));
    }
    out
}

/// Whether any entry is mounted exactly at `p`.
pub open spec fn spec_any_mountpoint(es: Seq<FstabEntryV>, p: Seq<char>) -> bool {
    exists|i: int| 0 <= i < es.len() && es[i].mount_point == p
}

/// Whether the table lists `p` as a mount point, matching
/// `spec_any_mountpoint`.
pub fn any_mountpoint(entries: &Vec<FstabEntry>, p: &str) -> (r: bool)
    ensures
        r == spec_any_mountpoint(view_entries(entries@), p@),
{
    let ghost evs = view_entries(entries@);
    let mut i: usize = 0;
    while i < entries.len()
        invariant
            0 <= i <= entries.len(),
            evs == view_entries(entries@),
            forall|j: int| 0 <= j < i ==> evs[j].mount_point != p@,
        decreases entries.len() - i,
    {
        if str_eq(entries[i].mount_point.as_str(), p) {
            assert(evs[i as int].mount_point == p@);
            return true;
        }
        i += 1;
    }
    false
}

/// The first entry mounted at `mp`, if any.
pub open spec fn spec_first_by_mountpoint(es: Seq<FstabEntryV>, mp: Seq<char>) -> Option<
    FstabEntryV,
>
    decreases es.len(),
{
    if es.len() == 0 {
        None
    } else if es[0].mount_point == mp {
        Some(es[0])
    } else {
        spec_first_by_mountpoint(es.skip(1), mp)
    }
}

/// The first entry mounted at `mp`, matching `spec_first_by_mountpoint`.
pub fn first_by_mountpoint(entries: &Vec<FstabEntry>, mp: &str) -> (r: Option<FstabEntry>)
    ensures
        match r {
            Some(e) => spec_first_by_mountpoint(view_entries(entries@), mp@) == Some(e@),
            None => spec_first_by_mountpoint(view_entries(entries@), mp@) is None,
        },
{
    let ghost evs = view_entries(entries@);
    let mut i: usize = 0;
    proof {
        assert(evs.skip(0) =~~= evs);
    }
    while i < entries.len()
        invariant
            0 <= i <= entries.len(),
            evs == view_entries(entries@),
            spec_first_by_mountpoint(evs, mp@) == spec_first_by_mountpoint(
                evs.skip(i as int),
                mp@,
            ),
        decreases entries.len() - i,
    {
        proof {
            assert(evs.skip(i as int)[0] == evs[i as int]);
            assert(evs.skip(i as int).skip(1) =~~= evs.skip(i + 1));
        }
        if str_eq(entries[i].mount_point.as_str(), mp) {
            return Some(entries[i].clone());
        }
        i += 1;
    }
    proof {
        assert(evs.skip(entries.len() as int) =~~= Seq::<FstabEntryV>::empty());
    }
    None
}

/// The mount points of a selection, in order.
pub open spec fn spec_mount_points(es: Seq<FstabEntryV>) -> Seq<Seq<char>> {
    es.map_values(|e: FstabEntryV| e.mount_point)
}

/// The mount points below `target`, in reverse table order: the order
/// in which a recursive unmount must release them so that no parent is
/// attempted before its children.
pub open spec fn spec_unmount_plan(es: Seq<FstabEntryV>, target: Seq<char>) -> Seq<Seq<char>>
    decreases es.len(),
{
    if es.len() == 0 {
        Seq::empty()
    } else {
        (if spec_starts_with(es.last().mount_point, target) {
            seq![es.last().mount_point]
        } else {
            Seq::<Seq<char>>::empty()
        }) + spec_unmount_plan(es.drop_last(), target)
    }
}

/// The unmount order for everything below `target`, matching
/// `spec_unmount_plan`.
pub fn unmount_plan(entries: &Vec<FstabEntry>, target: &str) -> (r: Vec<String>)
    ensures
        r.deep_view() == spec_unmount_plan(view_entries(entries@), target@),
{
    let ghost evs = view_entries(entries@);
    let mut r: Vec<String> = Vec::new();
    let mut i: usize = entries.len();
    proof {
        assert(r.deep_view() =~~= Seq::<Seq<char>>::empty());
        assert(evs.take(entries.len() as int) =~~= evs);
        assert(Seq::<Seq<char>>::empty() + spec_unmount_plan(evs, target@) =~~= spec_unmount_plan(
            evs,
            target@,
        ));
    }
    while i > 0
        invariant
            0 <= i <= entries.len(),
            evs == view_entries(entries@),
            spec_unmount_plan(evs, target@) == r.deep_view() + spec_unmount_plan(
                evs.take(i as int),
                target@,
            ),
        decreases i,
    {
        let ghost pre = r.deep_view();
        proof {
            assert(evs.take(i as int).last() == evs[i - 1]);
            assert(evs.take(i as int).drop_last() =~~= evs.take(i - 1));
        }
        if starts_with(entries[i - 1].mount_point.as_str(), target) {
            r.push(entries[i - 1].mount_point.clone());
            proof {
                assert(r.deep_view() =~~= pre.push(evs[i - 1].mount_point));
                assert(pre + (seq![evs[i - 1].mount_point] + spec_unmount_plan(
                    evs.take(i - 1),
                    target@,
                )) =~~= r.deep_view() + spec_unmount_plan(evs.take(i - 1), target@));
            }
        } else {
            proof {
                assert(pre + (Seq::<Seq<char>>::empty() + spec_unmount_plan(
                    evs.take(i - 1),
                    target@,
                )) =~~= pre + spec_unmount_plan(evs.take(i - 1), target@));
            }
        }
        i -= 1;
    }
    proof {
        assert(evs.take(0) =~~= Seq::<FstabEntryV>::empty());
        assert(r.deep_view() + Seq::<Seq<char>>::empty() =~~= r.deep_view());
    }
    r
}

// ------------------------------------------------------------------
// The live mount table.
// ------------------------------------------------------------------

/// Parse the fstab-format file at `path`.
pub fn get_fstab_entries_by_path(path: &str) -> (r: Result<Vec<FstabEntry>, Error>)
    ensures
        (r matches Ok(es) ==> exists|content: Seq<char>|
            view_entries(es@) == spec_parse_fstab(content)),
        (r matches Err(e) ==> e is Io),
{
    match crate::fsio::read_file_to_string(path) {
        Ok(content) => {
            let ghost cv = content@;
            let es = get_fstab_entries_by_content(content);
            proof {
                assert(view_entries(es@) == spec_parse_fstab(cv));
            }
            Ok(es)
        },
        Err(_) => Err(Error::Io { msg: String::from_str("cannot read the mount table") }),
    }
}

/// The live mount table, from `/proc/self/mounts`.
pub fn get_fstab_entries() -> (r: Result<Vec<FstabEntry>, Error>)
    ensures
        (r matches Ok(es) ==> exists|content: Seq<char>|
            view_entries(es@) == spec_parse_fstab(content)),
        (r matches Err(e) ==> e is Io),
{
    get_fstab_entries_by_path("/proc/self/mounts")
}

/// Whether any live entry is mounted exactly at `path`.
pub fn is_mountpoint(path: &str) -> (r: Result<bool, Error>)
    ensures
        (r matches Ok(b) ==> exists|es: Seq<FstabEntryV>| b == spec_any_mountpoint(es, path@)),
{
    match get_fstab_entries() {
        Ok(entries) => {
            let b = any_mountpoint(&entries, path);
            proof {
                assert(b == spec_any_mountpoint(view_entries(entries@), path@));
            }
            Ok(b)
        },
        Err(e) => Err(e),
    }
}

/// The canonical form of every entry's device; an entry whose device
/// cannot be resolved gets an empty canonical form and never matches.
fn canon_devices_of(entries: &Vec<FstabEntry>) -> (r: Vec<String>)
    ensures
        r.len() == entries.len(),
{
    let mut canons: Vec<String> = Vec::new();
    let mut i: usize = 0;
    while i < entries.len()
        invariant
            0 <= i <= entries.len(),
            canons.len() == i,
        decreases entries.len() - i,
    {
        let c = match crate::fsio::canonical_path(entries[i].device.as_str()) {
            Ok(c) => c,
            Err(_) => String::new(),
        };
        canons.push(c);
        i += 1;
    }
    canons
}

/// A snapshot of the live mount table together with the canonical
/// form of each device, as the engine's driver hands it back.
pub fn snapshot_mounts() -> (r: Result<(Vec<FstabEntry>, Vec<String>), Error>)
    ensures
        (r matches Ok(p) ==> p.1.len() == p.0.len() && (exists|content: Seq<char>|
            view_entries(p.0@) == spec_parse_fstab(content))),
        (r matches Err(e) ==> e is Io),
{
    let entries = match get_fstab_entries() {
        Ok(es) => es,
        Err(e) => {
            return Err(e);
        },
    };
    let canons = canon_devices_of(&entries);
    Ok((entries, canons))
}

/// The live entries whose canonical device answers the query: a
/// whole-disk query finds each of its partitions by prefix, a
/// partition query only itself.
pub fn find_mountpoint_by_device(dev: &str) -> (r: Result<Vec<FstabEntry>, Error>)
    ensures
        (r matches Ok(sel) ==> exists|es: Seq<FstabEntryV>, cs: Seq<Seq<char>>, cdev: Seq<char>|
            view_entries(sel@) == spec_select_by_dev(es, cs, cdev, spec_dev_fuzzy(dev@))),
{
    let c_dev = match crate::fsio::canonical_path(dev) {
        Ok(c) => c,
        Err(e) => {
            return Err(e);
        },
    };
    let entries = match get_fstab_entries() {
        Ok(es) => es,
        Err(e) => {
            return Err(e);
        },
    };
    let canons = canon_devices_of(&entries);
    let sel = select_mounts_by_device(&entries, &canons, dev, c_dev.as_str());
    proof {
        assert(view_entries(sel@) == spec_select_by_dev(
            view_entries(entries@),
            canons.deep_view(),
            c_dev@,
            spec_dev_fuzzy(dev@),
        ));
    }
    Ok(sel)
}

/// Whether any live entry's device answers the query.
pub fn is_mountdevice(dev: &str) -> (r: Result<bool, Error>)
    ensures
        (r matches Ok(b) ==> exists|es: Seq<FstabEntryV>, cs: Seq<Seq<char>>, cdev: Seq<char>|
            b == (#[trigger] spec_select_by_dev(es, cs, cdev, spec_dev_fuzzy(dev@)).len() > 0)),
{
    match find_mountpoint_by_device(dev) {
        Ok(sel) => {
            proof {
                let (es, cs, cdev) = choose|es: Seq<FstabEntryV>, cs: Seq<Seq<char>>, cdev: Seq<
                    char,
                >| view_entries(sel@) == spec_select_by_dev(es, cs, cdev, spec_dev_fuzzy(dev@));
                assert(view_entries(sel@).len() == sel@.len());
                assert((sel@.len() > 0) == (spec_select_by_dev(
                    es,
                    cs,
                    cdev,
                    spec_dev_fuzzy(dev@),
                ).len() > 0));
            }
            Ok(sel.len() > 0)
        },
        Err(e) => Err(e),
    }
}

/// The first live entry mounted at the canonical form of `mountpoint`.
pub fn get_entry_by_mountpoint(mountpoint: &str) -> (r: Result<Option<FstabEntry>, Error>)
    ensures
        (r matches Ok(found) ==> exists|es: Seq<FstabEntryV>, c: Seq<char>|
            (match found {
                Some(e) => #[trigger] spec_first_by_mountpoint(es, c) == Some(e@),
                None => spec_first_by_mountpoint(es, c) is None,
            })),
{
    let c = match crate::fsio::canonical_path(mountpoint) {
        Ok(c) => c,
        Err(e) => {
            return Err(e);
        },
    };
    match get_fstab_entries() {
        Ok(entries) => Ok(first_by_mountpoint(&entries, c.as_str())),
        Err(e) => Err(e),
    }
}

} // verus!
