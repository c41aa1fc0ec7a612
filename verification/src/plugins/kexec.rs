//! Configuration of the kexec reboot plugin.

use vstd::prelude::*;
use crate::cloneutil::clone_opt_string;
use crate::effect::{Action, Event, Step};
use crate::envfile::{env_lookup, spec_env_lookup};
use crate::error::Error;
use crate::fstab::{
    first_by_mountpoint, get_fstab_entries_by_content, spec_first_by_mountpoint, spec_parse_fstab,
    view_entries, FstabEntry,
};
use crate::pathutil::{join_path, spec_join_path};
use crate::plugins::{Globals, Plugin};
use crate::strutil::{
    eq_ignore_case, spec_eq_ignore_case, spec_starts_with, starts_with, str_eq,
};

verus! {

/// The kernel and initramfs to jump into, the new root to look in when
/// they are not given, and an optional literal kernel command line.
#[derive(Debug)]
pub struct Config {
    pub linux: Option<String>,
    pub initrd: Option<String>,
    pub root: String,
    pub append: Option<String>,
}

/// The mathematical value of a kexec configuration.
#[verifier::ext_equal]
pub struct ConfigV {
    pub linux: Option<Seq<char>>,
    pub initrd: Option<Seq<char>>,
    pub root: Seq<char>,
    pub append: Option<Seq<char>>,
}

impl View for Config {
    type V = ConfigV;

    open spec fn view(&self) -> ConfigV {
        ConfigV {
            linux: self.linux.deep_view(),
            initrd: self.initrd.deep_view(),
            root: self.root@,
            append: self.append.deep_view(),
        }
    }
}

impl Clone for Config {
    fn clone(&self) -> (r: Self)
        ensures
            r@ == self@,
    {
        Config {
            linux: clone_opt_string(&self.linux),
            initrd: clone_opt_string(&self.initrd),
            root: self.root.clone(),
            append: clone_opt_string(&self.append),
        }
    }
}

// ------------------------------------------------------------------
// Kernel discovery and command-line composition.
// ------------------------------------------------------------------

/// Lexicographic order on names, by character code.
pub open spec fn spec_str_lt(a: Seq<char>, b: Seq<char>) -> bool
    decreases a.len(),
{
    if b.len() == 0 {
        false
    } else if a.len() == 0 {
        true
    } else if a[0] != b[0] {
        (a[0] as u32) < (b[0] as u32)
    } else {
        spec_str_lt(a.skip(1), b.skip(1))
    }
}

/// Skipping a common prefix does not change the order.
pub proof fn lemma_str_lt_skip(a: Seq<char>, b: Seq<char>, i: int)
    requires
        0 <= i <= a.len(),
        i <= b.len(),
        forall|j: int| 0 <= j < i ==> a[j] == b[j],
    ensures
        spec_str_lt(a, b) == spec_str_lt(a.skip(i), b.skip(i)),
    decreases i,
{
    if i > 0 {
        assert(a.len() > 0 && b.len() > 0);
        assert(a[0] == b[0]);
        let ta = a.skip(1);
        let tb = b.skip(1);
        assert(forall|j: int| 0 <= j < i - 1 ==> ta[j] == tb[j]);
        lemma_str_lt_skip(ta, tb, i - 1);
        assert(ta.skip(i - 1) =~= a.skip(i));
        assert(tb.skip(i - 1) =~= b.skip(i));
    } else {
        assert(a.skip(0) =~= a);
        assert(b.skip(0) =~= b);
    }
}

/// Lexicographic comparison, matching `spec_str_lt`.
pub fn str_lt(a: &str, b: &str) -> (r: bool)
    ensures
        r == spec_str_lt(a@, b@),
{
    let n = a.unicode_len();
    let m = b.unicode_len();
    let lim = if n < m {
        n
    } else {
        m
    };
    let mut i: usize = 0;
    while i < lim
        invariant
            0 <= i <= lim,
            lim == if n < m {
                n
            } else {
                m
            },
            n == a@.len(),
            m == b@.len(),
            forall|j: int| 0 <= j < i ==> a@[j] == b@[j],
        decreases lim - i,
    {
        let ca = a.get_char(i);
        let cb = b.get_char(i);
        if ca != cb {
            proof {
                lemma_str_lt_skip(a@, b@, i as int);
            }
            return (ca as u32) < (cb as u32);
        }
        i += 1;
    }
    proof {
        lemma_str_lt_skip(a@, b@, lim as int);
    }
    n < m
}

/// Membership of a name in a listing.
pub fn names_contain(ns: &Vec<String>, x: &str) -> (r: bool)
    ensures
        r == ns.deep_view().contains(x@),
{
    let mut i: usize = 0;
    while i < ns.len()
        invariant
            0 <= i <= ns.len(),
            forall|j: int| 0 <= j < i ==> ns.deep_view()[j] != x@,
        decreases ns.len() - i,
    {
        if str_eq(ns[i].as_str(), x) {
            assert(ns.deep_view()[i as int] == x@);
            return true;
        }
        i += 1;
    }
    assert(!ns.deep_view().contains(x@));
    false
}

/// The initrd sibling of a versioned kernel image name.
pub open spec fn spec_initrd_sib(n: Seq<char>) -> Seq<char> {
    "initrd-"@ + n.skip(8) + ".img"@
}

/// The initramfs sibling of a versioned kernel image name.
pub open spec fn spec_initramfs_sib(n: Seq<char>) -> Seq<char> {
    "initramfs-"@ + n.skip(8) + ".img"@
}

/// A versioned kernel image with a present sibling initramfs.
pub open spec fn spec_cand_ok(ns: Seq<Seq<char>>, n: Seq<char>) -> bool {
    (spec_starts_with(n, "vmlinuz-"@) || spec_starts_with(n, "vmlinux-"@)) && (ns.contains(
        spec_initrd_sib(n),
    ) || ns.contains(spec_initramfs_sib(n)))
}

/// The better of an accumulated candidate and a new one.
pub open spec fn spec_better(acc: Option<Seq<char>>, n: Seq<char>) -> Option<Seq<char>> {
    match acc {
        None => Some(n),
        Some(b) => if spec_str_lt(b, n) {
            Some(n)
        } else {
            Some(b)
        },
    }
}

/// The lexicographically greatest usable candidate at or after `i`.
pub open spec fn spec_best_from(ns: Seq<Seq<char>>, i: int, acc: Option<Seq<char>>) -> Option<
    Seq<char>,
>
    decreases ns.len() - i,
{
    if i < 0 || i >= ns.len() {
        acc
    } else {
        spec_best_from(
            ns,
            i + 1,
            if spec_cand_ok(ns, ns[i]) {
                spec_better(acc, ns[i])
            } else {
                acc
            },
        )
    }
}

/// The candidate a descending scan would try first.
pub open spec fn spec_best_candidate(ns: Seq<Seq<char>>) -> Option<Seq<char>> {
    spec_best_from(ns, 0, None)
}

/// The sibling image chosen for a candidate: initrd first.
pub open spec fn spec_sibling_for(ns: Seq<Seq<char>>, k: Seq<char>) -> Seq<char> {
    if ns.contains(spec_initrd_sib(k)) {
        spec_initrd_sib(k)
    } else {
        spec_initramfs_sib(k)
    }
}

/// What kernel discovery picks from a boot-directory listing: the
/// literal `vmlinuz`/`vmlinux` with its literal sibling when both are
/// present, else the greatest versioned image that has a versioned
/// sibling, else nothing.
pub open spec fn spec_find_kernel(ns: Seq<Seq<char>>) -> Option<(Seq<char>, Seq<char>)> {
    let lit = if ns.contains("vmlinuz"@) {
        Some("vmlinuz"@)
    } else if ns.contains("vmlinux"@) {
        Some("vmlinux"@)
    } else {
        None
    };
    let litsib = if ns.contains("initrd.img"@) {
        Some("initrd.img"@)
    } else if ns.contains("initramfs.img"@) {
        Some("initramfs.img"@)
    } else {
        None
    };
    match (lit, litsib) {
        (Some(k), Some(s)) => Some((k, s)),
        _ => match spec_best_candidate(ns) {
            Some(k) => Some((k, spec_sibling_for(ns, k))),
            None => None,
        },
    }
}

fn initrd_sib(n: &str) -> (r: String)
    requires
        n@.len() >= 8,
    ensures
        r@ == spec_initrd_sib(n@),
{
    let len = n.unicode_len();
    let mut s = String::from_str("initrd-");
    s.append(n.substring_char(8, len));
    s.append(".img");
    proof {
        assert(s@ =~= spec_initrd_sib(n@));
    }
    s
}

fn initramfs_sib(n: &str) -> (r: String)
    requires
        n@.len() >= 8,
    ensures
        r@ == spec_initramfs_sib(n@),
{
    let len = n.unicode_len();
    let mut s = String::from_str("initramfs-");
    s.append(n.substring_char(8, len));
    s.append(".img");
    proof {
        assert(s@ =~= spec_initramfs_sib(n@));
    }
    s
}

fn cand_ok(ns: &Vec<String>, n: &str) -> (r: bool)
    ensures
        r == spec_cand_ok(ns.deep_view(), n@),
{
    let versioned = starts_with(n, "vmlinuz-") || starts_with(n, "vmlinux-");
    if !versioned {
        return false;
    }
    proof {
        reveal_strlit("vmlinuz-");
        reveal_strlit("vmlinux-");
        assert(n@.len() >= 8);
    }
    let s1 = initrd_sib(n);
    let s2 = initramfs_sib(n);
    names_contain(ns, s1.as_str()) || names_contain(ns, s2.as_str())
}

/// Kernel discovery over a boot-directory listing, matching
/// `spec_find_kernel`: the names of the chosen kernel image and its
/// initramfs.
pub fn find_kernel_in(names: &Vec<String>) -> (r: Option<(String, String)>)
    ensures
        match r {
            Some(p) => spec_find_kernel(names.deep_view()) == Some((p.0@, p.1@)),
            None => spec_find_kernel(names.deep_view()) is None,
        },
{
    let ghost ns = names.deep_view();
    let has_z = names_contain(names, "vmlinuz");
    let has_x = names_contain(names, "vmlinux");
    let has_rd = names_contain(names, "initrd.img");
    let has_fs = names_contain(names, "initramfs.img");
    if (has_z || has_x) && (has_rd || has_fs) {
        let k = if has_z {
            "vmlinuz".to_owned()
        } else {
            "vmlinux".to_owned()
        };
        let s = if has_rd {
            "initrd.img".to_owned()
        } else {
            "initramfs.img".to_owned()
        };
        return Some((k, s));
    }
    let mut best: Option<String> = None;
    let mut i: usize = 0;
    while i < names.len()
        invariant
            0 <= i <= names.len(),
            ns == names.deep_view(),
            spec_best_candidate(ns) == spec_best_from(
                ns,
                i as int,
                match best {
                    Some(ref b) => Some(b@),
                    None => None,
                },
            ),
        decreases names.len() - i,
    {
        if cand_ok(names, names[i].as_str()) {
            let take_it = match &best {
                None => true,
                Some(b) => str_lt(b.as_str(), names[i].as_str()),
            };
            if take_it {
                best = Some(names[i].clone());
            }
        }
        i += 1;
    }
    match best {
        None => None,
        Some(k) => {
            proof {
                reveal_strlit("vmlinuz-");
                reveal_strlit("vmlinux-");
                lemma_best_is_candidate(ns, 0, None);
                assert(spec_cand_ok(ns, k@));
                assert(k@.len() >= 8);
            }
            let s1 = initrd_sib(k.as_str());
            if names_contain(names, s1.as_str()) {
                Some((k, s1))
            } else {
                let s2 = initramfs_sib(k.as_str());
                Some((k, s2))
            }
        },
    }
}

/// Whatever a best-candidate scan returns is itself a usable candidate.
pub proof fn lemma_best_is_candidate(ns: Seq<Seq<char>>, i: int, acc: Option<Seq<char>>)
    requires
        match acc {
            Some(a) => spec_cand_ok(ns, a),
            None => true,
        },
    ensures
        match spec_best_from(ns, i, acc) {
            Some(k) => spec_cand_ok(ns, k),
            None => true,
        },
    decreases ns.len() - i,
{
    if 0 <= i < ns.len() {
        let acc2 = if spec_cand_ok(ns, ns[i]) {
            spec_better(acc, ns[i])
        } else {
            acc
        };
        lemma_best_is_candidate(ns, i + 1, acc2);
    }
}

/// The `root=` portion of the kernel command line: the root device,
/// its mount options as `rootflags` unless they are `defaults` up to
/// case, and a read-only root.
pub open spec fn spec_root_param(device: Seq<char>, options: Seq<char>) -> Seq<char> {
    if spec_eq_ignore_case(options, "defaults"@) {
        "root="@ + device + " ro"@
    } else {
        "root="@ + device + " rootflags="@ + options + " ro"@
    }
}

/// Executable form of `spec_root_param`.
pub fn root_param(device: &str, options: &str) -> (r: String)
    ensures
        r@ == spec_root_param(device@, options@),
{
    proof {
        reveal_strlit("defaults");
    }
    if eq_ignore_case(options, "defaults") {
        let mut s = String::from_str("root=");
        s.append(device);
        s.append(" ro");
        proof {
            assert(s@ =~= spec_root_param(device@, options@));
        }
        s
    } else {
        let mut s = String::from_str("root=");
        s.append(device);
        s.append(" rootflags=");
        s.append(options);
        s.append(" ro");
        proof {
            assert(s@ =~= spec_root_param(device@, options@));
        }
        s
    }
}

/// The kernel parameters the new root's fstab dictates: the `root=`
/// portion of its `/` entry; an error when the table has none.
pub fn kernel_params_root_from(entries: &Vec<FstabEntry>) -> (r: Result<String, Error>)
    ensures
        match r {
            Ok(s) => (match spec_first_by_mountpoint(view_entries(entries@), "/"@) {
                Some(e) => s@ == spec_root_param(e.device, e.options),
                None => false,
            }),
            Err(e) => spec_first_by_mountpoint(view_entries(entries@), "/"@) is None
                && e is Invariant,
        },
{
    match first_by_mountpoint(entries, "/") {
        Some(e) => Ok(root_param(e.device.as_str(), e.options.as_str())),
        None => Err(Error::Invariant { msg: String::from_str("No root filesystem found") }),
    }
}

/// The parameters taken from the grub defaults: `GRUB_CMDLINE_LINUX`
/// and `GRUB_CMDLINE_LINUX_DEFAULT`, space-separated.
pub open spec fn spec_grub_append(content: Seq<char>) -> Seq<char> {
    spec_env_lookup(content, "GRUB_CMDLINE_LINUX"@) + " "@ + spec_env_lookup(
        content,
        "GRUB_CMDLINE_LINUX_DEFAULT"@,
    )
}

/// Executable form of `spec_grub_append`.
pub fn grub_append(content: &str) -> (r: String)
    ensures
        r@ == spec_grub_append(content@),
{
    let mut s = env_lookup(content, "GRUB_CMDLINE_LINUX");
    s.append(" ");
    let d = env_lookup(content, "GRUB_CMDLINE_LINUX_DEFAULT");
    s.append(d.as_str());
    s
}

/// The whole kernel command line: the fstab-derived root parameters,
/// then the appended parameters.
pub open spec fn spec_cmdline(root_part: Seq<char>, append: Seq<char>) -> Seq<char> {
    root_part + " "@ + append
}

// ------------------------------------------------------------------
// The kexec machine.
// ------------------------------------------------------------------

/// Where the kexec handoff stands between two effects.
#[derive(Debug)]
pub enum Phase {
    Begin,
    CheckKernel,
    CheckInitrd,
    Discover,
    GrubRead { kernel: String, initrd: String },
    FstabRead { kernel: String, initrd: String, append: String },
    Loading,
    Jumping,
    Halted,
}

/// Every effect the kexec plugin may request: existence checks of the
/// configured images, the boot listing, the two files of the new root,
/// and the load and jump themselves.
pub open spec fn kx_action_allowed(cv: ConfigV, a: Action) -> bool {
    match a {
        Action::PathExists(p) => (cv.linux matches Some(l) && p@ == l) || (cv.initrd matches Some(x)
            && p@ == x),
        Action::ListDir(p) => p@ == spec_join_path(cv.root, "boot"@),
        Action::ReadFile(p) => p@ == spec_join_path(cv.root, "etc/fstab"@) || p@ == spec_join_path(
            cv.root,
            "etc/default/grub"@,
        ),
        Action::KexecLoad(_, _, _) => true,
        Action::KexecReboot => true,
        _ => false,
    }
}


/// Where a resolved kernel-and-initramfs pair leads: straight to the
/// fstab read when an explicit append is configured, else through the
/// grub defaults first.
pub open spec fn kx_after_kernel(
    cv: ConfigV,
    k: Seq<char>,
    i: Seq<char>,
    post: Phase,
    st: Step,
) -> bool {
    match cv.append {
        Some(a) => (post matches Phase::FstabRead { kernel, initrd, append } && kernel@ == k
            && initrd@ == i && append@ == a) && (st matches Step::Do(Action::ReadFile(p)) && p@
            == spec_join_path(cv.root, "etc/fstab"@)),
        None => (post matches Phase::GrubRead { kernel, initrd } && kernel@ == k && initrd@ == i)
            && (st matches Step::Do(Action::ReadFile(p)) && p@ == spec_join_path(
            cv.root,
            "etc/default/grub"@,
        )),
    }
}

/// The full transition relation of the kexec handoff: for every
/// (phase, event) pair, exactly which step comes out, where the
/// machine stands afterwards, and what happens to the loaded flag.
pub open spec fn kx_next(
    cv: ConfigV,
    pre: Phase,
    l0: bool,
    ev: Event,
    post: Phase,
    l1: bool,
    st: Step,
) -> bool {
    match (pre, ev) {
        (Phase::Begin, Event::Start) => if l0 {
            st is Done && post is Begin && l1 == l0
        } else {
            l1 && (match (cv.linux, cv.initrd) {
                (Some(l), Some(_)) => post is CheckKernel && (st matches Step::Do(
                    Action::PathExists(p),
                ) && p@ == l),
                (Some(_), None) => (st matches Step::Fail(e) && e is Invariant) && post is Halted,
                (None, Some(_)) => (st matches Step::Fail(e) && e is Invariant) && post is Halted,
                (None, None) => post is Discover && (st matches Step::Do(Action::ListDir(p)) && p@
                    == spec_join_path(cv.root, "boot"@)),
            })
        },
        (Phase::CheckKernel, Event::Exists { yes }) => l1 == l0 && if !yes {
            (st matches Step::Fail(e) && e is Invariant) && post is Halted
        } else {
            match cv.initrd {
                Some(x) => post is CheckInitrd && (st matches Step::Do(Action::PathExists(p)) && p@
                    == x),
                None => (st matches Step::Fail(e) && e is Invariant) && post is Halted,
            }
        },
        (Phase::CheckInitrd, Event::Exists { yes }) => l1 == l0 && if !yes {
            (st matches Step::Fail(e) && e is Invariant) && post is Halted
        } else {
            match (cv.linux, cv.initrd) {
                (Some(l), Some(x)) => kx_after_kernel(cv, l, x, post, st),
                _ => (st matches Step::Fail(e) && e is Invariant) && post is Halted,
            }
        },
        (Phase::Discover, Event::DirListed { names }) => l1 == l0 && (match names {
            None => (st matches Step::Fail(e) && e is Io) && post is Halted,
            Some(ns) => match spec_find_kernel(ns.deep_view()) {
                None => (st matches Step::Fail(e) && e is Invariant) && post is Halted,
                Some(pair) => kx_after_kernel(
                    cv,
                    spec_join_path(spec_join_path(cv.root, "boot"@), pair.0),
                    spec_join_path(spec_join_path(cv.root, "boot"@), pair.1),
                    post,
                    st,
                ),
            },
        }),
        (Phase::GrubRead { kernel, initrd }, Event::FileRead { content }) => l1 == l0 && (match content {
            None => (st matches Step::Fail(e) && e is Io) && post is Halted,
            Some(text) => (post matches Phase::FstabRead {
                kernel: k2,
                initrd: i2,
                append,
            } && k2@ == kernel@ && i2@ == initrd@ && append@ == spec_grub_append(text@)) && (st
                matches Step::Do(Action::ReadFile(p)) && p@ == spec_join_path(
                cv.root,
                "etc/fstab"@,
            )),
        }),
        (Phase::FstabRead { kernel, initrd, append }, Event::FileRead { content }) => l1 == l0
            && (match content {
            None => (st matches Step::Fail(e) && e is Io) && post is Halted,
            Some(text) => match spec_first_by_mountpoint(spec_parse_fstab(text@), "/"@) {
                None => (st matches Step::Fail(e) && e is Invariant) && post is Halted,
                Some(en) => post is Loading && (st matches Step::Do(Action::KexecLoad(k, x, c))
                    && k@ == kernel@ && x@ == initrd@ && c@ == spec_cmdline(
                    spec_root_param(en.device, en.options),
                    append@,
                )),
            },
        }),
        (Phase::Loading, Event::KexecLoaded { errno }) => l1 == l0 && (match errno {
            Some(e) => (st matches Step::Fail(er) && (er matches Error::Syscall { errno: e2 } && e2
                == e)) && post is Halted,
            None => post is Jumping && st matches Step::Do(Action::KexecReboot),
        }),
        (Phase::Jumping, Event::RebootReturned { errno }) => l1 == l0 && (st matches Step::Fail(er)
            && (er matches Error::Syscall { errno: e2 } && e2 == errno)) && post is Halted,
        _ => l1 == l0 && (st matches Step::Fail(e) && e is Invariant) && post is Halted,
    }
}

/// The kexec reboot plugin: carries the effective globals of its recipe.
pub struct Context(pub Globals);

impl Plugin for Context {
    type Config = Config;

    type State = bool;

    open spec fn spec_done(s: &bool) -> bool {
        *s
    }

    fn done(s: &bool) -> (r: bool) {
        *s
    }
}

impl Context {
    fn after_kernel(&self, config: &Config, kernel: String, initrd: String) -> (r: (Phase, Step))
        ensures
            r.1 matches Step::Do(a) ==> kx_action_allowed(config@, a),
            kx_after_kernel(config@, kernel@, initrd@, r.0, r.1),
    {
        match &config.append {
            Some(a) => {
                let path = join_path(config.root.as_str(), "etc/fstab");
                (
                    Phase::FstabRead { kernel, initrd, append: a.clone() },
                    Step::Do(Action::ReadFile(path)),
                )
            },
            None => {
                let path = join_path(config.root.as_str(), "etc/default/grub");
                (Phase::GrubRead { kernel, initrd }, Step::Do(Action::ReadFile(path)))
            },
        }
    }

    /// One transition of the kexec handoff.
    ///
    /// The contract is the transition relation `kx_next`: it forces
    /// the existence checks of configured images, the boot-listing
    /// discovery, the grub read whose result becomes the appended
    /// parameters, the fstab read, the load, and the jump.  On top of
    /// it: a loaded plugin finishes immediately and the flag never
    /// goes back; on the very first step the flag turns true, so the
    /// load is not retried within a run even after a failure; a kernel
    /// given without an initramfs, or the reverse, is an invariant
    /// violation before any effect; and the command line handed to the
    /// loader is exactly the `root=` parameters of the new root's `/`
    /// entry followed by the chosen appended parameters.
    pub fn step(&self, config: &Config, loaded: &mut bool, phase: Phase, ev: Event) -> (r: (
        Phase,
        Step,
    ))
        ensures
            *old(loaded) ==> *final(loaded),
            phase is Begin && ev is Start && *old(loaded) ==> r.1 is Done && r.0 is Begin,
            phase is Begin && ev is Start && !*old(loaded) ==> *final(loaded),
            *final(loaded) && !*old(loaded) ==> phase is Begin && ev is Start,
            phase is Begin && ev is Start && !*old(loaded) && config.linux is Some
                && config.initrd is None ==> (r.1 matches Step::Fail(e) && e is Invariant
                && e.spec_message() == "No initramfs specified"@),
            phase is Begin && ev is Start && !*old(loaded) && config.linux is None
                && config.initrd is Some ==> (r.1 matches Step::Fail(e) && e is Invariant
                && e.spec_message() == "No kernel specified"@),
            (r.1 matches Step::Do(a) ==> kx_action_allowed(config@, a)),
            (phase matches Phase::FstabRead { kernel, initrd, append } ==> (ev matches
                Event::FileRead { content: Some(text) } ==> (match spec_first_by_mountpoint(
                spec_parse_fstab(text@),
                "/"@,
            ) {
                Some(e) => r.1 matches Step::Do(Action::KexecLoad(k, x, c2)) && k@ == kernel@
                    && x@ == initrd@ && c2@ == spec_cmdline(
                    spec_root_param(e.device, e.options),
                    append@,
                ),
                None => r.1 matches Step::Fail(e) && e is Invariant,
            }))),
            r.1 is Done ==> *final(loaded),
            kx_next(config@, phase, *old(loaded), ev, r.0, *final(loaded), r.1),
    {
        match (phase, ev) {
            (Phase::Begin, Event::Start) => {
                if *loaded {
                    (Phase::Begin, Step::Done)
                } else {
                    *loaded = true;
                    match (&config.linux, &config.initrd) {
                        (Some(l), Some(_)) => (
                            Phase::CheckKernel,
                            Step::Do(Action::PathExists(l.clone())),
                        ),
                        (Some(_), None) => (
                            Phase::Halted,
                            Step::Fail(
                                Error::Invariant {
                                    msg: String::from_str("No initramfs specified"),
                                },
                            ),
                        ),
                        (None, Some(_)) => (
                            Phase::Halted,
                            Step::Fail(
                                Error::Invariant { msg: String::from_str("No kernel specified") },
                            ),
                        ),
                        (None, None) => {
                            let path = join_path(config.root.as_str(), "boot");
                            (Phase::Discover, Step::Do(Action::ListDir(path)))
                        },
                    }
                }
            },
            (Phase::CheckKernel, Event::Exists { yes }) => {
                if !yes {
                    (
                        Phase::Halted,
                        Step::Fail(
                            Error::Invariant {
                                msg: String::from_str("Specified kernel does not exist"),
                            },
                        ),
                    )
                } else {
                    match &config.initrd {
                        Some(x) => (Phase::CheckInitrd, Step::Do(Action::PathExists(x.clone()))),
                        None => (
                            Phase::Halted,
                            Step::Fail(
                                Error::Invariant { msg: String::from_str("unexpected event") },
                            ),
                        ),
                    }
                }
            },
            (Phase::CheckInitrd, Event::Exists { yes }) => {
                if !yes {
                    (
                        Phase::Halted,
                        Step::Fail(
                            Error::Invariant {
                                msg: String::from_str("Specified initramfs does not exist"),
                            },
                        ),
                    )
                } else {
                    match (&config.linux, &config.initrd) {
                        (Some(l), Some(x)) => self.after_kernel(config, l.clone(), x.clone()),
                        _ => (
                            Phase::Halted,
                            Step::Fail(
                                Error::Invariant { msg: String::from_str("unexpected event") },
                            ),
                        ),
                    }
                }
            },
            (Phase::Discover, Event::DirListed { names }) => match names {
                None => (
                    Phase::Halted,
                    Step::Fail(
                        Error::Io { msg: String::from_str("cannot list the boot directory") },
                    ),
                ),
                Some(ns) => match find_kernel_in(&ns) {
                    None => (
                        Phase::Halted,
                        Step::Fail(Error::Invariant { msg: String::from_str("No kernel found") }),
                    ),
                    Some(pair) => {
                        let boot = join_path(config.root.as_str(), "boot");
                        let kernel = join_path(boot.as_str(), pair.0.as_str());
                        let initrd = join_path(boot.as_str(), pair.1.as_str());
                        self.after_kernel(config, kernel, initrd)
                    },
                },
            },
            (Phase::GrubRead { kernel, initrd }, Event::FileRead { content }) => match content {
                None => (
                    Phase::Halted,
                    Step::Fail(
                        Error::Io { msg: String::from_str("cannot read the grub defaults") },
                    ),
                ),
                Some(text) => {
                    let append = grub_append(text.as_str());
                    let path = join_path(config.root.as_str(), "etc/fstab");
                    (
                        Phase::FstabRead { kernel, initrd, append },
                        Step::Do(Action::ReadFile(path)),
                    )
                },
            },
            (Phase::FstabRead { kernel, initrd, append }, Event::FileRead { content }) => match content {
                None => (
                    Phase::Halted,
                    Step::Fail(Error::Io { msg: String::from_str("cannot read the fstab") }),
                ),
                Some(text) => {
                    let entries = get_fstab_entries_by_content(text);
                    match kernel_params_root_from(&entries) {
                        Err(e) => (Phase::Halted, Step::Fail(e)),
                        Ok(params) => {
                            let mut cmdline = params;
                            cmdline.append(" ");
                            cmdline.append(append.as_str());
                            (
                                Phase::Loading,
                                Step::Do(Action::KexecLoad(kernel, initrd, cmdline)),
                            )
                        },
                    }
                },
            },
            (Phase::Loading, Event::KexecLoaded { errno }) => match errno {
                Some(e) => (Phase::Halted, Step::Fail(Error::Syscall { errno: e })),
                None => (Phase::Jumping, Step::Do(Action::KexecReboot)),
            },
            (Phase::Jumping, Event::RebootReturned { errno }) => (
                Phase::Halted,
                Step::Fail(Error::Syscall { errno }),
            ),
            (Phase::Halted, _) => (
                Phase::Halted,
                Step::Fail(
                    Error::Invariant { msg: String::from_str("the kexec plugin already failed") },
                ),
            ),
            (_, _) => (
                Phase::Halted,
                Step::Fail(Error::Invariant { msg: String::from_str("unexpected event") }),
            ),
        }
    }
}

/// The kernel parameters derived from `<new_root>/etc/fstab`: the
/// `root=` portion of its `/` entry, read live from the filesystem.
pub fn find_kernel_params_root(new_root: &str) -> (r: Result<String, Error>)
    ensures
        (r matches Ok(s) ==> exists|content: Seq<char>|
            #![trigger spec_parse_fstab(content)]
            (match spec_first_by_mountpoint(spec_parse_fstab(content), "/"@) {
                Some(e) => s@ == spec_root_param(e.device, e.options),
                None => false,
            })),
{
    let path = join_path(new_root, "etc/fstab");
    let entries = match crate::fstab::get_fstab_entries_by_path(path.as_str()) {
        Ok(es) => es,
        Err(e) => {
            return Err(e);
        },
    };
    let ghost content = choose|content: Seq<char>|
        crate::fstab::view_entries(entries@) == spec_parse_fstab(content);
    match kernel_params_root_from(&entries) {
        Ok(s) => {
            proof {
                assert(match spec_first_by_mountpoint(spec_parse_fstab(content), "/"@) {
                    Some(e) => s@ == spec_root_param(e.device, e.options),
                    None => false,
                });
            }
            Ok(s)
        },
        Err(e) => Err(e),
    }
}

} // verus!
