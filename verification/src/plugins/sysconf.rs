//! Configuration of the system reconfigurator plugin: an ordered list
//! of sub-items, each with an independent completion flag.

use vstd::prelude::*;
use crate::cloneutil::clone_opt_string;
use crate::effect::{view_cmds, Action, Event, Step};
use crate::error::Error;
use crate::plugins::{apt_repo, netplan, user, Globals, Plugin};

verus! {

/// One sub-item of a reconfiguration: a network plan, a user list, or
/// an apt repository list.
#[derive(Debug)]
pub enum ConfigItem {
    Netplan(Vec<netplan::ConfigItem>),
    User(Vec<user::ConfigItem>),
    AptRepo(Vec<apt_repo::ConfigItem>),
}

/// The mathematical value of a sub-item.
#[verifier::ext_equal]
pub enum ConfigItemV {
    Netplan(Seq<netplan::ConfigItemV>),
    User(Seq<user::ConfigItemV>),
    AptRepo(Seq<apt_repo::ConfigItemV>),
}

impl View for ConfigItem {
    type V = ConfigItemV;

    open spec fn view(&self) -> ConfigItemV {
        match self {
            ConfigItem::Netplan(v) => ConfigItemV::Netplan(
                v@.map_values(|x: netplan::ConfigItem| x@),
            ),
            ConfigItem::User(v) => ConfigItemV::User(v@.map_values(|x: user::ConfigItem| x@)),
            ConfigItem::AptRepo(v) => ConfigItemV::AptRepo(
                v@.map_values(|x: apt_repo::ConfigItem| x@),
            ),
        }
    }
}

fn clone_netplan_items(v: &Vec<netplan::ConfigItem>) -> (r: Vec<netplan::ConfigItem>)
    ensures
        r@.map_values(|x: netplan::ConfigItem| x@) == v@.map_values(
            |x: netplan::ConfigItem| x@,
        ),
{
    let mut r: Vec<netplan::ConfigItem> = Vec::new();
    let mut i: usize = 0;
    proof {
        assert(r@.map_values(|x: netplan::ConfigItem| x@) =~= v@.map_values(
            |x: netplan::ConfigItem| x@,
        ).take(0));
    }
    while i < v.len()
        invariant
            0 <= i <= v.len(),
            r@.map_values(|x: netplan::ConfigItem| x@) == v@.map_values(
                |x: netplan::ConfigItem| x@,
            ).take(i as int),
        decreases v.len() - i,
    {
        let x = v[i].clone();
        let ghost xv = x@;
        let ghost pre = r@.map_values(|x: netplan::ConfigItem| x@);
        proof {
            assert(xv == v@.map_values(|x: netplan::ConfigItem| x@)[i as int]);
        }
        r.push(x);
        proof {
            assert(r@.map_values(|x: netplan::ConfigItem| x@) =~= pre.push(xv));
            assert(pre.push(xv) =~= v@.map_values(|x: netplan::ConfigItem| x@).take(i + 1));
        }
        i += 1;
    }
    proof {
        assert(v@.map_values(|x: netplan::ConfigItem| x@).take(v.len() as int) =~= v@.map_values(
            |x: netplan::ConfigItem| x@,
        ));
    }
    r
}

fn clone_user_items(v: &Vec<user::ConfigItem>) -> (r: Vec<user::ConfigItem>)
    ensures
        r@.map_values(|x: user::ConfigItem| x@) == v@.map_values(|x: user::ConfigItem| x@),
{
    let mut r: Vec<user::ConfigItem> = Vec::new();
    let mut i: usize = 0;
    proof {
        assert(r@.map_values(|x: user::ConfigItem| x@) =~= v@.map_values(
            |x: user::ConfigItem| x@,
        ).take(0));
    }
    while i < v.len()
        invariant
            0 <= i <= v.len(),
            r@.map_values(|x: user::ConfigItem| x@) == v@.map_values(
                |x: user::ConfigItem| x@,
            ).take(i as int),
        decreases v.len() - i,
    {
        let x = v[i].clone();
        let ghost xv = x@;
        let ghost pre = r@.map_values(|x: user::ConfigItem| x@);
        proof {
            assert(xv == v@.map_values(|x: user::ConfigItem| x@)[i as int]);
        }
        r.push(x);
        proof {
            assert(r@.map_values(|x: user::ConfigItem| x@) =~= pre.push(xv));
            assert(pre.push(xv) =~= v@.map_values(|x: user::ConfigItem| x@).take(i + 1));
        }
        i += 1;
    }
    proof {
        assert(v@.map_values(|x: user::ConfigItem| x@).take(v.len() as int) =~= v@.map_values(
            |x: user::ConfigItem| x@,
        ));
    }
    r
}

fn clone_apt_repo_items(v: &Vec<apt_repo::ConfigItem>) -> (r: Vec<apt_repo::ConfigItem>)
    ensures
        r@.map_values(|x: apt_repo::ConfigItem| x@) == v@.map_values(
            |x: apt_repo::ConfigItem| x@,
        ),
{
    let mut r: Vec<apt_repo::ConfigItem> = Vec::new();
    let mut i: usize = 0;
    proof {
        assert(r@.map_values(|x: apt_repo::ConfigItem| x@) =~= v@.map_values(
            |x: apt_repo::ConfigItem| x@,
        ).take(0));
    }
    while i < v.len()
        invariant
            0 <= i <= v.len(),
            r@.map_values(|x: apt_repo::ConfigItem| x@) == v@.map_values(
                |x: apt_repo::ConfigItem| x@,
            ).take(i as int),
        decreases v.len() - i,
    {
        let x = v[i].clone();
        let ghost xv = x@;
        let ghost pre = r@.map_values(|x: apt_repo::ConfigItem| x@);
        proof {
            assert(xv == v@.map_values(|x: apt_repo::ConfigItem| x@)[i as int]);
        }
        r.push(x);
        proof {
            assert(r@.map_values(|x: apt_repo::ConfigItem| x@) =~= pre.push(xv));
            assert(pre.push(xv) =~= v@.map_values(|x: apt_repo::ConfigItem| x@).take(i + 1));
        }
        i += 1;
    }
    proof {
        assert(v@.map_values(|x: apt_repo::ConfigItem| x@).take(v.len() as int) =~= v@.map_values(
            |x: apt_repo::ConfigItem| x@,
        ));
    }
    r
}

impl Clone for ConfigItem {
    fn clone(&self) -> (r: Self)
        ensures
            r@ == self@,
    {
        match self {
            ConfigItem::Netplan(v) => ConfigItem::Netplan(clone_netplan_items(v)),
            ConfigItem::User(v) => ConfigItem::User(clone_user_items(v)),
            ConfigItem::AptRepo(v) => ConfigItem::AptRepo(clone_apt_repo_items(v)),
        }
    }
}

/// An optional chroot under which all sub-items act, and the ordered
/// sub-items themselves.
#[derive(Debug)]
pub struct Config {
    pub chroot: Option<String>,
    pub with: Vec<ConfigItem>,
}

/// The mathematical value of a reconfigurator configuration.
#[verifier::ext_equal]
pub struct ConfigV {
    pub chroot: Option<Seq<char>>,
    pub with: Seq<ConfigItemV>,
}

impl View for Config {
    type V = ConfigV;

    open spec fn view(&self) -> ConfigV {
        ConfigV {
            chroot: self.chroot.deep_view(),
            with: self.with@.map_values(|x: ConfigItem| x@),
        }
    }
}

impl Clone for Config {
    fn clone(&self) -> (r: Self)
        ensures
            r@ == self@,
    {
        let mut items: Vec<ConfigItem> = Vec::new();
        let mut i: usize = 0;
        proof {
            assert(items@.map_values(|x: ConfigItem| x@) =~= self.with@.map_values(
                |x: ConfigItem| x@,
            ).take(0));
        }
        while i < self.with.len()
            invariant
                0 <= i <= self.with.len(),
                items@.map_values(|x: ConfigItem| x@) == self.with@.map_values(
                    |x: ConfigItem| x@,
                ).take(i as int),
            decreases self.with.len() - i,
        {
            let x = self.with[i].clone();
            let ghost xv = x@;
            let ghost pre = items@.map_values(|x: ConfigItem| x@);
            proof {
                assert(xv == self.with@.map_values(|x: ConfigItem| x@)[i as int]);
            }
            items.push(x);
            proof {
                assert(items@.map_values(|x: ConfigItem| x@) =~= pre.push(xv));
                assert(pre.push(xv) =~= self.with@.map_values(|x: ConfigItem| x@).take(i + 1));
            }
            i += 1;
        }
        proof {
            assert(self.with@.map_values(|x: ConfigItem| x@).take(self.with.len() as int)
                =~= self.with@.map_values(|x: ConfigItem| x@));
        }
        Config { chroot: clone_opt_string(&self.chroot), with: items }
    }
}

// ------------------------------------------------------------------
// The reconfiguration machine.
// ------------------------------------------------------------------

/// A reconfiguration is done when every declared sub-item's flag is
/// set.
pub open spec fn sc_done(cv: ConfigV, flags: Seq<bool>) -> bool {
    flags.len() >= cv.with.len() && (forall|i: int| 0 <= i < cv.with.len() ==> flags[i])
}

/// Every effect the reconfigurator may request: the command batch of
/// one of its user sub-items, or the existence check and pinned write
/// of one of its repository entries.
pub open spec fn sc_action_allowed(cv: ConfigV, a: Action) -> bool {
    match a {
        Action::RunEach(v) => exists|i: int|
            0 <= i < cv.with.len() && (#[trigger] cv.with[i] matches ConfigItemV::User(its)
                && view_cmds(v@) == user::spec_user_cmds(its, cv.chroot)),
        Action::PathExists(p) => exists|i: int|
            0 <= i < cv.with.len() && (#[trigger] cv.with[i] matches ConfigItemV::AptRepo(its)
                && (exists|j: int|
                0 <= j < its.len() && p@ == apt_repo::spec_repo_path(
                    cv.chroot,
                    (#[trigger] its[j]).name,
                ))),
        Action::WriteFile(p, s) => exists|i: int|
            0 <= i < cv.with.len() && (#[trigger] cv.with[i] matches ConfigItemV::AptRepo(its)
                && (exists|j: int|
                0 <= j < its.len() && p@ == apt_repo::spec_repo_path(
                    cv.chroot,
                    (#[trigger] its[j]).name,
                ) && s@ == apt_repo::spec_repo_content(its[j]))),
        _ => false,
    }
}

/// Where the reconfigurator stands between two effects.
#[derive(Debug)]
pub enum Phase {
    Begin,
    UserRun { idx: usize },
    RepoCheck { idx: usize, item: usize },
    RepoWrite { idx: usize, item: usize },
    Halted,
}


/// Missing flags count as false: the flag vector padded to `n`.
pub open spec fn sc_pad(flags: Seq<bool>, n: int) -> Seq<bool> {
    if flags.len() >= n {
        flags
    } else {
        flags + Seq::new((n - flags.len()) as nat, |_i: int| false)
    }
}

/// A sub-item that needs no external work: a deferred network plan, a
/// user list whose command plan is empty, or an empty repository list.
pub open spec fn sc_auto(cv: ConfigV, i: int) -> bool {
    match cv.with[i] {
        ConfigItemV::Netplan(_) => true,
        ConfigItemV::User(its) => user::spec_user_cmds(its, cv.chroot).len() == 0,
        ConfigItemV::AptRepo(its) => its.len() == 0,
    }
}

/// The walk over the sub-items from `i` on, in declaration order:
/// items whose flag is set are skipped, items that need no work have
/// their flag flipped in passing, and the walk stops at the first item
/// that asks for an effect, or at the end.  Yields the flags after the
/// walk and the stop index (the item count when nothing is left).
pub open spec fn sc_walk(cv: ConfigV, flags: Seq<bool>, i: int) -> (Seq<bool>, int)
    decreases cv.with.len() - i,
{
    if i < 0 || i >= cv.with.len() {
        (flags, cv.with.len() as int)
    } else if flags[i] {
        sc_walk(cv, flags, i + 1)
    } else if sc_auto(cv, i) {
        sc_walk(cv, flags.update(i, true), i + 1)
    } else {
        (flags, i)
    }
}

/// The walk keeps the flag count, never clears a flag, leaves a down
/// flag at its stop index, and, when it reaches the end, leaves every
/// flag it passed set — from the start, the whole record is done.
pub proof fn lemma_sc_walk(cv: ConfigV, flags: Seq<bool>, i: int)
    requires
        0 <= i,
        flags.len() >= cv.with.len(),
    ensures
        ({
            let w = sc_walk(cv, flags, i);
            w.0.len() == flags.len() && (forall|k: int|
                0 <= k < flags.len() && flags[k] ==> w.0[k]) && (w.1 < cv.with.len()
                ==> !w.0[w.1]) && (w.1 >= cv.with.len() ==> forall|k: int|
                i <= k < cv.with.len() ==> w.0[k])
        }),
    decreases cv.with.len() - i,
{
    if i >= cv.with.len() {
    } else if flags[i] {
        lemma_sc_walk(cv, flags, i + 1);
    } else if sc_auto(cv, i) {
        let f2 = flags.update(i, true);
        lemma_sc_walk(cv, f2, i + 1);
        assert(forall|k: int| 0 <= k < flags.len() && flags[k] ==> f2[k]);
        assert(f2[i]);
        let w = sc_walk(cv, f2, i + 1);
        assert(w.1 >= cv.with.len() ==> w.0[i]);
    } else {
    }
}

/// What the walk's stopping point forces on an advancing step:
/// completion when every sub-item is done, else exactly the stopped
/// sub-item's own effect.
pub open spec fn sc_after_walk(
    cv: ConfigV,
    flags0: Seq<bool>,
    idx: int,
    post: Phase,
    flags1: Seq<bool>,
    st: Step,
) -> bool {
    let w = sc_walk(cv, flags0, idx);
    flags1 == w.0 && (if w.1 >= cv.with.len() {
        st is Done && post is Begin
    } else {
        match cv.with[w.1] {
            ConfigItemV::User(its) => (post matches Phase::UserRun { idx: i2 } && i2 == w.1) && (st
                matches Step::Do(Action::RunEach(v)) && view_cmds(v@) == user::spec_user_cmds(
                its,
                cv.chroot,
            )),
            ConfigItemV::AptRepo(its) => (post matches Phase::RepoCheck { idx: i2, item } && i2
                == w.1 && item == 0) && (st matches Step::Do(Action::PathExists(p)) && p@
                == apt_repo::spec_repo_path(cv.chroot, its[0].name)),
            ConfigItemV::Netplan(_) => false,
        }
    })
}

/// An unexpected pair halts the machine with an invariant error.
pub open spec fn sc_halts(post: Phase, flags0: Seq<bool>, flags1: Seq<bool>, st: Step) -> bool {
    (st matches Step::Fail(e) && e is Invariant) && post is Halted && flags1 == flags0
}

/// What follows once entry `item` of repository sub-item `idx` is
/// settled: the next entry's existence check, or the sub-item's flag
/// and the walk onward when it was the last.
pub open spec fn sc_next_repo(
    cv: ConfigV,
    flags0: Seq<bool>,
    idx: int,
    item: int,
    post: Phase,
    flags1: Seq<bool>,
    st: Step,
) -> bool {
    if idx >= cv.with.len() {
        sc_halts(post, flags0, flags1, st)
    } else {
        match cv.with[idx] {
            ConfigItemV::AptRepo(its) => if item >= its.len() {
                sc_halts(post, flags0, flags1, st)
            } else if item + 1 < its.len() {
                (post matches Phase::RepoCheck { idx: i2, item: t2 } && i2 == idx && t2 == item
                    + 1) && (st matches Step::Do(Action::PathExists(p)) && p@
                    == apt_repo::spec_repo_path(cv.chroot, its[item + 1].name)) && flags1 == flags0
            } else {
                sc_after_walk(cv, flags0.update(idx, true), idx + 1, post, flags1, st)
            },
            _ => sc_halts(post, flags0, flags1, st),
        }
    }
}

/// The full transition relation of the reconfigurator: for every
/// (phase, event) pair, exactly which step comes out, where the
/// machine stands afterwards, and how the flags move.
pub open spec fn sc_next(
    cv: ConfigV,
    pre: Phase,
    f0: Seq<bool>,
    ev: Event,
    post: Phase,
    f1: Seq<bool>,
    st: Step,
) -> bool {
    match (pre, ev) {
        (Phase::Begin, Event::Start) => sc_after_walk(
            cv,
            sc_pad(f0, cv.with.len() as int),
            0,
            post,
            f1,
            st,
        ),
        (Phase::UserRun { idx }, Event::Acked) => if idx < cv.with.len() && f0.len()
            >= cv.with.len() {
            sc_after_walk(cv, f0.update(idx as int, true), idx + 1, post, f1, st)
        } else {
            sc_halts(post, f0, f1, st)
        },
        (Phase::RepoCheck { idx, item }, Event::Exists { yes }) => if idx < cv.with.len() {
            match cv.with[idx as int] {
                ConfigItemV::AptRepo(its) => if item < its.len() {
                    if apt_repo::spec_repo_write_needed(yes, its[item as int].overwrite) {
                        (post matches Phase::RepoWrite { idx: i2, item: t2 } && i2 == idx && t2
                            == item) && (st matches Step::Do(Action::WriteFile(p, c)) && p@
                            == apt_repo::spec_repo_path(cv.chroot, its[item as int].name) && c@
                            == apt_repo::spec_repo_content(its[item as int])) && f1 == f0
                    } else if f0.len() < cv.with.len() {
                        sc_halts(post, f0, f1, st)
                    } else {
                        sc_next_repo(cv, f0, idx as int, item as int, post, f1, st)
                    }
                } else {
                    sc_halts(post, f0, f1, st)
                },
                _ => sc_halts(post, f0, f1, st),
            }
        } else {
            sc_halts(post, f0, f1, st)
        },
        (Phase::RepoWrite { idx, item }, Event::Wrote { errno }) => match errno {
            Some(_) => (st matches Step::Fail(e) && e is Io) && post is Halted && f1 == f0,
            None => if f0.len() < cv.with.len() {
                sc_halts(post, f0, f1, st)
            } else {
                sc_next_repo(cv, f0, idx as int, item as int, post, f1, st)
            },
        },
        _ => sc_halts(post, f0, f1, st),
    }
}

/// The system reconfigurator: carries the effective globals of its
/// recipe; the chroot its sub-items act under sits in the config.
pub struct Context(pub Globals);

impl Plugin for Context {
    type Config = Config;

    type State = Vec<bool>;

    open spec fn spec_done(s: &Vec<bool>) -> bool {
        forall|i: int| 0 <= i < s@.len() ==> s@[i]
    }

    fn done(s: &Vec<bool>) -> (r: bool) {
        let mut i: usize = 0;
        while i < s.len()
            invariant
                0 <= i <= s.len(),
                forall|j: int| 0 <= j < i ==> s@[j],
            decreases s.len() - i,
        {
            if !s[i] {
                return false;
            }
            i += 1;
        }
        true
    }
}

impl Context {
    /// Walk the sub-items from `idx` on, flipping the flags of the
    /// ones that need no external work, until one asks for an effect
    /// or all are done.
    fn advance(&self, config: &Config, flags: &mut Vec<bool>, idx: usize) -> (r: (Phase, Step))
        requires
            old(flags).len() >= config.with.len(),
            idx <= config.with.len(),
        ensures
            final(flags).len() == old(flags).len(),
            forall|k: int| 0 <= k < old(flags).len() && old(flags)@[k] ==> final(flags)@[k],
            (forall|k: int| idx <= k < config.with.len() ==> old(flags)@[k]) ==> r.1 is Done
                && final(flags)@ == old(flags)@,
            (r.1 matches Step::Do(a) ==> sc_action_allowed(config@, a)),
            !(r.1 matches Step::Do(Action::WriteFile(_, _))),
            !(r.1 is Fail),
            sc_after_walk(config@, old(flags)@, idx as int, r.0, final(flags)@, r.1),
    {
        let ghost cv = config@;
        let mut i: usize = idx;
        loop
            invariant
                idx <= i <= config.with.len(),
                cv == config@,
                flags.len() == old(flags).len(),
                flags.len() >= config.with.len(),
                forall|k: int| 0 <= k < old(flags).len() && old(flags)@[k] ==> flags@[k],
                (forall|k: int| idx <= k < config.with.len() ==> old(flags)@[k]) ==> flags@
                    == old(flags)@,
                forall|k: int| idx <= k < i && k < config.with.len() ==> flags@[k],
                sc_walk(cv, old(flags)@, idx as int) == sc_walk(cv, flags@, i as int),
            ensures
                idx <= i <= config.with.len(),
                flags.len() == old(flags).len(),
                forall|k: int| 0 <= k < old(flags).len() && old(flags)@[k] ==> flags@[k],
                (forall|k: int| idx <= k < config.with.len() ==> old(flags)@[k]) ==> flags@
                    == old(flags)@,
                stopped_here(self, config, flags, i),
                sc_walk(cv, old(flags)@, idx as int) == (flags@, i as int),
            decreases config.with.len() - i,
        {
            if i >= config.with.len() {
                proof {
                    assert(stopped_here(self, config, flags, i));
                    assert(sc_walk(cv, flags@, i as int) == (flags@, i as int));
                }
                break;
            }
            if flags[i] {
                proof {
                    assert(sc_walk(cv, flags@, i as int) == sc_walk(cv, flags@, i + 1));
                }
                i += 1;
                continue;
            }
            match &config.with[i] {
                ConfigItem::Netplan(_) => {
                    // deferred: applying a network plan only flips its flag
                    let ghost pre = flags@;
                    proof {
                        assert(sc_auto(cv, i as int));
                        assert(sc_walk(cv, pre, i as int) == sc_walk(
                            cv,
                            pre.update(i as int, true),
                            i + 1,
                        ));
                    }
                    flags.set(i, true);
                    i += 1;
                },
                ConfigItem::User(items) => {
                    let cmds = user::user_cmds(items, &config.chroot);
                    if cmds.len() == 0 {
                        let ghost pre = flags@;
                        proof {
                            assert(sc_auto(cv, i as int)) by {
                                assert(cv.with[i as int] matches ConfigItemV::User(its)
                                    && user::spec_user_cmds(its, cv.chroot).len() == 0);
                            }
                            assert(sc_walk(cv, pre, i as int) == sc_walk(
                                cv,
                                pre.update(i as int, true),
                                i + 1,
                            ));
                        }
                        flags.set(i, true);
                        i += 1;
                    } else {
                        proof {
                            assert(stopped_here(self, config, flags, i));
                            assert(!sc_auto(cv, i as int));
                            assert(sc_walk(cv, flags@, i as int) == (flags@, i as int));
                        }
                        break;
                    }
                },
                ConfigItem::AptRepo(items) => {
                    if items.len() == 0 {
                        let ghost pre = flags@;
                        proof {
                            assert(sc_auto(cv, i as int));
                            assert(sc_walk(cv, pre, i as int) == sc_walk(
                                cv,
                                pre.update(i as int, true),
                                i + 1,
                            ));
                        }
                        flags.set(i, true);
                        i += 1;
                    } else {
                        proof {
                            assert(stopped_here(self, config, flags, i));
                            assert(!sc_auto(cv, i as int));
                            assert(sc_walk(cv, flags@, i as int) == (flags@, i as int));
                        }
                        break;
                    }
                },
            }
        }
        if i >= config.with.len() {
            (Phase::Begin, Step::Done)
        } else {
            match &config.with[i] {
                ConfigItem::User(items) => {
                    let cmds = user::user_cmds(items, &config.chroot);
                    let act = Action::RunEach(cmds);
                    proof {
                        assert(sc_action_allowed(config@, act)) by {
                            assert(config@.with[i as int] matches ConfigItemV::User(its)
                                && view_cmds((match act {
                                Action::RunEach(v) => v,
                                _ => arbitrary(),
                            })@) == user::spec_user_cmds(its, config@.chroot));
                        }
                    }
                    (Phase::UserRun { idx: i }, Step::Do(act))
                },
                ConfigItem::AptRepo(items) => {
                    let p = apt_repo::repo_path(&config.chroot, &items[0].name);
                    let act = Action::PathExists(p);
                    proof {
                        assert(sc_action_allowed(config@, act)) by {
                            assert(config@.with[i as int] matches ConfigItemV::AptRepo(its) && 0
                                <= 0 < its.len() && (match act {
                                Action::PathExists(q) => q@ == apt_repo::spec_repo_path(
                                    config@.chroot,
                                    its[0].name,
                                ),
                                _ => false,
                            }));
                        }
                    }
                    (Phase::RepoCheck { idx: i, item: 0 }, Step::Do(act))
                },
                ConfigItem::Netplan(_) => {
                    // the walk never stops at a deferred item
                    proof {
                        assert(false);
                    }
                    (Phase::Begin, Step::Done)
                },
            }
        }
    }

    /// Move to the next repository entry of sub-item `idx`, or flip the
    /// sub-item's flag and walk on when it was the last.
    fn next_repo(&self, config: &Config, flags: &mut Vec<bool>, idx: usize, item: usize) -> (r: (
        Phase,
        Step,
    ))
        requires
            old(flags).len() >= config.with.len(),
        ensures
            final(flags).len() == old(flags).len(),
            forall|k: int| 0 <= k < old(flags).len() && old(flags)@[k] ==> final(flags)@[k],
            (r.1 matches Step::Do(a) ==> sc_action_allowed(config@, a)),
            !(r.1 matches Step::Do(Action::WriteFile(_, _))),
            sc_next_repo(config@, old(flags)@, idx as int, item as int, r.0, final(flags)@, r.1),
    {
        if idx >= config.with.len() {
            return (
                Phase::Halted,
                Step::Fail(Error::Invariant { msg: String::from_str("unexpected event") }),
            );
        }
        match &config.with[idx] {
            ConfigItem::AptRepo(items) => {
                if item >= items.len() {
                    return (
                        Phase::Halted,
                        Step::Fail(Error::Invariant { msg: String::from_str("unexpected event") }),
                    );
                }
                if item + 1 < items.len() {
                    let p = apt_repo::repo_path(&config.chroot, &items[item + 1].name);
                    let act = Action::PathExists(p);
                    proof {
                        assert(sc_action_allowed(config@, act)) by {
                            assert(config@.with[idx as int] matches ConfigItemV::AptRepo(its) && 0
                                <= item + 1 < its.len() && (match act {
                                Action::PathExists(q) => q@ == apt_repo::spec_repo_path(
                                    config@.chroot,
                                    its[item + 1].name,
                                ),
                                _ => false,
                            }));
                        }
                    }
                    (Phase::RepoCheck { idx, item: item + 1 }, Step::Do(act))
                } else {
                    flags.set(idx, true);
                    self.advance(config, flags, idx + 1)
                }
            },
            _ => (
                Phase::Halted,
                Step::Fail(Error::Invariant { msg: String::from_str("unexpected event") }),
            ),
        }
    }

    /// One transition of the reconfiguration.
    ///
    /// The contract is the transition relation `sc_next`, built on the
    /// walk `sc_walk`: sub-items run in declaration order, each
    /// exactly while its flag is false, and completion is reported
    /// only when the walk covers every sub-item — after a fresh start
    /// that means every flag is true.  On top of it: flags never fall
    /// back; an already-covered state finishes immediately with
    /// nothing changed; every requested effect is pinned to one of the
    /// declared sub-items; and for a repository entry whose existence
    /// has been observed, a write is requested exactly when the file
    /// was absent or the entry says `overwrite: true`.
    pub fn step(&self, config: &Config, flags: &mut Vec<bool>, phase: Phase, ev: Event) -> (r: (
        Phase,
        Step,
    ))
        ensures
            forall|k: int| 0 <= k < old(flags).len() && old(flags)@[k] ==> k
                < final(flags).len() && final(flags)@[k],
            phase is Begin && ev is Start && sc_done(config@, old(flags)@) ==> r.1 is Done
                && final(flags)@ == old(flags)@,
            (r.1 matches Step::Do(a) ==> sc_action_allowed(config@, a)),
            (phase matches Phase::RepoCheck { idx, item } ==> (ev matches Event::Exists { yes }
                ==> (idx < config.with.len() ==> (config@.with[idx as int] matches
            ConfigItemV::AptRepo(its) ==> (item < its.len() ==> ((r.1 matches Step::Do(
                Action::WriteFile(_, _),
            )) <==> apt_repo::spec_repo_write_needed(yes, its[item as int].overwrite))))))),
            sc_next(config@, phase, old(flags)@, ev, r.0, final(flags)@, r.1),
            phase is Begin && ev is Start ==> (r.1 is Done ==> sc_done(config@, final(flags)@)),
    {
        match (phase, ev) {
            (Phase::Begin, Event::Start) => {
                proof {
                    assert(flags@ =~~= sc_pad(old(flags)@, flags.len() as int));
                }
                while flags.len() < config.with.len()
                    invariant
                        forall|k: int|
                            0 <= k < old(flags).len() && old(flags)@[k] ==> k < flags.len()
                                && flags@[k],
                        old(flags).len() <= flags.len(),
                        sc_done(config@, old(flags)@) ==> flags@ == old(flags)@,
                        flags@ == sc_pad(old(flags)@, flags.len() as int),
                        flags.len() <= config.with.len() || flags.len() == old(flags).len(),
                    decreases config.with.len() - flags.len(),
                {
                    let ghost pre = flags@;
                    flags.push(false);
                    proof {
                        assert(flags@ =~~= sc_pad(old(flags)@, flags.len() as int));
                    }
                }
                proof {
                    if flags.len() == config.with.len() {
                        assert(flags@ =~~= sc_pad(old(flags)@, config.with.len() as int));
                    } else {
                        assert(old(flags).len() >= config.with.len());
                        assert(flags@ =~~= sc_pad(old(flags)@, config.with.len() as int));
                    }
                }
                let r = self.advance(config, flags, 0);
                proof {
                    if r.1 is Done {
                        lemma_sc_walk(config@, sc_pad(old(flags)@, config.with.len() as int), 0);
                    }
                }
                r
            },
            (Phase::UserRun { idx }, Event::Acked) => {
                if idx >= config.with.len() || flags.len() < config.with.len() {
                    (
                        Phase::Halted,
                        Step::Fail(Error::Invariant { msg: String::from_str("unexpected event") }),
                    )
                } else {
                    flags.set(idx, true);
                    self.advance(config, flags, idx + 1)
                }
            },
            (Phase::RepoCheck { idx, item }, Event::Exists { yes }) => {
                if idx >= config.with.len() {
                    (
                        Phase::Halted,
                        Step::Fail(Error::Invariant { msg: String::from_str("unexpected event") }),
                    )
                } else {
                    match &config.with[idx] {
                        ConfigItem::AptRepo(items) => {
                            if item >= items.len() {
                                (
                                    Phase::Halted,
                                    Step::Fail(
                                        Error::Invariant {
                                            msg: String::from_str("unexpected event"),
                                        },
                                    ),
                                )
                            } else if apt_repo::repo_write_needed(yes, items[item].overwrite) {
                                let p = apt_repo::repo_path(&config.chroot, &items[item].name);
                                let content = apt_repo::repo_content(&items[item]);
                                let act = Action::WriteFile(p, content);
                                proof {
                                    assert(sc_action_allowed(config@, act)) by {
                                        assert(config@.with[idx as int] matches
                                            ConfigItemV::AptRepo(its) && 0 <= item < its.len()
                                            && (match act {
                                            Action::WriteFile(q, c) => q@
                                                == apt_repo::spec_repo_path(
                                                config@.chroot,
                                                its[item as int].name,
                                            ) && c@ == apt_repo::spec_repo_content(
                                                its[item as int],
                                            ),
                                            _ => false,
                                        }));
                                    }
                                }
                                (Phase::RepoWrite { idx, item }, Step::Do(act))
                            } else if flags.len() < config.with.len() {
                                (
                                    Phase::Halted,
                                    Step::Fail(
                                        Error::Invariant {
                                            msg: String::from_str("unexpected event"),
                                        },
                                    ),
                                )
                            } else {
                                self.next_repo(config, flags, idx, item)
                            }
                        },
                        _ => (
                            Phase::Halted,
                            Step::Fail(
                                Error::Invariant { msg: String::from_str("unexpected event") },
                            ),
                        ),
                    }
                }
            },
            (Phase::RepoWrite { idx, item }, Event::Wrote { errno }) => match errno {
                Some(_) => (
                    Phase::Halted,
                    Step::Fail(
                        Error::Io { msg: String::from_str("cannot write the repository file") },
                    ),
                ),
                None => {
                    if flags.len() < config.with.len() {
                        (
                            Phase::Halted,
                            Step::Fail(
                                Error::Invariant { msg: String::from_str("unexpected event") },
                            ),
                        )
                    } else {
                        self.next_repo(config, flags, idx, item)
                    }
                },
            },
            (Phase::Halted, _) => (
                Phase::Halted,
                Step::Fail(
                    Error::Invariant {
                        msg: String::from_str("the reconfigurator already failed"),
                    },
                ),
            ),
            (_, _) => (
                Phase::Halted,
                Step::Fail(Error::Invariant { msg: String::from_str("unexpected event") }),
            ),
        }
    }
}

/// The walk in `advance` stopped at `i` because everything before ran
/// or needs no work, and `i` is either the end or an item that asks
/// for an effect.
pub open spec fn stopped_here(ctx: &Context, config: &Config, flags: &Vec<bool>, i: usize) -> bool {
    i >= config.with.len() || (i < flags.len() && !flags@[i as int] && (match config@.with[
        i as int
    ] {
        ConfigItemV::User(its) => user::spec_user_cmds(its, config@.chroot).len() > 0,
        ConfigItemV::AptRepo(its) => its.len() > 0,
        ConfigItemV::Netplan(_) => false,
    }))
}

} // verus!
