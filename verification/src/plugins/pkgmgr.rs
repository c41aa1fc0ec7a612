//! Configuration of the package manager plugin.

use vstd::prelude::*;
use crate::cloneutil::clone_opt_string_vec;
use crate::effect::{view_cmds, Action, CmdSpec, CmdSpecV, Event, Step};
use crate::error::Error;
use crate::plugins::{Distro, Globals, Plugin};
use crate::strutil::push_str;

verus! {

/// Which packages to install or remove, and whether to upgrade first
/// (the default when `update` is absent).
#[derive(Debug)]
pub struct Config {
    pub install: Option<Vec<String>>,
    pub remove: Option<Vec<String>>,
    pub update: Option<bool>,
}

/// The mathematical value of a package manager configuration.
#[verifier::ext_equal]
pub struct ConfigV {
    pub install: Option<Seq<Seq<char>>>,
    pub remove: Option<Seq<Seq<char>>>,
    pub update: Option<bool>,
}

impl View for Config {
    type V = ConfigV;

    open spec fn view(&self) -> ConfigV {
        ConfigV {
            install: self.install.deep_view(),
            remove: self.remove.deep_view(),
            update: self.update,
        }
    }
}

impl Clone for Config {
    fn clone(&self) -> (r: Self)
        ensures
            r@ == self@,
    {
        Config {
            install: clone_opt_string_vec(&self.install),
            remove: clone_opt_string_vec(&self.remove),
            update: self.update,
        }
    }
}

// ------------------------------------------------------------------
// The package manager machine.
// ------------------------------------------------------------------

/// A command without stdin or chroot.
pub open spec fn spec_cmd(argv: Seq<Seq<char>>) -> CmdSpecV {
    CmdSpecV { argv, stdin: None, chroot: None }
}

pub open spec fn apt_update_argv() -> Seq<Seq<char>> {
    seq!["apt-get"@, "update"@]
}

pub open spec fn apt_upgrade_argv() -> Seq<Seq<char>> {
    seq!["apt-get"@, "upgrade"@, "-y"@]
}

pub open spec fn apt_install_argv(pkgs: Seq<Seq<char>>) -> Seq<Seq<char>> {
    seq![
        "apt-get"@, "install"@, "-y"@, "--no-install-recommends"@, "--no-install-suggests"@,
        "--allow-downgrades"@,
    ] + pkgs
}

pub open spec fn apt_remove_argv(pkgs: Seq<Seq<char>>) -> Seq<Seq<char>> {
    seq!["apt-get"@, "autoremove"@, "-y"@, "--purge"@] + pkgs
}

pub open spec fn dnf_upgrade_argv() -> Seq<Seq<char>> {
    seq!["dnf"@, "upgrade"@, "-y"@]
}

pub open spec fn dnf_install_argv(pkgs: Seq<Seq<char>>) -> Seq<Seq<char>> {
    seq!["dnf"@, "install"@, "-y"@] + pkgs
}

pub open spec fn dnf_remove_argv(pkgs: Seq<Seq<char>>) -> Seq<Seq<char>> {
    seq!["dnf"@, "remove"@, "-y"@] + pkgs
}

pub open spec fn pacman_update_argv() -> Seq<Seq<char>> {
    seq!["pacman"@, "-Sy"@]
}

pub open spec fn pacman_upgrade_argv() -> Seq<Seq<char>> {
    seq!["pacman"@, "-Su"@, "--noconfirm"@]
}

pub open spec fn pacman_install_argv(pkgs: Seq<Seq<char>>) -> Seq<Seq<char>> {
    seq!["pacman"@, "-S"@, "--noconfirm"@] + pkgs
}

pub open spec fn pacman_remove_argv(pkgs: Seq<Seq<char>>) -> Seq<Seq<char>> {
    seq!["pacman"@, "-Rns"@, "--noconfirm"@] + pkgs
}

pub open spec fn apk_update_argv() -> Seq<Seq<char>> {
    seq!["apk"@, "update"@]
}

pub open spec fn apk_upgrade_argv() -> Seq<Seq<char>> {
    seq!["apk"@, "upgrade"@, "--no-progress"@]
}

pub open spec fn apk_install_argv(pkgs: Seq<Seq<char>>) -> Seq<Seq<char>> {
    seq!["apk"@, "add"@, "--no-progress"@] + pkgs
}

pub open spec fn apk_remove_argv(pkgs: Seq<Seq<char>>) -> Seq<Seq<char>> {
    seq!["apk"@, "del"@, "--no-progress"@] + pkgs
}

/// The install list when one is present and non-empty; an absent or
/// empty list runs no command.
pub open spec fn spec_opt_pkgs(o: Option<Seq<Seq<char>>>) -> Option<Seq<Seq<char>>> {
    match o {
        Some(p) => if p.len() > 0 {
            Some(p)
        } else {
            None
        },
        None => None,
    }
}

/// The full command plan of one package-manager run for a known
/// distribution: refresh the package lists, upgrade unless `update` is
/// `false`, then install, then remove, with the pinned flag sets of the
/// distribution's own tool.
pub open spec fn spec_pkg_plan(d: Distro, c: ConfigV) -> Seq<CmdSpecV> {
    let upgrade = c.update != Some(false);
    let inst = spec_opt_pkgs(c.install);
    let rem = spec_opt_pkgs(c.remove);
    let (upd_cmds, upg, insf, remf): (
        Seq<CmdSpecV>,
        CmdSpecV,
        spec_fn(Seq<Seq<char>>) -> Seq<Seq<char>>,
        spec_fn(Seq<Seq<char>>) -> Seq<Seq<char>>,
    ) = match d {
        Distro::Ubuntu | Distro::Debian => (
            seq![spec_cmd(apt_update_argv())],
            spec_cmd(apt_upgrade_argv()),
            |p: Seq<Seq<char>>| apt_install_argv(p),
            |p: Seq<Seq<char>>| apt_remove_argv(p),
        ),
        Distro::Fedora => (
            Seq::empty(),
            spec_cmd(dnf_upgrade_argv()),
            |p: Seq<Seq<char>>| dnf_install_argv(p),
            |p: Seq<Seq<char>>| dnf_remove_argv(p),
        ),
        Distro::Arch => (
            seq![spec_cmd(pacman_update_argv())],
            spec_cmd(pacman_upgrade_argv()),
            |p: Seq<Seq<char>>| pacman_install_argv(p),
            |p: Seq<Seq<char>>| pacman_remove_argv(p),
        ),
        Distro::Alpine => (
            seq![spec_cmd(apk_update_argv())],
            spec_cmd(apk_upgrade_argv()),
            |p: Seq<Seq<char>>| apk_install_argv(p),
            |p: Seq<Seq<char>>| apk_remove_argv(p),
        ),
    };
    upd_cmds + (if upgrade {
        seq![upg]
    } else {
        Seq::<CmdSpecV>::empty()
    }) + (match inst {
        Some(p) => seq![spec_cmd(insf(p))],
        None => Seq::<CmdSpecV>::empty(),
    }) + (match rem {
        Some(p) => seq![spec_cmd(remf(p))],
        None => Seq::<CmdSpecV>::empty(),
    })
}

fn extend_pkgs(a: &mut Vec<String>, pkgs: &Vec<String>)
    ensures
        final(a).deep_view() == old(a).deep_view() + pkgs.deep_view(),
{
    let mut i: usize = 0;
    proof {
        assert(a.deep_view() + pkgs.deep_view().take(0) =~~= a.deep_view());
    }
    while i < pkgs.len()
        invariant
            0 <= i <= pkgs.len(),
            a.deep_view() == old(a).deep_view() + pkgs.deep_view().take(i as int),
        decreases pkgs.len() - i,
    {
        let ghost pre = a.deep_view();
        a.push(pkgs[i].clone());
        proof {
            assert(a.deep_view() =~~= pre.push(pkgs.deep_view()[i as int]));
            assert(old(a).deep_view() + pkgs.deep_view().take(i + 1) =~~= pre.push(
                pkgs.deep_view()[i as int],
            ));
        }
        i += 1;
    }
    proof {
        assert(pkgs.deep_view().take(pkgs.len() as int) =~~= pkgs.deep_view());
    }
}

fn plain(argv: Vec<String>) -> (c: CmdSpec)
    ensures
        c@ == spec_cmd(argv.deep_view()),
{
    CmdSpec { argv, stdin: None, chroot: None }
}

/// The command plan of one run, matching `spec_pkg_plan`.
pub fn pkg_plan(d: Distro, c: &Config) -> (r: Vec<CmdSpec>)
    ensures
        view_cmds(r@) == spec_pkg_plan(d, c@),
{
    let upgrade = match c.update {
        Some(false) => false,
        _ => true,
    };
    let mut cmds: Vec<CmdSpec> = Vec::new();
    match d {
        Distro::Ubuntu | Distro::Debian => {
            let mut a: Vec<String> = Vec::new();
            push_str(&mut a, "apt-get");
            push_str(&mut a, "update");
            proof {
                assert(a.deep_view() =~~= apt_update_argv());
            }
            cmds.push(plain(a));
            if upgrade {
                let mut b: Vec<String> = Vec::new();
                push_str(&mut b, "apt-get");
                push_str(&mut b, "upgrade");
                push_str(&mut b, "-y");
                proof {
                    assert(b.deep_view() =~~= apt_upgrade_argv());
                }
                cmds.push(plain(b));
            }
            match &c.install {
                Some(p) if p.len() > 0 => {
                    let mut b: Vec<String> = Vec::new();
                    push_str(&mut b, "apt-get");
                    push_str(&mut b, "install");
                    push_str(&mut b, "-y");
                    push_str(&mut b, "--no-install-recommends");
                    push_str(&mut b, "--no-install-suggests");
                    push_str(&mut b, "--allow-downgrades");
                    extend_pkgs(&mut b, p);
                    proof {
                        assert(b.deep_view() =~~= apt_install_argv(p.deep_view()));
                    }
                    cmds.push(plain(b));
                },
                _ => {},
            }
            match &c.remove {
                Some(p) if p.len() > 0 => {
                    let mut b: Vec<String> = Vec::new();
                    push_str(&mut b, "apt-get");
                    push_str(&mut b, "autoremove");
                    push_str(&mut b, "-y");
                    push_str(&mut b, "--purge");
                    extend_pkgs(&mut b, p);
                    proof {
                        assert(b.deep_view() =~~= apt_remove_argv(p.deep_view()));
                    }
                    cmds.push(plain(b));
                },
                _ => {},
            }
        },
        Distro::Fedora => {
            if upgrade {
                let mut b: Vec<String> = Vec::new();
                push_str(&mut b, "dnf");
                push_str(&mut b, "upgrade");
                push_str(&mut b, "-y");
                proof {
                    assert(b.deep_view() =~~= dnf_upgrade_argv());
                }
                cmds.push(plain(b));
            }
            match &c.install {
                Some(p) if p.len() > 0 => {
                    let mut b: Vec<String> = Vec::new();
                    push_str(&mut b, "dnf");
                    push_str(&mut b, "install");
                    push_str(&mut b, "-y");
                    extend_pkgs(&mut b, p);
                    proof {
                        assert(b.deep_view() =~~= dnf_install_argv(p.deep_view()));
                    }
                    cmds.push(plain(b));
                },
                _ => {},
            }
            match &c.remove {
                Some(p) if p.len() > 0 => {
                    let mut b: Vec<String> = Vec::new();
                    push_str(&mut b, "dnf");
                    push_str(&mut b, "remove");
                    push_str(&mut b, "-y");
                    extend_pkgs(&mut b, p);
                    proof {
                        assert(b.deep_view() =~~= dnf_remove_argv(p.deep_view()));
                    }
                    cmds.push(plain(b));
                },
                _ => {},
            }
        },
        Distro::Arch => {
            let mut a: Vec<String> = Vec::new();
            push_str(&mut a, "pacman");
            push_str(&mut a, "-Sy");
            proof {
                assert(a.deep_view() =~~= pacman_update_argv());
            }
            cmds.push(plain(a));
            if upgrade {
                let mut b: Vec<String> = Vec::new();
                push_str(&mut b, "pacman");
                push_str(&mut b, "-Su");
                push_str(&mut b, "--noconfirm");
                proof {
                    assert(b.deep_view() =~~= pacman_upgrade_argv());
                }
                cmds.push(plain(b));
            }
            match &c.install {
                Some(p) if p.len() > 0 => {
                    let mut b: Vec<String> = Vec::new();
                    push_str(&mut b, "pacman");
                    push_str(&mut b, "-S");
                    push_str(&mut b, "--noconfirm");
                    extend_pkgs(&mut b, p);
                    proof {
                        assert(b.deep_view() =~~= pacman_install_argv(p.deep_view()));
                    }
                    cmds.push(plain(b));
                },
                _ => {},
            }
            match &c.remove {
                Some(p) if p.len() > 0 => {
                    let mut b: Vec<String> = Vec::new();
                    push_str(&mut b, "pacman");
                    push_str(&mut b, "-Rns");
                    push_str(&mut b, "--noconfirm");
                    extend_pkgs(&mut b, p);
                    proof {
                        assert(b.deep_view() =~~= pacman_remove_argv(p.deep_view()));
                    }
                    cmds.push(plain(b));
                },
                _ => {},
            }
        },
        Distro::Alpine => {
            let mut a: Vec<String> = Vec::new();
            push_str(&mut a, "apk");
            push_str(&mut a, "update");
            proof {
                assert(a.deep_view() =~~= apk_update_argv());
            }
            cmds.push(plain(a));
            if upgrade {
                let mut b: Vec<String> = Vec::new();
                push_str(&mut b, "apk");
                push_str(&mut b, "upgrade");
                push_str(&mut b, "--no-progress");
                proof {
                    assert(b.deep_view() =~~= apk_upgrade_argv());
                }
                cmds.push(plain(b));
            }
            match &c.install {
                Some(p) if p.len() > 0 => {
                    let mut b: Vec<String> = Vec::new();
                    push_str(&mut b, "apk");
                    push_str(&mut b, "add");
                    push_str(&mut b, "--no-progress");
                    extend_pkgs(&mut b, p);
                    proof {
                        assert(b.deep_view() =~~= apk_install_argv(p.deep_view()));
                    }
                    cmds.push(plain(b));
                },
                _ => {},
            }
            match &c.remove {
                Some(p) if p.len() > 0 => {
                    let mut b: Vec<String> = Vec::new();
                    push_str(&mut b, "apk");
                    push_str(&mut b, "del");
                    push_str(&mut b, "--no-progress");
                    extend_pkgs(&mut b, p);
                    proof {
                        assert(b.deep_view() =~~= apk_remove_argv(p.deep_view()));
                    }
                    cmds.push(plain(b));
                },
                _ => {},
            }
        },
    }
    proof {
        assert(view_cmds(cmds@) =~~= spec_pkg_plan(d, c@));
    }
    cmds
}

/// Where the package manager stands between two effects.
#[derive(Debug)]
pub enum Phase {
    Begin,
    Running,
    Halted,
}

/// The only effect the package manager may request: the pinned command
/// plan of its distribution, as one stop-on-failure batch.
pub open spec fn pkg_action_allowed(g: Globals, cv: ConfigV, a: Action) -> bool {
    match a {
        Action::RunAll(v) => match g.distro_hint {
            Some(d) => view_cmds(v@) == spec_pkg_plan(d, cv),
            None => false,
        },
        _ => false,
    }
}


/// The full transition relation of the package manager: for every
/// (phase, event) pair, exactly which step comes out, where the
/// machine stands afterwards, and what happens to the applied flag.
pub open spec fn pkg_next(
    g: Globals,
    cv: ConfigV,
    pre: Phase,
    a0: bool,
    ev: Event,
    post: Phase,
    a1: bool,
    st: Step,
) -> bool {
    match (pre, ev) {
        (Phase::Begin, Event::Start) => if a0 {
            st is Done && post is Begin && a1 == a0
        } else {
            match g.distro_hint {
                None => (st matches Step::Fail(e) && e is Config) && post is Halted && a1 == a0,
                Some(d) => (st matches Step::Do(Action::RunAll(v)) && view_cmds(v@)
                    == spec_pkg_plan(d, cv)) && post is Running && a1 == a0,
            }
        },
        (Phase::Running, Event::RanAll { failure }) => match failure {
            Some(f) => (st matches Step::Fail(e) && (e matches Error::CommandFailed {
                exit_code,
                stdout,
                stderr,
            } && exit_code == f.exit_code && stdout@ == f.stdout@ && stderr@ == f.stderr@))
                && post is Halted && a1 == a0,
            None => st is Done && post is Begin && a1,
        },
        _ => (st matches Step::Fail(e) && e is Invariant) && post is Halted && a1 == a0,
    }
}

/// The package manager: carries the effective globals of its recipe.
pub struct Context(pub Globals);

impl Plugin for Context {
    type Config = Config;

    type State = bool;

    open spec fn spec_done(s: &bool) -> bool {
        *s
    }

    fn done(s: &bool) -> (r: bool) {
        *s
    }
}

impl Context {
    /// One transition of the package-manager run.
    ///
    /// The contract is the transition relation `pkg_next`: a fresh
    /// start must request exactly the pinned command plan of the
    /// distribution, a successful plan must complete the run, and a
    /// failure must surface the failing command's own output.  On top
    /// of it: an applied run finishes immediately without effects, the
    /// flag never goes back, a missing distribution hint is rejected
    /// before anything runs, and the flag becomes true exactly when
    /// the plan reported success.
    pub fn step(&self, config: &Config, applied: &mut bool, phase: Phase, ev: Event) -> (r: (
        Phase,
        Step,
    ))
        ensures
            *old(applied) ==> *final(applied),
            phase is Begin && ev is Start && *old(applied) ==> r.1 is Done && r.0 is Begin
                && *final(applied) == *old(applied),
            phase is Begin && ev is Start && !*old(applied) && self.0.distro_hint is None ==> (r.1
                matches Step::Fail(e) && e is Config),
            (r.1 matches Step::Do(a) ==> pkg_action_allowed(self.0, config@, a)),
            *final(applied) && !*old(applied) ==> phase is Running && (ev matches Event::RanAll {
                failure: f,
            } && f is None),
            r.1 is Done ==> *final(applied),
            pkg_next(self.0, config@, phase, *old(applied), ev, r.0, *final(applied), r.1),
    {
        match (phase, ev) {
            (Phase::Begin, Event::Start) => {
                if *applied {
                    (Phase::Begin, Step::Done)
                } else {
                    match self.0.distro_hint {
                        None => (
                            Phase::Halted,
                            Step::Fail(
                                Error::Config {
                                    msg: String::from_str(
                                        "the package manager needs a distribution hint",
                                    ),
                                },
                            ),
                        ),
                        Some(d) => {
                            let cmds = pkg_plan(d, config);
                            (Phase::Running, Step::Do(Action::RunAll(cmds)))
                        },
                    }
                }
            },
            (Phase::Running, Event::RanAll { failure }) => match failure {
                Some(f) => (
                    Phase::Halted,
                    Step::Fail(
                        Error::CommandFailed {
                            exit_code: f.exit_code,
                            stdout: f.stdout,
                            stderr: f.stderr,
                        },
                    ),
                ),
                None => {
                    *applied = true;
                    (Phase::Begin, Step::Done)
                },
            },
            (Phase::Halted, _) => (
                Phase::Halted,
                Step::Fail(
                    Error::Invariant { msg: String::from_str("the package manager already failed") },
                ),
            ),
            (_, _) => (
                Phase::Halted,
                Step::Fail(Error::Invariant { msg: String::from_str("unexpected event") }),
            ),
        }
    }
}

} // verus!
