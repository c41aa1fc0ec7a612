//! The user sub-item of the system reconfigurator.

use vstd::prelude::*;
use crate::cloneutil::{clone_opt_string, clone_opt_string_vec};
use crate::effect::{view_cmds, CmdSpec, CmdSpecV};
use crate::strutil::{push_str, str_eq};

verus! {

/// One account to create: a name, an optional password, and optional
/// supplementary groups.
#[derive(Debug)]
pub struct ConfigItem {
    pub name: String,
    pub password: Option<String>,
    pub groups: Option<Vec<String>>,
}

/// The mathematical value of a user item.
#[verifier::ext_equal]
pub struct ConfigItemV {
    pub name: Seq<char>,
    pub password: Option<Seq<char>>,
    pub groups: Option<Seq<Seq<char>>>,
}

impl View for ConfigItem {
    type V = ConfigItemV;

    open spec fn view(&self) -> ConfigItemV {
        ConfigItemV {
            name: self.name@,
            password: self.password.deep_view(),
            groups: self.groups.deep_view(),
        }
    }
}

impl Clone for ConfigItem {
    fn clone(&self) -> (r: Self)
        ensures
            r@ == self@,
    {
        ConfigItem {
            name: self.name.clone(),
            password: clone_opt_string(&self.password),
            groups: clone_opt_string_vec(&self.groups),
        }
    }
}

// ------------------------------------------------------------------
// The commands a user list turns into.
// ------------------------------------------------------------------

/// One `-G <group>` pair per supplementary group.
pub open spec fn spec_group_flags(gs: Seq<Seq<char>>) -> Seq<Seq<char>>
    decreases gs.len(),
{
    if gs.len() == 0 {
        Seq::empty()
    } else {
        seq!["-G"@, gs[0]] + spec_group_flags(gs.skip(1))
    }
}

/// The pinned useradd invocation: create the home directory, set the
/// default shell, and add the supplementary groups.
pub open spec fn spec_useradd_argv(it: ConfigItemV) -> Seq<Seq<char>> {
    seq!["useradd"@, it.name, "-m"@, "-s"@, "/bin/bash"@] + (match it.groups {
        Some(gs) => spec_group_flags(gs),
        None => Seq::empty(),
    })
}

/// A useradd command, run inside the chroot when one is set.
pub open spec fn spec_useradd_cmd(it: ConfigItemV, chroot: Option<Seq<char>>) -> CmdSpecV {
    CmdSpecV { argv: spec_useradd_argv(it), stdin: None, chroot }
}

/// One useradd per account, in order, skipping `root`.
pub open spec fn spec_useradds(items: Seq<ConfigItemV>, chroot: Option<Seq<char>>) -> Seq<CmdSpecV>
    decreases items.len(),
{
    if items.len() == 0 {
        Seq::empty()
    } else {
        (if items[0].name == "root"@ {
            Seq::<CmdSpecV>::empty()
        } else {
            seq![spec_useradd_cmd(items[0], chroot)]
        }) + spec_useradds(items.skip(1), chroot)
    }
}

/// One `name:password` line per account that has a password.
pub open spec fn spec_passwd_lines(items: Seq<ConfigItemV>) -> Seq<Seq<char>>
    decreases items.len(),
{
    if items.len() == 0 {
        Seq::empty()
    } else {
        (match items[0].password {
            Some(p) => seq![items[0].name + ":"@ + p],
            None => Seq::<Seq<char>>::empty(),
        }) + spec_passwd_lines(items.skip(1))
    }
}

/// The chpasswd stdin payload: every line followed by a newline.
pub open spec fn spec_stdin_of(lines: Seq<Seq<char>>) -> Seq<char>
    decreases lines.len(),
{
    if lines.len() == 0 {
        Seq::empty()
    } else {
        lines[0] + seq!['\n'] + spec_stdin_of(lines.skip(1))
    }
}

/// The single chpasswd invocation: `--root` points at the chroot when
/// one is set, and the passwords arrive on stdin.
pub open spec fn spec_chpasswd_cmd(chroot: Option<Seq<char>>, stdin: Seq<char>) -> CmdSpecV {
    CmdSpecV {
        argv: seq!["chpasswd"@] + (match chroot {
            Some(c) => seq!["--root"@, c],
            None => Seq::<Seq<char>>::empty(),
        }),
        stdin: Some(stdin),
        chroot: None,
    }
}

/// Everything a user list runs: the useradd sequence, then one
/// chpasswd batch when any account carries a password.
pub open spec fn spec_user_cmds(items: Seq<ConfigItemV>, chroot: Option<Seq<char>>) -> Seq<
    CmdSpecV,
> {
    spec_useradds(items, chroot) + (if spec_passwd_lines(items).len() == 0 {
        Seq::<CmdSpecV>::empty()
    } else {
        seq![spec_chpasswd_cmd(chroot, spec_stdin_of(spec_passwd_lines(items)))]
    })
}

/// The values of a user-item list.
pub open spec fn view_items(s: Seq<ConfigItem>) -> Seq<ConfigItemV> {
    s.map_values(|x: ConfigItem| x@)
}

fn useradd_cmd(it: &ConfigItem, chroot: &Option<String>) -> (c: CmdSpec)
    ensures
        c@ == spec_useradd_cmd(it@, chroot.deep_view()),
{
    let mut a: Vec<String> = Vec::new();
    push_str(&mut a, "useradd");
    push_str(&mut a, it.name.as_str());
    push_str(&mut a, "-m");
    push_str(&mut a, "-s");
    push_str(&mut a, "/bin/bash");
    let ghost base = a.deep_view();
    match &it.groups {
        Some(gs) => {
            let mut i: usize = 0;
            proof {
                assert(gs.deep_view().skip(0) =~~= gs.deep_view());
                assert(base + spec_group_flags(gs.deep_view().skip(0)) =~~= base
                    + spec_group_flags(gs.deep_view()));
            }
            while i < gs.len()
                invariant
                    0 <= i <= gs.len(),
                    a.deep_view() + spec_group_flags(gs.deep_view().skip(i as int)) == base
                        + spec_group_flags(gs.deep_view()),
                decreases gs.len() - i,
            {
                let ghost pre = a.deep_view();
                proof {
                    assert(gs.deep_view().skip(i as int)[0] == gs.deep_view()[i as int]);
                    assert(gs.deep_view().skip(i as int).skip(1) =~~= gs.deep_view().skip(i + 1));
                }
                push_str(&mut a, "-G");
                push_str(&mut a, gs[i].as_str());
                proof {
                    assert(a.deep_view() =~~= pre + seq!["-G"@, gs.deep_view()[i as int]]);
                    assert(pre + (seq!["-G"@, gs.deep_view()[i as int]] + spec_group_flags(
                        gs.deep_view().skip(i + 1),
                    )) =~~= a.deep_view() + spec_group_flags(gs.deep_view().skip(i + 1)));
                }
                i += 1;
            }
            proof {
                assert(spec_group_flags(gs.deep_view().skip(gs.len() as int))
                    =~~= Seq::<Seq<char>>::empty());
                assert(a.deep_view() + Seq::<Seq<char>>::empty() =~~= a.deep_view());
                assert(a.deep_view() =~~= spec_useradd_argv(it@));
            }
        },
        None => {
            proof {
                assert(a.deep_view() =~~= spec_useradd_argv(it@));
            }
        },
    }
    let c = CmdSpec { argv: a, stdin: None, chroot: crate::cloneutil::clone_opt_string(chroot) };
    proof {
        assert(c@ =~~= spec_useradd_cmd(it@, chroot.deep_view()));
    }
    c
}

/// The command list of a user sub-item, matching `spec_user_cmds`.
pub fn user_cmds(items: &Vec<ConfigItem>, chroot: &Option<String>) -> (r: Vec<CmdSpec>)
    ensures
        view_cmds(r@) == spec_user_cmds(view_items(items@), chroot.deep_view()),
{
    let ghost ivs = view_items(items@);
    let ghost cv = chroot.deep_view();
    let mut cmds: Vec<CmdSpec> = Vec::new();
    let mut i: usize = 0;
    proof {
        assert(ivs.skip(0) =~~= ivs);
        assert(view_cmds(cmds@) =~~= Seq::<CmdSpecV>::empty());
        assert(Seq::<CmdSpecV>::empty() + spec_useradds(ivs, cv) =~~= spec_useradds(ivs, cv));
    }
    while i < items.len()
        invariant
            0 <= i <= items.len(),
            ivs == view_items(items@),
            cv == chroot.deep_view(),
            spec_useradds(ivs, cv) == view_cmds(cmds@) + spec_useradds(ivs.skip(i as int), cv),
        decreases items.len() - i,
    {
        let ghost pre = view_cmds(cmds@);
        proof {
            assert(ivs.skip(i as int)[0] == ivs[i as int]);
            assert(ivs.skip(i as int).skip(1) =~~= ivs.skip(i + 1));
        }
        if !str_eq(items[i].name.as_str(), "root") {
            let c = useradd_cmd(&items[i], chroot);
            cmds.push(c);
            proof {
                assert(view_cmds(cmds@) =~~= pre.push(spec_useradd_cmd(ivs[i as int], cv)));
                assert(pre + (seq![spec_useradd_cmd(ivs[i as int], cv)] + spec_useradds(
                    ivs.skip(i + 1),
                    cv,
                )) =~~= view_cmds(cmds@) + spec_useradds(ivs.skip(i + 1), cv));
            }
        } else {
            proof {
                assert(pre + (Seq::<CmdSpecV>::empty() + spec_useradds(ivs.skip(i + 1), cv))
                    =~~= pre + spec_useradds(ivs.skip(i + 1), cv));
            }
        }
        i += 1;
    }
    proof {
        assert(ivs.skip(items.len() as int) =~~= Seq::<ConfigItemV>::empty());
        assert(view_cmds(cmds@) + Seq::<CmdSpecV>::empty() =~~= view_cmds(cmds@));
    }
    // collect the password lines and feed them to one chpasswd batch
    let mut stdin = String::new();
    let mut any = false;
    let mut i: usize = 0;
    proof {
        assert(spec_stdin_of(spec_passwd_lines(ivs.skip(0))) =~~= spec_stdin_of(
            spec_passwd_lines(ivs),
        ));
        assert(stdin@ + spec_stdin_of(spec_passwd_lines(ivs)) =~~= spec_stdin_of(
            spec_passwd_lines(ivs),
        ));
    }
    while i < items.len()
        invariant
            0 <= i <= items.len(),
            ivs == view_items(items@),
            spec_stdin_of(spec_passwd_lines(ivs)) == stdin@ + spec_stdin_of(
                spec_passwd_lines(ivs.skip(i as int)),
            ),
            any == (spec_passwd_lines(ivs.take(i as int)).len() > 0),
        decreases items.len() - i,
    {
        let ghost pre = stdin@;
        proof {
            assert(ivs.skip(i as int)[0] == ivs[i as int]);
            assert(ivs.skip(i as int).skip(1) =~~= ivs.skip(i + 1));
            assert(ivs.take(i + 1).drop_last() =~~= ivs.take(i as int));
            assert(ivs.take(i + 1).last() == ivs[i as int]);
            lemma_passwd_lines_snoc(ivs.take(i + 1));
        }
        match &items[i].password {
            Some(p) => {
                stdin.append(items[i].name.as_str());
                stdin.append(":");
                stdin.append(p.as_str());
                stdin.append("\n");
                any = true;
                proof {
                    reveal_strlit(":");
                    reveal_strlit("\n");
                    assert(stdin@ =~~= pre + (ivs[i as int].name + ":"@ + ivs[
                        i as int
                    ].password->0) + seq!['\n']);
                    assert(spec_passwd_lines(ivs.skip(i as int)) == seq![ivs[i as int].name + ":"@
                        + ivs[i as int].password->0] + spec_passwd_lines(ivs.skip(i + 1)));
                    let lines_i = spec_passwd_lines(ivs.skip(i as int));
                    assert(lines_i[0] == ivs[i as int].name + ":"@ + ivs[i as int].password->0);
                    assert(lines_i.skip(1) =~~= spec_passwd_lines(ivs.skip(i + 1)));
                    assert(spec_stdin_of(lines_i) == lines_i[0] + seq!['\n'] + spec_stdin_of(
                        lines_i.skip(1),
                    ));
                    assert(spec_stdin_of(spec_passwd_lines(ivs.skip(i as int))) =~~= (ivs[
                        i as int
                    ].name + ":"@ + ivs[i as int].password->0) + seq!['\n'] + spec_stdin_of(
                        spec_passwd_lines(ivs.skip(i + 1)),
                    ));
                    assert(pre + ((ivs[i as int].name + ":"@ + ivs[i as int].password->0)
                        + seq!['\n'] + spec_stdin_of(spec_passwd_lines(ivs.skip(i + 1))))
                        =~~= stdin@ + spec_stdin_of(spec_passwd_lines(ivs.skip(i + 1))));
                }
            },
            None => {
                proof {
                    assert(spec_passwd_lines(ivs.skip(i as int)) =~~= spec_passwd_lines(
                        ivs.skip(i + 1),
                    ));
                }
            },
        }
        i += 1;
    }
    proof {
        assert(ivs.take(items.len() as int) =~~= ivs);
        assert(ivs.skip(items.len() as int) =~~= Seq::<ConfigItemV>::empty());
        assert(stdin@ + Seq::<char>::empty() =~~= stdin@);
        assert(stdin@ == spec_stdin_of(spec_passwd_lines(ivs)));
    }
    if any {
        let mut a: Vec<String> = Vec::new();
        push_str(&mut a, "chpasswd");
        match chroot {
            Some(c) => {
                push_str(&mut a, "--root");
                push_str(&mut a, c.as_str());
            },
            None => {},
        }
        let ghost pre = view_cmds(cmds@);
        let cmd = CmdSpec { argv: a, stdin: Some(stdin), chroot: None };
        proof {
            assert(cmd@ =~~= spec_chpasswd_cmd(cv, spec_stdin_of(spec_passwd_lines(ivs))));
            lemma_passwd_lines_nonempty(ivs);
        }
        cmds.push(cmd);
        proof {
            assert(view_cmds(cmds@) =~~= pre.push(
                spec_chpasswd_cmd(cv, spec_stdin_of(spec_passwd_lines(ivs))),
            ));
            assert(view_cmds(cmds@) =~~= spec_user_cmds(ivs, cv));
        }
    } else {
        proof {
            lemma_passwd_lines_empty(ivs);
            assert(view_cmds(cmds@) + Seq::<CmdSpecV>::empty() =~~= view_cmds(cmds@));
            assert(view_cmds(cmds@) =~~= spec_user_cmds(ivs, cv));
        }
    }
    cmds
}

/// One more item appends its password line, if any.
proof fn lemma_passwd_lines_snoc(items: Seq<ConfigItemV>)
    requires
        items.len() > 0,
    ensures
        spec_passwd_lines(items) == spec_passwd_lines(items.drop_last()) + (match items.last(
        ).password {
            Some(p) => seq![items.last().name + ":"@ + p],
            None => Seq::<Seq<char>>::empty(),
        }),
    decreases items.len(),
{
    let tail = (match items.last().password {
        Some(p) => seq![items.last().name + ":"@ + p],
        None => Seq::<Seq<char>>::empty(),
    });
    if items.len() == 1 {
        assert(items.drop_last() =~~= Seq::<ConfigItemV>::empty());
        assert(items.skip(1) =~~= Seq::<ConfigItemV>::empty());
        assert(spec_passwd_lines(items) =~~= tail) by {
            assert(spec_passwd_lines(items.skip(1)) == Seq::<Seq<char>>::empty());
        }
        assert(spec_passwd_lines(items.drop_last()) + tail =~~= tail);
    } else {
        lemma_passwd_lines_snoc(items.skip(1));
        assert(items.skip(1).drop_last() =~~= items.drop_last().skip(1));
        assert(items.skip(1).last() == items.last());
        let head = (match items[0].password {
            Some(p) => seq![items[0].name + ":"@ + p],
            None => Seq::<Seq<char>>::empty(),
        });
        assert(items.drop_last()[0] == items[0]);
        assert(items.drop_last().len() > 0);
        assert(spec_passwd_lines(items.drop_last()) == head + spec_passwd_lines(
            items.drop_last().skip(1),
        ));
        assert(head + (spec_passwd_lines(items.drop_last().skip(1)) + tail) =~~= (head
            + spec_passwd_lines(items.drop_last().skip(1))) + tail);
    }
}

/// A password-line list grows monotonically with a prefix.
proof fn lemma_passwd_lines_empty(items: Seq<ConfigItemV>)
    requires
        spec_passwd_lines(items.take(items.len() as int)).len() == 0,
    ensures
        spec_passwd_lines(items).len() == 0,
{
    assert(items.take(items.len() as int) =~~= items);
}

/// A non-empty prefix keeps the whole list non-empty.
proof fn lemma_passwd_lines_nonempty(items: Seq<ConfigItemV>)
    ensures
        spec_passwd_lines(items.take(items.len() as int)).len() > 0 ==> spec_passwd_lines(
            items,
        ).len() > 0,
{
    assert(items.take(items.len() as int) =~~= items);
}

} // verus!
