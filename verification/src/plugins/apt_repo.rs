//! The apt-repository sub-item of the system reconfigurator.

use vstd::prelude::*;
use crate::cloneutil::{clone_opt_string, clone_string_vec};
use crate::pathutil::{join_path, spec_join_path};
use crate::strutil::{join_with, spec_join_with};

verus! {

/// One repository list file to write: its name (or the default
/// `sources.list`), the archive base URL, the distribution and its
/// components, and whether an existing file may be overwritten.
#[derive(Debug)]
pub struct ConfigItem {
    pub overwrite: Option<bool>,
    pub name: Option<String>,
    pub base_url: String,
    pub distro: String,
    pub components: Vec<String>,
}

/// The mathematical value of a repository item.
#[verifier::ext_equal]
pub struct ConfigItemV {
    pub overwrite: Option<bool>,
    pub name: Option<Seq<char>>,
    pub base_url: Seq<char>,
    pub distro: Seq<char>,
    pub components: Seq<Seq<char>>,
}

impl View for ConfigItem {
    type V = ConfigItemV;

    open spec fn view(&self) -> ConfigItemV {
        ConfigItemV {
            overwrite: self.overwrite,
            name: self.name.deep_view(),
            base_url: self.base_url@,
            distro: self.distro@,
            components: self.components.deep_view(),
        }
    }
}

impl Clone for ConfigItem {
    fn clone(&self) -> (r: Self)
        ensures
            r@ == self@,
    {
        ConfigItem {
            overwrite: self.overwrite,
            name: clone_opt_string(&self.name),
            base_url: self.base_url.clone(),
            distro: self.distro.clone(),
            components: clone_string_vec(&self.components),
        }
    }
}

// ------------------------------------------------------------------
// Where a repository file goes and what it holds.
// ------------------------------------------------------------------

/// The file a repository entry is written to: a named file under
/// `sources.list.d`, or the default `sources.list`.
pub open spec fn spec_repo_file(name: Option<Seq<char>>) -> Seq<char> {
    match name {
        Some(n) => "sources.list.d/"@ + n + ".list"@,
        None => "sources.list"@,
    }
}

/// The full path of a repository file, under the chroot when one is
/// set, else under `/`.
pub open spec fn spec_repo_path(chroot: Option<Seq<char>>, name: Option<Seq<char>>) -> Seq<char> {
    spec_join_path(
        spec_join_path(
            match chroot {
                Some(c) => c,
                None => "/"@,
            },
            "etc/apt"@,
        ),
        spec_repo_file(name),
    )
}

/// The single `deb` line a repository entry denotes.
pub open spec fn spec_repo_content(it: ConfigItemV) -> Seq<char> {
    "deb "@ + it.base_url + " "@ + it.distro + " "@ + spec_join_with(it.components, " "@)
        + "\n"@
}

/// An existing file is rewritten only under an explicit
/// `overwrite: true`; a missing file is always written.
pub open spec fn spec_repo_write_needed(present: bool, overwrite: Option<bool>) -> bool {
    !present || overwrite == Some(true)
}

/// The path of a repository file, matching `spec_repo_path`.
pub fn repo_path(chroot: &Option<String>, name: &Option<String>) -> (r: String)
    ensures
        r@ == spec_repo_path(chroot.deep_view(), name.deep_view()),
{
    let base = match chroot {
        Some(c) => c.as_str(),
        None => "/",
    };
    let dir = join_path(base, "etc/apt");
    let file = match name {
        Some(n) => {
            let mut f = String::from_str("sources.list.d/");
            f.append(n.as_str());
            f.append(".list");
            f
        },
        None => String::from_str("sources.list"),
    };
    join_path(dir.as_str(), file.as_str())
}

/// The content of a repository file, matching `spec_repo_content`.
pub fn repo_content(it: &ConfigItem) -> (r: String)
    ensures
        r@ == spec_repo_content(it@),
{
    let mut s = String::from_str("deb ");
    s.append(it.base_url.as_str());
    s.append(" ");
    s.append(it.distro.as_str());
    s.append(" ");
    let joined = join_with(&it.components, " ");
    s.append(joined.as_str());
    s.append("\n");
    proof {
        assert(s@ =~~= spec_repo_content(it@));
    }
    s
}

/// The overwrite gate, matching `spec_repo_write_needed`.
pub fn repo_write_needed(present: bool, overwrite: Option<bool>) -> (r: bool)
    ensures
        r == spec_repo_write_needed(present, overwrite),
{
    !present || overwrite == Some(true)
}

/// The values of a repository-item list.
pub open spec fn view_items(s: Seq<ConfigItem>) -> Seq<ConfigItemV> {
    s.map_values(|x: ConfigItem| x@)
}

} // verus!
