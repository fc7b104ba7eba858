//! Where `tix` keeps its files.

use vstd::prelude::*;

use crate::commands::doctor::str_opt;
use crate::commands::init::{join_path, path_join};

verus! {

/// The user's home directory, from `dirs::home_dir` (as text). It depends on the
/// environment and the platform, so nothing is stated of it.
#[verifier::external_body]
fn home_dir() -> Option<String> {
    dirs::home_dir().map(|p| p.to_string_lossy().into_owned())
}

/// The directory of `tix`'s own files: `$XDG_CONFIG_HOME/tix` when that variable
/// is set and not empty, else `~/.config/tix` when the home directory is known.
pub open spec fn tix_dir_from(xdg: Option<Seq<char>>, home: Option<Seq<char>>) -> Option<Seq<char>> {
    if xdg is Some && xdg->0.len() > 0 {
        Some(path_join(xdg->0, "tix"@))
    } else {
        match home {
            Some(h) => Some(path_join(path_join(h, ".config"@), "tix"@)),
            None => None,
        }
    }
}

/// The directory of `tix`'s own files, given `$XDG_CONFIG_HOME` and the home
/// directory.
pub fn config_dir_from(xdg: Option<&str>, home: Option<&str>) -> (r: Option<String>)
    ensures
        match tix_dir_from(str_opt(xdg), str_opt(home)) {
            Some(d) => r matches Some(x) && x@ == d,
            None => r is None,
        },
{
    match xdg {
        Some(x) if x.unicode_len() > 0 => Some(join_path(x, "tix")),
        _ => match home {
            Some(h) => {
                let c = join_path(h, ".config");
                Some(join_path(c.as_str(), "tix"))
            },
            None => None,
        },
    }
}

/// The directory of `tix`'s own files, given `$XDG_CONFIG_HOME`; the home directory
/// is asked for only when that variable is unset or empty.
pub fn tix_config_dir(xdg: Option<&str>) -> (r: Option<String>)
    ensures
        str_opt(xdg) is Some && str_opt(xdg)->0.len() > 0 ==> (r matches Some(d) && d@ == path_join(str_opt(xdg)->0, "tix"@)),
        !(str_opt(xdg) is Some && str_opt(xdg)->0.len() > 0) ==> (r is None || exists|h: Seq<char>|
            #![trigger path_join(h, ".config"@)]
            r matches Some(d) && d@ == path_join(path_join(h, ".config"@), "tix"@)),
{
    match xdg {
        Some(x) if x.unicode_len() > 0 => config_dir_from(xdg, None),
        _ => {
            let home = home_dir();
            match home {
                Some(h) => {
                    let r = config_dir_from(None, Some(h.as_str()));
                    assert(path_join(h@, ".config"@) == path_join(h@, ".config"@));
                    r
                },
                None => None,
            }
        },
    }
}

/// The global config file in `tix`'s directory `dir`: `dir/config.toml`.
pub fn config_file_in(dir: &str) -> (p: String)
    ensures
        p@ == path_join(dir@, "config.toml"@),
{
    join_path(dir, "config.toml")
}

/// The global config file that configuration is loaded from and that `tix init`,
/// `tix protect` and `tix config set` write: `config.toml` in `tix`'s directory
/// (`$XDG_CONFIG_HOME/tix` when that variable is set and not empty, else
/// `~/.config/tix`); `None` when the home directory is needed and unknown.
pub fn global_config_path(xdg: Option<&str>) -> (r: Option<String>)
    ensures
        str_opt(xdg) is Some && str_opt(xdg)->0.len() > 0 ==> (r matches Some(p) && p@ == path_join(
            path_join(str_opt(xdg)->0, "tix"@),
            "config.toml"@,
        )),
        !(str_opt(xdg) is Some && str_opt(xdg)->0.len() > 0) ==> (r is None || exists|h: Seq<char>|
            #![trigger path_join(h, ".config"@)]
            r matches Some(p) && p@ == path_join(path_join(path_join(h, ".config"@), "tix"@), "config.toml"@)),
{
    match tix_config_dir(xdg) {
        Some(d) => Some(config_file_in(d.as_str())),
        None => None,
    }
}

/// The repo's config file: `.tix.toml` at the root of the work tree.
pub fn repo_config_path(repo_root: &str) -> (p: String)
    ensures
        p@ == path_join(repo_root@, ".tix.toml"@),
{
    join_path(repo_root, ".tix.toml")
}

/// The state file of a clone: `tix/state.json` in its git directory.
pub fn state_path(git_dir: &str) -> (p: String)
    ensures
        p@ == path_join(path_join(git_dir@, "tix"@), "state.json"@),
{
    let t = join_path(git_dir, "tix");
    join_path(t.as_str(), "state.json")
}

} // verus!
