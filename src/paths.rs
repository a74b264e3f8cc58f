//! Where the shell keeps its configuration, from the environment's values.
use vstd::prelude::*;

verus! {

/// `base` with the relative path `comp` appended: a `/` goes between them
/// unless `base` is empty or already ends in one.
pub open spec fn path_join(base: Seq<char>, comp: Seq<char>) -> Seq<char> {
    if base.len() == 0 || base.last() == '/' {
        base + comp
    } else {
        base + seq!['/'] + comp
    }
}

/// The configuration directory: `$XDG_CONFIG_HOME/jb-shell` when that is
/// set, else `$HOME/.config/jb-shell`, with `.` standing in for an unset
/// home.
pub open spec fn config_dir_of(xdg_config_home: Option<String>, home: Option<String>) -> Seq<char> {
    let base = match xdg_config_home {
        Some(x) => x@,
        None => path_join(
            match home {
                Some(h) => h@,
                None => "."@,
            },
            ".config"@,
        ),
    };
    path_join(base, "jb-shell"@)
}

fn join(base: String, comp: &str) -> (r: String)
    ensures
        r@ == path_join(base@, comp@),
{
    let n = base.as_str().unicode_len();
    if n == 0 || base.as_str().get_char(n - 1) == '/' {
        base.concat(comp)
    } else {
        proof {
            reveal_strlit("/");
        }
        let with_sep = base.concat("/");
        with_sep.concat(comp)
    }
}

/// The configuration directory, given the values of `XDG_CONFIG_HOME` and
/// `HOME` (`None` where a variable is unset).
pub fn config_dir(xdg_config_home: Option<String>, home: Option<String>) -> (r: String)
    ensures
        r@ == config_dir_of(xdg_config_home, home),
{
    let base = match xdg_config_home {
        Some(x) => x,
        None => {
            let h = match home {
                Some(h) => h,
                None => String::from_str("."),
            };
            join(h, ".config")
        },
    };
    join(base, "jb-shell")
}

/// The file that holds the calendar's OAuth client credentials.
pub fn credentials_path(xdg_config_home: Option<String>, home: Option<String>) -> (r: String)
    ensures
        r@ == path_join(config_dir_of(xdg_config_home, home), "google-credentials.json"@),
{
    join(config_dir(xdg_config_home, home), "google-credentials.json")
}

} // verus!
