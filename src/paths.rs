use vstd::prelude::*;

verus! {

/// The operating-system families whose conventions decide where the
/// configuration file lives.
#[derive(Clone, Copy, Debug, PartialEq, Eq, Structural)]
pub enum OsFamily {
    Windows,
    MacOs,
    /// Linux and every other Unix-like system.
    Unix,
}

/// Whether `c` separates path components on `os`.
pub open spec fn is_separator(os: OsFamily, c: char) -> bool {
    match os {
        OsFamily::Windows => c == '\\' || c == '/',
        _ => c == '/',
    }
}

/// The separator placed between two joined path components on `os`.
pub open spec fn separator(os: OsFamily) -> char {
    match os {
        OsFamily::Windows => '\\',
        _ => '/',
    }
}

/// `part` appended to `base` as a further path component: a separator is put
/// between them unless `base` is empty or already ends with one.
pub open spec fn joined(os: OsFamily, base: Seq<char>, part: Seq<char>) -> Seq<char> {
    if base.len() == 0 {
        part
    } else if is_separator(os, base.last()) {
        base + part
    } else {
        base + seq![separator(os)] + part
    }
}

/// The name of the environment variable that gives the directory under which
/// the configuration lives.
pub open spec fn config_base_var_spec(os: OsFamily) -> Seq<char> {
    match os {
        OsFamily::Windows => "APPDATA"@,
        _ => "HOME"@,
    }
}

/// The name of the environment variable that gives the user's home directory.
pub open spec fn home_var_spec(os: OsFamily) -> Seq<char> {
    match os {
        OsFamily::Windows => "USERPROFILE"@,
        _ => "HOME"@,
    }
}

/// The directory used when the environment variable is not set.
pub open spec fn fallback_dir_spec(os: OsFamily) -> Seq<char> {
    match os {
        OsFamily::Windows => "C:\\Users\\Public"@,
        OsFamily::MacOs => "/Users/Shared"@,
        OsFamily::Unix => "/tmp"@,
    }
}

/// Where the configuration file of `app` lives, below the directory `base`.
pub open spec fn config_path_spec(os: OsFamily, base: Seq<char>, app: Seq<char>) -> Seq<char> {
    match os {
        OsFamily::Windows => joined(os, joined(os, base, app), "config.toml"@),
        OsFamily::MacOs => joined(
            os,
            joined(
                os,
                joined(os, joined(os, base, "Library"@), "Application Support"@),
                app,
            ),
            "config.toml"@,
        ),
        OsFamily::Unix => joined(os, base, "."@ + app + "-config.toml"@),
    }
}

/// The value of a variable when it is set, `fallback` when it is not.
pub open spec fn or_fallback(value: Option<String>, fallback: Seq<char>) -> Seq<char> {
    match value {
        Some(v) => v@,
        None => fallback,
    }
}

/// The environment variable that names the configuration's base directory.
pub fn config_base_var(os: OsFamily) -> (r: &'static str)
    ensures
        r@ == config_base_var_spec(os),
{
    match os {
        OsFamily::Windows => "APPDATA",
        _ => "HOME",
    }
}

/// The environment variable that names the user's home directory.
pub fn home_var(os: OsFamily) -> (r: &'static str)
    ensures
        r@ == home_var_spec(os),
{
    match os {
        OsFamily::Windows => "USERPROFILE",
        _ => "HOME",
    }
}

/// The directory that stands in for an unset environment variable.
pub fn fallback_dir(os: OsFamily) -> (r: &'static str)
    ensures
        r@ == fallback_dir_spec(os),
{
    match os {
        OsFamily::Windows => "C:\\Users\\Public",
        OsFamily::MacOs => "/Users/Shared",
        OsFamily::Unix => "/tmp",
    }
}

/// The looked-up value of a variable, or `fallback` when it was absent.
pub fn env_or_default(value: Option<String>, fallback: &str) -> (r: String)
    ensures
        r@ == or_fallback(value, fallback@),
{
    match value {
        Some(v) => v,
        None => String::from_str(fallback),
    }
}

fn separator_str(os: OsFamily) -> (r: &'static str)
    ensures
        r@ == seq![separator(os)],
{
    match os {
        OsFamily::Windows => {
            proof {
                reveal_strlit("\\");
            }
            "\\"
        },
        _ => {
            proof {
                reveal_strlit("/");
            }
            "/"
        },
    }
}

/// Appends the path component `part` to `base`.
pub fn join_path(os: OsFamily, base: &str, part: &str) -> (r: String)
    ensures
        r@ == joined(os, base@, part@),
{
    let n = base.unicode_len();
    let mut r = String::from_str(base);
    if n > 0 {
        let c = base.get_char(n - 1);
        let ends_with_separator = match os {
            OsFamily::Windows => c == '\\' || c == '/',
            _ => c == '/',
        };
        if !ends_with_separator {
            r.append(separator_str(os));
        }
    }
    r.append(part);
    r
}

/// The configuration file of `app_name` below the base directory `base`.
pub fn config_file_path(os: OsFamily, base: &str, app_name: &str) -> (r: String)
    ensures
        r@ == config_path_spec(os, base@, app_name@),
{
    match os {
        OsFamily::Windows => {
            let dir = join_path(os, base, app_name);
            join_path(os, dir.as_str(), "config.toml")
        },
        OsFamily::MacOs => {
            let library = join_path(os, base, "Library");
            let support = join_path(os, library.as_str(), "Application Support");
            let dir = join_path(os, support.as_str(), app_name);
            join_path(os, dir.as_str(), "config.toml")
        },
        OsFamily::Unix => {
            let mut name = String::from_str(".");
            name.append(app_name);
            name.append("-config.toml");
            join_path(os, base, name.as_str())
        },
    }
}

/// The configuration file of `app_name`, given the value of the variable that
/// `config_base_var` names (`None` when it is unset).
pub fn resolve_config_path(os: OsFamily, base_value: Option<String>, app_name: &str) -> (r: String)
    ensures
        r@ == config_path_spec(os, or_fallback(base_value, fallback_dir_spec(os)), app_name@),
{
    let base = env_or_default(base_value, fallback_dir(os));
    config_file_path(os, base.as_str(), app_name)
}

/// The user's home directory, given the value of the variable that `home_var`
/// names (`None` when it is unset).
pub fn resolve_home_dir(os: OsFamily, home_value: Option<String>) -> (r: String)
    ensures
        r@ == or_fallback(home_value, fallback_dir_spec(os)),
{
    env_or_default(home_value, fallback_dir(os))
}

} // verus!
