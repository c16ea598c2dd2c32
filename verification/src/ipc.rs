//! Where the Unix socket between the server and its clients lives.
//!
//! Paths are resolved here from the values of `XDG_CACHE_HOME` and `HOME`,
//! so the server and every client agree on one location.

use vstd::prelude::*;

verus! {

pub const SOCKET_FILE_NAME: &'static str = "glyphlow.socket";

/// `part` joined onto `base` as a relative path component: a separator is
/// put between them unless `base` is empty or already ends in one.
pub open spec fn path_join(base: Seq<char>, part: Seq<char>) -> Seq<char> {
    if base.len() == 0 || base.last() == '/' {
        base + part
    } else {
        base + seq!['/'] + part
    }
}

/// The cache directory for the given `XDG_CACHE_HOME` and `HOME`:
/// `$XDG_CACHE_HOME/glyphlow`, else `$HOME/.cache/glyphlow`, else none.
pub open spec fn cache_dir_spec(xdg: Option<Seq<char>>, home: Option<Seq<char>>) -> Option<
    Seq<char>,
> {
    match xdg {
        Some(x) => Some(path_join(x, "glyphlow"@)),
        None => match home {
            Some(h) => Some(path_join(path_join(h, ".cache"@), "glyphlow"@)),
            None => None,
        },
    }
}

pub open spec fn opt_view(o: Option<&str>) -> Option<Seq<char>> {
    match o {
        Some(s) => Some(s@),
        None => None,
    }
}

pub open spec fn opt_string_view(o: Option<String>) -> Option<Seq<char>> {
    match o {
        Some(s) => Some(s@),
        None => None,
    }
}

/// `base` with the relative component `part` appended, as `Path::join` does it.
pub fn join_path(base: &str, part: &str) -> (r: String)
    ensures
        r@ == path_join(base@, part@),
{
    let mut out = String::from_str(base);
    let n = base.unicode_len();
    if n > 0 && base.get_char(n - 1) != '/' {
        out.push('/');
    }
    out.append(part);
    proof {
        if n > 0 {
            assert(base@.last() == base@[n - 1]);
        }
    }
    out
}

/// The directory that holds the socket, from the values of `XDG_CACHE_HOME`
/// and `HOME` (each `None` when unset). `XDG_CACHE_HOME` wins over `HOME`.
pub fn cache_dir_from(xdg_cache_home: Option<&str>, home: Option<&str>) -> (r: Option<String>)
    ensures
        opt_string_view(r) == cache_dir_spec(opt_view(xdg_cache_home), opt_view(home)),
{
    proof {
        reveal_strlit("glyphlow");
        reveal_strlit(".cache");
    }
    match xdg_cache_home {
        Some(x) => Some(join_path(x, "glyphlow")),
        None => match home {
            Some(h) => {
                let cache = join_path(h, ".cache");
                Some(join_path(cache.as_str(), "glyphlow"))
            },
            None => None,
        },
    }
}

/// Path of the Unix socket, or `None` when neither `XDG_CACHE_HOME` nor
/// `HOME` is set.
pub fn socket_path(xdg_cache_home: Option<&str>, home: Option<&str>) -> (r: Option<String>)
    ensures
        opt_string_view(r) == match cache_dir_spec(opt_view(xdg_cache_home), opt_view(home)) {
            Some(d) => Some(path_join(d, SOCKET_FILE_NAME@)),
            None => None,
        },
{
    match cache_dir_from(xdg_cache_home, home) {
        Some(dir) => Some(join_path(dir.as_str(), SOCKET_FILE_NAME)),
        None => None,
    }
}

/// The message when no configuration directory can be found.
pub const MISSING_CONFIG_HOME: &'static str = "Need environment variable `XDG_CONFIG_HOME` or `HOME` to load a configurtion file.";

/// The configuration directory for the given `XDG_CONFIG_HOME` and `HOME`:
/// `$XDG_CONFIG_HOME/glyphlow`, else `$HOME/.config/glyphlow`, else none.
pub open spec fn config_dir_spec(xdg: Option<Seq<char>>, home: Option<Seq<char>>) -> Option<Seq<char>> {
    match xdg {
        Some(x) => Some(path_join(x, "glyphlow"@)),
        None => match home {
            Some(h) => Some(path_join(path_join(h, ".config"@), "glyphlow"@)),
            None => None,
        },
    }
}

/// The directory holding the configuration file, from the values of
/// `XDG_CONFIG_HOME` and `HOME`; fails when neither is set.
pub fn config_dir_from(xdg_config_home: Option<&str>, home: Option<&str>) -> (r: Result<String, String>)
    ensures
        match config_dir_spec(opt_view(xdg_config_home), opt_view(home)) {
            Some(d) => r matches Ok(p) && p@ == d,
            None => r matches Err(m) && m@ == MISSING_CONFIG_HOME@,
        },
{
    proof {
        reveal_strlit("glyphlow");
        reveal_strlit(".config");
    }
    match xdg_config_home {
        Some(x) => Ok(join_path(x, "glyphlow")),
        None => match home {
            Some(h) => {
                let base = join_path(h, ".config");
                Ok(join_path(base.as_str(), "glyphlow"))
            },
            None => Err(String::from_str(MISSING_CONFIG_HOME)),
        },
    }
}

/// The configuration file inside the configuration directory.
pub fn config_file_in(dir: &str) -> (r: String)
    ensures
        r@ == path_join(dir@, "config.toml"@),
{
    join_path(dir, "config.toml")
}

} // verus!
