//! Where the socket and the per-device locks live on this machine.
//!
//! The daemon binds where this says and the client connects where this says,
//! from the same functions, so the two cannot drift onto different paths. The
//! values of the environment variables are handed in.

use vstd::prelude::*;

verus! {

/// Environment variable that overrides the socket path.
pub const SOCKET_PATH_ENV: &'static str = "KORI_SOCKET";

/// Socket file name inside the per-user runtime directory.
pub const SOCKET_FILE_NAME: &'static str = "kori.sock";

/// Environment variable that overrides the runtime directory holding the
/// socket and the per-device locks.
pub const RUNTIME_DIR_ENV: &'static str = "KORI_RUNTIME_DIR";

/// Directory name both processes append to a base runtime directory.
pub const APP_DIR: &'static str = "kori";

/// A relative path under a base: one separator between the two, none when the
/// base is empty or already ends with one.
pub open spec fn joined(base: Seq<char>, relative: Seq<char>) -> Seq<char> {
    if base.len() == 0 || base.last() == '/' {
        base + relative
    } else {
        base + "/"@ + relative
    }
}

/// A relative path under a base.
pub fn join(base: &str, relative: &str) -> (path: String)
    ensures
        path@ == joined(base@, relative@),
{
    let mut path: String = base.to_owned();
    let length: usize = base.unicode_len();
    if length > 0 && base.get_char(length - 1) != '/' {
        path.append("/");
    }
    path.append(relative);
    assert(path@ =~= joined(base@, relative@));
    path
}

/// The runtime directory for explicit inputs: the override, then the session's
/// own directory, then the cache of the user's home, then that of the current
/// directory.
pub open spec fn runtime_path(
    override_dir: Option<Seq<char>>,
    xdg_runtime_dir: Option<Seq<char>>,
    home: Option<Seq<char>>,
) -> Seq<char> {
    match (override_dir, xdg_runtime_dir) {
        (Some(path), _) => path,
        (None, Some(path)) => joined(path, APP_DIR@),
        (None, None) => joined(
            joined(
                match home {
                    Some(home) => home,
                    None => "."@,
                },
                ".cache"@,
            ),
            APP_DIR@,
        ),
    }
}

/// The characters of a path that may be missing.
pub open spec fn shown(path: Option<&str>) -> Option<Seq<char>> {
    match path {
        Some(path) => Some(path@),
        None => None,
    }
}

/// A variable that is set to something, which is what counts as set.
pub open spec fn set_value(value: Option<&str>) -> Option<Seq<char>> {
    match value {
        Some(value) => if value@.len() > 0 {
            Some(value@)
        } else {
            None
        },
        None => None,
    }
}

/// Resolve the runtime directory from explicit inputs.
///
/// The last resort is the user's own cache directory, never `/tmp`: a socket in
/// a world-writable directory can be created by another user before the daemon
/// binds.
pub fn runtime_dir(
    override_dir: Option<&str>,
    xdg_runtime_dir: Option<&str>,
    home: Option<&str>,
) -> (path: String)
    ensures
        path@ == runtime_path(shown(override_dir), shown(xdg_runtime_dir), shown(home)),
{
    match (override_dir, xdg_runtime_dir) {
        (Some(path), _) => path.to_owned(),
        (None, Some(path)) => join(path, APP_DIR),
        (None, None) => {
            let base: &str = match home {
                Some(home) => home,
                None => ".",
            };
            join(join(base, ".cache").as_str(), APP_DIR)
        },
    }
}

/// A variable that is not empty.
fn env_path<'a>(value: Option<&'a str>) -> (set: Option<&'a str>)
    ensures
        shown(set) == set_value(value),
{
    match value {
        Some(value) => if value.is_empty() {
            None
        } else {
            Some(value)
        },
        None => None,
    }
}

/// The runtime directory for the values of `KORI_RUNTIME_DIR`,
/// `XDG_RUNTIME_DIR` and `HOME`. An empty variable counts as unset.
pub fn runtime_dir_from_env(
    override_dir: Option<&str>,
    xdg_runtime_dir: Option<&str>,
    home: Option<&str>,
) -> (path: String)
    ensures
        path@ == runtime_path(set_value(override_dir), set_value(xdg_runtime_dir), set_value(home)),
{
    runtime_dir(env_path(override_dir), env_path(xdg_runtime_dir), env_path(home))
}

/// The socket path for the values of `KORI_SOCKET`, `KORI_RUNTIME_DIR`,
/// `XDG_RUNTIME_DIR` and `HOME`. An empty variable counts as unset.
pub fn socket_path_from_env(
    socket: Option<&str>,
    override_dir: Option<&str>,
    xdg_runtime_dir: Option<&str>,
    home: Option<&str>,
) -> (path: String)
    ensures
        path@ == match set_value(socket) {
            Some(path) => path,
            None => joined(
                runtime_path(
                    set_value(override_dir),
                    set_value(xdg_runtime_dir),
                    set_value(home),
                ),
                SOCKET_FILE_NAME@,
            ),
        },
{
    match env_path(socket) {
        Some(path) => path.to_owned(),
        None => join(
            runtime_dir_from_env(override_dir, xdg_runtime_dir, home).as_str(),
            SOCKET_FILE_NAME,
        ),
    }
}

/// With neither an override nor a session directory, the runtime directory lies
/// inside the user's home, whatever that is.
pub proof fn the_last_resort_lies_under_home(home: Seq<char>)
    ensures
        home.is_prefix_of(runtime_path(None, None, Some(home))),
        runtime_path(None, None, Some(home)).len() > home.len(),
        runtime_path(None, None, Some(home)) == joined(joined(home, ".cache"@), "kori"@),
{
    reveal_strlit(".cache");
    reveal_strlit("kori");
    reveal_strlit("/");
    let cache = joined(home, ".cache"@);
    let whole = joined(cache, "kori"@);
    assert(cache.take(home.len() as int) =~= home);
    assert(whole.take(cache.len() as int) =~= cache);
    assert(whole.take(home.len() as int) =~= home);
}

/// The override is taken as it stands, whatever else is set.
pub proof fn the_override_comes_first(
    override_dir: Seq<char>,
    xdg_runtime_dir: Option<Seq<char>>,
    home: Option<Seq<char>>,
)
    ensures
        runtime_path(Some(override_dir), xdg_runtime_dir, home) == override_dir,
{
}

/// A path is joined to a base by exactly one separator, unless the base is empty.
pub proof fn one_separator_joins_a_path_to_its_base(base: Seq<char>, relative: Seq<char>)
    ensures
        base.is_prefix_of(joined(base, relative)),
        base.len() == 0 ==> joined(base, relative) == relative,
        base.len() > 0 && base[base.len() - 1] == '/' ==> joined(base, relative) == base + relative,
        base.len() > 0 && base[base.len() - 1] != '/' ==> joined(base, relative) == base + seq!['/']
            + relative,
{
    reveal_strlit("/");
    assert("/"@ =~= seq!['/']);
    assert(Seq::<char>::empty() + relative =~= relative);
    if base.len() == 0 {
        assert(joined(base, relative) =~= relative);
    }
}

/// Without an override the session's own directory is next, and the home of the
/// user only after it; without any of them the current directory stands in.
pub proof fn the_session_directory_comes_before_home(
    session: Seq<char>,
    home: Option<Seq<char>>,
)
    ensures
        runtime_path(None, Some(session), home) == joined(session, "kori"@),
        runtime_path(None, None, None) == joined(joined("."@, ".cache"@), "kori"@),
{
}

/// An empty variable counts as one that is not set.
pub proof fn an_empty_variable_is_not_set(value: Option<&str>)
    ensures
        value is None ==> set_value(value) is None,
        value matches Some(text) ==> (set_value(value) is None <==> text@.len() == 0),
        value matches Some(text) ==> (set_value(value) matches Some(held) ==> held == text@),
{
}

} // verus!
