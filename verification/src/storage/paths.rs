//! Where the application keeps its files, and where opencode keeps its own.
//!
//! What the process environment tells (the platform's configuration
//! directory, `HOME`, the variables that override directories, the test
//! overrides) is held in a [`PathEnv`]; every rule that turns it into a
//! path is here.
use vstd::prelude::*;

use crate::error::AppError;
use crate::pathstr::{join, parent, path_join, path_parent};
use crate::storage::configs::opt_str_view;
use crate::text::concat_str;

verus! {

/// The directory name of the application under the configuration directory.
pub const APP_NAME: &'static str = "oh-my-openagent-switch";

/// What the environment says about paths.
pub struct PathEnv {
    /// The platform's configuration directory, where it has one.
    pub config_dir: Option<String>,
    /// `HOME`, where it is set.
    pub home: Option<String>,
    /// Whether the platform is macOS.
    pub is_macos: bool,
    /// Whether paths follow Windows rules (`\` and `/` both separate,
    /// `C:` names a drive, `\` joins).
    pub is_windows: bool,
    /// `OMO_TEST_CONFIGS_DIR`, where it is set.
    pub configs_dir_var: Option<String>,
    /// `OMO_TEST_BACKUPS_DIR`, where it is set.
    pub backups_dir_var: Option<String>,
    /// `OPENCODE_CONFIG_DIR`, where it is set.
    pub opencode_config_dir_var: Option<String>,
    /// `OPENCODE_CONFIG`, where it is set.
    pub opencode_config_var: Option<String>,
    /// A directory that stands in for opencode's (set by tests).
    pub test_opencode_dir: Option<String>,
    /// A directory that stands in for the configurations directory (set by tests).
    pub test_configs_dir: Option<String>,
    /// A directory that stands in for the backups directory (set by tests).
    pub test_backups_dir: Option<String>,
    /// A file that stands in for the activation record (set by tests).
    pub test_active_path: Option<String>,
}

/// The application's own directory.
pub open spec fn spec_app_root(env: PathEnv) -> Option<Seq<char>> {
    match opt_str_view(env.config_dir) {
        Some(d) => Some(path_join(d, APP_NAME@, env.is_windows)),
        None => None,
    }
}

/// A subdirectory of the application's directory.
pub open spec fn spec_app_sub(env: PathEnv, name: Seq<char>) -> Option<Seq<char>> {
    match spec_app_root(env) {
        Some(r) => Some(path_join(r, name, env.is_windows)),
        None => None,
    }
}

/// The directory of saved configurations: the override, else
/// `OMO_TEST_CONFIGS_DIR`, else `configs` under the application's directory.
pub open spec fn spec_configs_dir(override_path: Option<Seq<char>>, env: PathEnv) -> Option<Seq<char>> {
    match override_path {
        Some(p) => Some(p),
        None => match opt_str_view(env.configs_dir_var) {
            Some(v) => Some(v),
            None => spec_app_sub(env, "configs"@),
        },
    }
}

/// The directory of backups: the override, else `OMO_TEST_BACKUPS_DIR`,
/// else `backups` under the application's directory.
pub open spec fn spec_backups_dir(override_path: Option<Seq<char>>, env: PathEnv) -> Option<Seq<char>> {
    match override_path {
        Some(p) => Some(p),
        None => match opt_str_view(env.backups_dir_var) {
            Some(v) => Some(v),
            None => spec_app_sub(env, "backups"@),
        },
    }
}

/// A set, non-empty variable.
pub open spec fn non_empty(v: Option<Seq<char>>) -> Option<Seq<char>> {
    match v {
        Some(s) => if s.len() > 0 {
            Some(s)
        } else {
            None
        },
        None => None,
    }
}

/// The directory named by `OPENCODE_CONFIG`: the parent of the file it
/// names, where that is not empty.
pub open spec fn config_file_dir(v: Option<Seq<char>>, win: bool) -> Option<Seq<char>> {
    match non_empty(v) {
        Some(f) => match path_parent(f, win) {
            Some(d) => if d.len() > 0 {
                Some(d)
            } else {
                None
            },
            None => None,
        },
        None => None,
    }
}

/// opencode's configuration directory, in this order: the test override,
/// `OPENCODE_CONFIG_DIR`, the directory of `OPENCODE_CONFIG`, on macOS
/// `$HOME/.config/opencode`, then `opencode` under the platform's
/// configuration directory.
pub open spec fn spec_opencode_dir(env: PathEnv) -> Option<Seq<char>> {
    if env.test_opencode_dir is Some {
        opt_str_view(env.test_opencode_dir)
    } else if non_empty(opt_str_view(env.opencode_config_dir_var)) is Some {
        non_empty(opt_str_view(env.opencode_config_dir_var))
    } else if config_file_dir(opt_str_view(env.opencode_config_var), env.is_windows) is Some {
        config_file_dir(opt_str_view(env.opencode_config_var), env.is_windows)
    } else if env.is_macos && env.home is Some {
        Some(path_join(path_join(env.home->0@, ".config"@, env.is_windows), "opencode"@, env.is_windows))
    } else {
        match opt_str_view(env.config_dir) {
            Some(d) => Some(path_join(d, "opencode"@, env.is_windows)),
            None => None,
        }
    }
}

/// The names the oh-my-openagent file goes by, in the order they are looked
/// for: the former name first, as oh-my-openagent's own documentation lists
/// them, then the current one.
pub open spec fn spec_omos_names() -> Seq<Seq<char>> {
    seq!["oh-my-opencode.json"@, "oh-my-openagent.json"@]
}

/// A result that is `Ok` exactly when the model has a path, and then that path.
pub open spec fn path_result(r: Result<String, AppError>, m: Option<Seq<char>>) -> bool {
    match r {
        Ok(p) => m == Some(p@),
        Err(e) => m is None && e == AppError::OpencodeNotFound,
    }
}

/// The application's own directory.
fn app_config_root(env: &PathEnv) -> (r: Result<String, AppError>)
    ensures
        path_result(r, spec_app_root(*env)),
{
    match &env.config_dir {
        Some(d) => Ok(join(d.as_str(), APP_NAME, env.is_windows)),
        None => Err(AppError::OpencodeNotFound),
    }
}

/// A subdirectory of the application's directory.
fn app_sub_dir(env: &PathEnv, name: &str) -> (r: Result<String, AppError>)
    ensures
        path_result(r, spec_app_sub(*env, name@)),
{
    let root = app_config_root(env)?;
    Ok(join(root.as_str(), name, env.is_windows))
}

/// The directory of saved configurations.
pub fn configs_dir(env: &PathEnv) -> (r: Result<String, AppError>)
    ensures
        path_result(r, spec_configs_dir(None, *env)),
{
    configs_dir_with_override(None, env)
}

/// The directory of saved configurations, or `override_path` where given.
pub fn configs_dir_with_override(override_path: Option<String>, env: &PathEnv) -> (r: Result<
    String,
    AppError,
>)
    ensures
        path_result(r, spec_configs_dir(opt_str_view(override_path), *env)),
{
    if let Some(p) = override_path {
        return Ok(p);
    }
    if let Some(v) = &env.configs_dir_var {
        return Ok(v.clone());
    }
    app_sub_dir(env, "configs")
}

/// The directory of backups.
pub fn backups_dir(env: &PathEnv) -> (r: Result<String, AppError>)
    ensures
        path_result(r, spec_backups_dir(None, *env)),
{
    backups_dir_with_override(None, env)
}

/// The directory of backups, or `override_path` where given.
pub fn backups_dir_with_override(override_path: Option<String>, env: &PathEnv) -> (r: Result<
    String,
    AppError,
>)
    ensures
        path_result(r, spec_backups_dir(opt_str_view(override_path), *env)),
{
    if let Some(p) = override_path {
        return Ok(p);
    }
    if let Some(v) = &env.backups_dir_var {
        return Ok(v.clone());
    }
    app_sub_dir(env, "backups")
}

/// The directory named by `OPENCODE_CONFIG`.
fn config_file_dir_of(v: &Option<String>, win: bool) -> (r: Option<String>)
    ensures
        opt_str_view(r) == config_file_dir(opt_str_view(*v), win),
{
    match v {
        Some(f) => {
            if f.unicode_len() == 0 {
                return None;
            }
            match parent(f.as_str(), win) {
                Some(d) => if d.unicode_len() > 0 {
                    Some(d)
                } else {
                    None
                },
                None => None,
            }
        },
        None => None,
    }
}

/// opencode's configuration directory.
pub fn opencode_dir(env: &PathEnv) -> (r: Result<String, AppError>)
    ensures
        path_result(r, spec_opencode_dir(*env)),
{
    if let Some(p) = &env.test_opencode_dir {
        return Ok(p.clone());
    }
    if let Some(v) = &env.opencode_config_dir_var {
        if v.unicode_len() > 0 {
            return Ok(v.clone());
        }
    }
    if let Some(d) = config_file_dir_of(&env.opencode_config_var, env.is_windows) {
        return Ok(d);
    }
    if env.is_macos {
        if let Some(h) = &env.home {
            let c = join(h.as_str(), ".config", env.is_windows);
            return Ok(join(c.as_str(), "opencode", env.is_windows));
        }
    }
    match &env.config_dir {
        Some(d) => Ok(join(d.as_str(), "opencode", env.is_windows)),
        None => Err(AppError::OpencodeNotFound),
    }
}

/// The names the oh-my-openagent file goes by, in the order they are looked
/// for: the former name `oh-my-opencode.json` first, then the current one.
pub fn omos_candidate_names() -> (r: &'static [&'static str])
    ensures
        r@.len() == 2,
        r@[0]@ == spec_omos_names()[0],
        r@[1]@ == spec_omos_names()[1],
{
    let names: &'static [&'static str] = &["oh-my-opencode.json", "oh-my-openagent.json"];
    names
}

/// The candidate paths of the oh-my-openagent file, in the order they are
/// looked for.
pub fn omos_candidate_paths(env: &PathEnv) -> (r: Result<Vec<String>, AppError>)
    ensures
        match r {
            Ok(v) => spec_opencode_dir(*env) is Some && v@.len() == 2 && forall|i: int|
                0 <= i < 2 ==> #[trigger] v@[i]@ == path_join(
                    spec_opencode_dir(*env)->0,
                    spec_omos_names()[i],
                    env.is_windows,
                ),
            Err(e) => spec_opencode_dir(*env) is None && e == AppError::OpencodeNotFound,
        },
{
    let dir = opencode_dir(env)?;
    let names = omos_candidate_names();
    let mut out: Vec<String> = Vec::new();
    out.push(join(dir.as_str(), names[0], env.is_windows));
    out.push(join(dir.as_str(), names[1], env.is_windows));
    Ok(out)
}

/// The first candidate `i` (below 2) for which `exists` says the file is there.
pub open spec fn first_existing(exists: Seq<bool>) -> Option<int> {
    if exists.len() > 0 && exists[0] {
        Some(0)
    } else if exists.len() > 1 && exists[1] {
        Some(1)
    } else {
        None
    }
}

/// The oh-my-openagent file that is there: the first candidate path for
/// which `exists` (one flag per candidate, in order) is true, or none.
pub fn existing_omos_path(env: &PathEnv, exists: &Vec<bool>) -> (r: Result<Option<String>, AppError>)
    ensures
        match r {
            Ok(o) => spec_opencode_dir(*env) is Some && match first_existing(exists@) {
                Some(i) => o is Some && o->0@ == path_join(
                    spec_opencode_dir(*env)->0,
                    spec_omos_names()[i],
                    env.is_windows,
                ),
                None => o is None,
            },
            Err(e) => spec_opencode_dir(*env) is None && e == AppError::OpencodeNotFound,
        },
{
    let mut paths = omos_candidate_paths(env)?;
    assert(paths@[0]@ == path_join(spec_opencode_dir(*env)->0, spec_omos_names()[0], env.is_windows));
    assert(paths@[1]@ == path_join(spec_opencode_dir(*env)->0, spec_omos_names()[1], env.is_windows));
    if exists.len() > 0 && exists[0] {
        let p = paths.remove(0);
        return Ok(Some(p));
    }
    if exists.len() > 1 && exists[1] {
        let p = paths.remove(1);
        return Ok(Some(p));
    }
    Ok(None)
}

/// Where a new oh-my-openagent file is written: under its current name.
pub fn omos_path(env: &PathEnv) -> (r: Result<String, AppError>)
    ensures
        path_result(
            r,
            match spec_opencode_dir(*env) {
                Some(d) => Some(path_join(d, spec_omos_names()[1], env.is_windows)),
                None => None,
            },
        ),
{
    let dir = opencode_dir(env)?;
    proof {
        reveal_strlit("oh-my-openagent.json");
    }
    Ok(join(dir.as_str(), "oh-my-openagent.json", env.is_windows))
}

/// Makes `path` stand in for opencode's directory.
pub fn set_test_opencode_dir(env: &mut PathEnv, path: String)
    ensures
        final(env).test_opencode_dir == Some(path),
        final(env).config_dir == old(env).config_dir,
        final(env).home == old(env).home,
        final(env).is_macos == old(env).is_macos,
        final(env).is_windows == old(env).is_windows,
        final(env).configs_dir_var == old(env).configs_dir_var,
        final(env).backups_dir_var == old(env).backups_dir_var,
        final(env).opencode_config_dir_var == old(env).opencode_config_dir_var,
        final(env).opencode_config_var == old(env).opencode_config_var,
        final(env).test_configs_dir == old(env).test_configs_dir,
        final(env).test_backups_dir == old(env).test_backups_dir,
        final(env).test_active_path == old(env).test_active_path,
{
    env.test_opencode_dir = Some(path);
}

/// Stops any directory from standing in for opencode's.
pub fn clear_test_opencode_dir(env: &mut PathEnv)
    ensures
        final(env).test_opencode_dir is None,
        final(env).config_dir == old(env).config_dir,
        final(env).home == old(env).home,
        final(env).is_macos == old(env).is_macos,
        final(env).is_windows == old(env).is_windows,
        final(env).configs_dir_var == old(env).configs_dir_var,
        final(env).backups_dir_var == old(env).backups_dir_var,
        final(env).opencode_config_dir_var == old(env).opencode_config_dir_var,
        final(env).opencode_config_var == old(env).opencode_config_var,
        final(env).test_configs_dir == old(env).test_configs_dir,
        final(env).test_backups_dir == old(env).test_backups_dir,
        final(env).test_active_path == old(env).test_active_path,
{
    env.test_opencode_dir = None;
}

/// The activation record file, `active.json` under the application's directory.
pub fn active_file(env: &PathEnv) -> (r: Result<String, AppError>)
    ensures
        path_result(r, spec_app_sub(*env, "active.json"@)),
{
    app_sub_dir(env, "active.json")
}

/// The directory of saved configurations in use: the test override, else
/// [`configs_dir`].
pub fn effective_configs_dir(env: &PathEnv) -> (r: Result<String, AppError>)
    ensures
        path_result(
            r,
            match opt_str_view(env.test_configs_dir) {
                Some(t) => Some(t),
                None => spec_configs_dir(None, *env),
            },
        ),
{
    match &env.test_configs_dir {
        Some(t) => Ok(t.clone()),
        None => configs_dir(env),
    }
}

/// The directory of backups in use: the test override, else [`backups_dir`].
pub fn effective_backups_dir(env: &PathEnv) -> (r: Result<String, AppError>)
    ensures
        path_result(
            r,
            match opt_str_view(env.test_backups_dir) {
                Some(t) => Some(t),
                None => spec_backups_dir(None, *env),
            },
        ),
{
    match &env.test_backups_dir {
        Some(t) => Ok(t.clone()),
        None => backups_dir(env),
    }
}

/// The activation record file in use: the test override, else [`active_file`].
pub fn effective_active_file(env: &PathEnv) -> (r: Result<String, AppError>)
    ensures
        path_result(
            r,
            match opt_str_view(env.test_active_path) {
                Some(t) => Some(t),
                None => spec_app_sub(*env, "active.json"@),
            },
        ),
{
    match &env.test_active_path {
        Some(t) => Ok(t.clone()),
        None => active_file(env),
    }
}

/// The file of the configuration `id` in `dir`: `{id}.json`.
pub fn config_path(id: &str, dir: &str, win: bool) -> (r: String)
    ensures
        r@ == path_join(dir@, id@ + ".json"@, win),
{
    let name = concat_str(id, ".json");
    join(dir, name.as_str(), win)
}

/// `opencode.jsonc` in opencode's directory: the document a configuration
/// is applied to.
pub fn opencode_file(env: &PathEnv) -> (r: Result<String, AppError>)
    ensures
        path_result(
            r,
            match spec_opencode_dir(*env) {
                Some(d) => Some(path_join(d, "opencode.jsonc"@, env.is_windows)),
                None => None,
            },
        ),
{
    let dir = opencode_dir(env)?;
    Ok(join(dir.as_str(), "opencode.jsonc", env.is_windows))
}

/// The opencode document to read in opencode's directory `dir`:
/// `opencode.jsonc` when it exists, else `opencode.json` when it exists,
/// else none.
pub fn current_opencode_file(dir: &str, jsonc_exists: bool, json_exists: bool, win: bool) -> (r: Option<
    String,
>)
    ensures
        opt_str_view(r) == if jsonc_exists {
            Some(path_join(dir@, "opencode.jsonc"@, win))
        } else if json_exists {
            Some(path_join(dir@, "opencode.json"@, win))
        } else {
            None
        },
{
    if jsonc_exists {
        Some(join(dir, "opencode.jsonc", win))
    } else if json_exists {
        Some(join(dir, "opencode.json", win))
    } else {
        None
    }
}

/// The oh-my-openagent file whose state is checked: the one that is there
/// (see [`existing_omos_path`]), else where a new one is written.
pub fn omos_read_path(env: &PathEnv, exists: &Vec<bool>) -> (r: Result<String, AppError>)
    ensures
        path_result(
            r,
            match spec_opencode_dir(*env) {
                Some(d) => Some(
                    path_join(
                        d,
                        match first_existing(exists@) {
                            Some(i) => spec_omos_names()[i],
                            None => spec_omos_names()[1],
                        },
                        env.is_windows,
                    ),
                ),
                None => None,
            },
        ),
{
    match existing_omos_path(env, exists)? {
        Some(p) => Ok(p),
        None => omos_path(env),
    }
}

} // verus!
