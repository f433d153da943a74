//! Where the assets (model, voices, espeak data, onnxruntime) live.

use vstd::prelude::*;

verus! {

/// The folder, under the local application data directory, that the
/// default install uses.
pub const ASSETS_FOLDER: &'static str = "KokoroSapi";

/// The assets directory, as chosen.
#[derive(Debug)]
pub enum AssetsDir {
    /// This directory, as given.
    Given(String),
    /// The folder `KokoroSapi` inside this base directory.
    InBase(String),
}

/// The view of an optional string.
pub open spec fn opt_view(s: Option<String>) -> Option<Seq<char>> {
    match s {
        Some(s) => Some(s@),
        None => None,
    }
}

/// The abstract choice: `(true, dir)` for a given directory, `(false, base)`
/// for the `KokoroSapi` folder inside `base`.
pub open spec fn assets_dir_spec(
    from_token: Option<Seq<char>>,
    env_dir: Option<Seq<char>>,
    local_app_data: Option<Seq<char>>,
) -> (bool, Seq<char>) {
    if from_token is Some && from_token->Some_0.len() > 0 {
        (true, from_token->Some_0)
    } else if env_dir is Some && env_dir->Some_0.len() > 0 {
        (true, env_dir->Some_0)
    } else {
        match local_app_data {
            Some(base) => (false, base),
            None => (false, seq!['.']),
        }
    }
}

/// The abstract form of an `AssetsDir`.
pub open spec fn assets_dir_view(d: AssetsDir) -> (bool, Seq<char>) {
    match d {
        AssetsDir::Given(s) => (true, s@),
        AssetsDir::InBase(s) => (false, s@),
    }
}

/// Chooses the assets directory. In order: the non-empty value from the voice
/// token, then the non-empty value of the `KOKORO_SAPI_ASSETS` environment
/// variable (`env_dir`), then the default install location, the `KokoroSapi`
/// folder in the local application data directory (`LOCALAPPDATA`), or in
/// `.` when that variable is not set.
pub fn assets_dir(
    from_token: Option<String>,
    env_dir: Option<String>,
    local_app_data: Option<String>,
) -> (r: AssetsDir)
    ensures
        assets_dir_view(r) == assets_dir_spec(
            opt_view(from_token),
            opt_view(env_dir),
            opt_view(local_app_data),
        ),
{
    if let Some(dir) = from_token {
        if !dir.as_str().is_empty() {
            return AssetsDir::Given(dir);
        }
    }
    if let Some(dir) = env_dir {
        if !dir.as_str().is_empty() {
            return AssetsDir::Given(dir);
        }
    }
    match local_app_data {
        Some(base) => AssetsDir::InBase(base),
        None => {
            let mut dot = String::new();
            crate::text::push_char(&mut dot, '.');
            AssetsDir::InBase(dot)
        },
    }
}

/// A non-empty directory from the voice token is the assets directory,
/// whatever the environment variable and `LOCALAPPDATA` say.
pub proof fn lemma_token_dir_comes_first(
    dir: Seq<char>,
    env_dir: Option<Seq<char>>,
    local_app_data: Option<Seq<char>>,
)
    requires
        dir.len() > 0,
    ensures
        assets_dir_spec(Some(dir), env_dir, local_app_data) == (true, dir),
{
}

/// Without a directory from the voice token (absent or empty), a non-empty
/// environment variable gives the assets directory, whatever `LOCALAPPDATA` says.
pub proof fn lemma_env_dir_comes_second(
    from_token: Option<Seq<char>>,
    dir: Seq<char>,
    local_app_data: Option<Seq<char>>,
)
    requires
        from_token is None || from_token->Some_0.len() == 0,
        dir.len() > 0,
    ensures
        assets_dir_spec(from_token, Some(dir), local_app_data) == (true, dir),
{
}

/// With neither a token directory nor an environment directory (each absent
/// or empty), the assets directory is the default folder inside
/// `LOCALAPPDATA`, or inside `.` when that is not set.
pub proof fn lemma_default_dir_comes_last(
    from_token: Option<Seq<char>>,
    env_dir: Option<Seq<char>>,
    local_app_data: Option<Seq<char>>,
)
    requires
        from_token is None || from_token->Some_0.len() == 0,
        env_dir is None || env_dir->Some_0.len() == 0,
    ensures
        assets_dir_spec(from_token, env_dir, local_app_data) == (false, match local_app_data {
            Some(base) => base,
            None => seq!['.'],
        }),
{
}

} // verus!
