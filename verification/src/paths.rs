//! Where the configuration, icons and sounds live.
//!
//! Paths are handled as text. Joining follows `PathBuf::push` on Unix: an
//! absolute component replaces the path, otherwise a `/` is inserted
//! unless the path is empty or already ends with one. A base directory
//! whose name is not valid UTF-8 cannot be held as text and is reported
//! as an error rather than altered.

use vstd::prelude::*;

use crate::config::ConfigError;
use crate::text::chars_of;

verus! {

/// `base` joined with `comp`, as `PathBuf::push` joins them on Unix.
pub open spec fn path_join(base: Seq<char>, comp: Seq<char>) -> Seq<char> {
    if comp.len() > 0 && comp[0] == '/' {
        comp
    } else if base.len() == 0 || base.last() == '/' {
        base + comp
    } else {
        base + seq!['/'] + comp
    }
}

/// `base` joined with `comp`.
pub fn join_path(base: &str, comp: &str) -> (r: String)
    ensures
        r@ == path_join(base@, comp@),
{
    let c = chars_of(comp);
    if c.len() > 0 && c[0] == '/' {
        return comp.to_owned();
    }
    let b = chars_of(base);
    let mut out = base.to_owned();
    if !(b.len() == 0 || b[b.len() - 1] == '/') {
        out.append("/");
        proof {
            reveal_strlit("/");
            assert("/"@ =~= seq!['/']);
        }
    }
    out.append(comp);
    out
}

/// `dirs::config_dir()`: the user's configuration directory
/// (`$XDG_CONFIG_HOME`, else `~/.config`). `None` when it is unknown,
/// `Some(None)` when it is not valid UTF-8, else `Some(Some(text))`. What
/// it returns depends on the environment, so nothing is stated of it.
#[verifier::external_body]
fn system_config_dir() -> (r: Option<Option<String>>) {
    dirs::config_dir().map(|p| p.into_os_string().into_string().ok())
}

/// `dirs::data_dir()`: the user's data directory (`$XDG_DATA_HOME`,
/// else `~/.local/share`). `None` when it is unknown, `Some(None)` when it
/// is not valid UTF-8, else `Some(Some(text))`. What it returns depends on
/// the environment, so nothing is stated of it.
#[verifier::external_body]
fn system_data_dir() -> (r: Option<Option<String>>) {
    dirs::data_dir().map(|p| p.into_os_string().into_string().ok())
}

/// The message for a missing base directory.
pub open spec fn unavailable(what: Seq<char>) -> Seq<char> {
    what + " unavailable"@
}

/// The message for a base directory whose name is not valid UTF-8.
pub open spec fn not_utf8(what: Seq<char>) -> Seq<char> {
    what + " is not valid UTF-8"@
}

/// The base directory as text: an error naming `what` when its name is
/// not valid UTF-8, else the text or `None` when it is unknown.
fn utf8_base(base: Option<Option<String>>, what: &str) -> (r: Result<Option<String>, ConfigError>)
    ensures
        match base {
            Some(None) => r matches Err(ConfigError::Validation(m)) && m@ == not_utf8(what@),
            Some(Some(b)) => r == Ok::<Option<String>, ConfigError>(Some(b)),
            None => r == Ok::<Option<String>, ConfigError>(None),
        },
{
    match base {
        Some(None) => {
            let mut m = what.to_owned();
            m.append(" is not valid UTF-8");
            proof {
                reveal_strlit(" is not valid UTF-8");
            }
            Err(ConfigError::Validation(m))
        },
        Some(Some(b)) => Ok(Some(b)),
        None => Ok(None),
    }
}

/// `<base>/xxkb`, or an error when the configuration base is unknown.
pub fn config_dir_in(base: Option<String>) -> (r: Result<String, ConfigError>)
    ensures
        match base {
            Some(b) => r matches Ok(p) && p@ == path_join(b@, "xxkb"@),
            None => r matches Err(ConfigError::Validation(m)) && m@ == "XDG_CONFIG_HOME unavailable"@,
        },
{
    match base {
        Some(b) => Ok(join_path(b.as_str(), "xxkb")),
        None => Err(ConfigError::Validation("XDG_CONFIG_HOME unavailable".to_owned())),
    }
}

/// `<base>/xxkb/config.toml`, or an error when the base is unknown.
pub fn config_path_in(base: Option<String>) -> (r: Result<String, ConfigError>)
    ensures
        match base {
            Some(b) => r matches Ok(p) && p@ == path_join(path_join(b@, "xxkb"@), "config.toml"@),
            None => r matches Err(ConfigError::Validation(m)) && m@ == "XDG_CONFIG_HOME unavailable"@,
        },
{
    let dir = config_dir_in(base)?;
    Ok(join_path(dir.as_str(), "config.toml"))
}

/// `<base>/xxkb`, or an error when the data base is unknown.
pub fn data_dir_in(base: Option<String>) -> (r: Result<String, ConfigError>)
    ensures
        match base {
            Some(b) => r matches Ok(p) && p@ == path_join(b@, "xxkb"@),
            None => r matches Err(ConfigError::Validation(m)) && m@ == "XDG_DATA_HOME unavailable"@,
        },
{
    match base {
        Some(b) => Ok(join_path(b.as_str(), "xxkb")),
        None => Err(ConfigError::Validation("XDG_DATA_HOME unavailable".to_owned())),
    }
}

/// `<base>/<sub>/xxkb`, or an error when the data base is unknown.
fn data_subdir_in(base: Option<String>, sub: &str) -> (r: Result<String, ConfigError>)
    ensures
        match base {
            Some(b) => r matches Ok(p) && p@ == path_join(path_join(b@, sub@), "xxkb"@),
            None => r matches Err(ConfigError::Validation(m)) && m@ == "XDG_DATA_HOME unavailable"@,
        },
{
    match base {
        Some(b) => {
            let d = join_path(b.as_str(), sub);
            Ok(join_path(d.as_str(), "xxkb"))
        },
        None => Err(ConfigError::Validation("XDG_DATA_HOME unavailable".to_owned())),
    }
}

/// The configuration directory: `$XDG_CONFIG_HOME/xxkb`, by default
/// `~/.config/xxkb`.
pub fn config_dir() -> (r: Result<String, ConfigError>)
    ensures
        match r {
            Ok(p) => exists|b: Seq<char>| p@ == #[trigger] path_join(b, "xxkb"@),
            Err(e) => e matches ConfigError::Validation(m) && (m@ == "XDG_CONFIG_HOME unavailable"@ || m@ == not_utf8(
                "XDG_CONFIG_HOME"@,
            )),
        },
{
    let base = match utf8_base(system_config_dir(), "XDG_CONFIG_HOME") {
        Ok(b) => b,
        Err(e) => return Err(e),
    };
    config_dir_in(base)
}

/// The configuration file: `<config_dir()>/config.toml`.
pub fn config_path() -> (r: Result<String, ConfigError>)
    ensures
        match r {
            Ok(p) => exists|b: Seq<char>|
                p@ == #[trigger] path_join(path_join(b, "xxkb"@), "config.toml"@),
            Err(e) => e matches ConfigError::Validation(m) && (m@ == "XDG_CONFIG_HOME unavailable"@ || m@ == not_utf8(
                "XDG_CONFIG_HOME"@,
            )),
        },
{
    let base = match utf8_base(system_config_dir(), "XDG_CONFIG_HOME") {
        Ok(b) => b,
        Err(e) => return Err(e),
    };
    config_path_in(base)
}

/// The data directory: `$XDG_DATA_HOME/xxkb`, by default
/// `~/.local/share/xxkb`.
pub fn data_dir() -> (r: Result<String, ConfigError>)
    ensures
        match r {
            Ok(p) => exists|b: Seq<char>| p@ == #[trigger] path_join(b, "xxkb"@),
            Err(e) => e matches ConfigError::Validation(m) && (m@ == "XDG_DATA_HOME unavailable"@ || m@ == not_utf8(
                "XDG_DATA_HOME"@,
            )),
        },
{
    let base = match utf8_base(system_data_dir(), "XDG_DATA_HOME") {
        Ok(b) => b,
        Err(e) => return Err(e),
    };
    data_dir_in(base)
}

/// The user's icon directory: `$XDG_DATA_HOME/icons/xxkb`.
pub fn user_icons_dir() -> (r: Result<String, ConfigError>)
    ensures
        match r {
            Ok(p) => exists|b: Seq<char>|
                p@ == #[trigger] path_join(path_join(b, "icons"@), "xxkb"@),
            Err(e) => e matches ConfigError::Validation(m) && (m@ == "XDG_DATA_HOME unavailable"@ || m@ == not_utf8(
                "XDG_DATA_HOME"@,
            )),
        },
{
    let base = match utf8_base(system_data_dir(), "XDG_DATA_HOME") {
        Ok(b) => b,
        Err(e) => return Err(e),
    };
    data_subdir_in(base, "icons")
}

/// The user's sound directory: `$XDG_DATA_HOME/sounds/xxkb`.
pub fn sound_dir() -> (r: Result<String, ConfigError>)
    ensures
        match r {
            Ok(p) => exists|b: Seq<char>|
                p@ == #[trigger] path_join(path_join(b, "sounds"@), "xxkb"@),
            Err(e) => e matches ConfigError::Validation(m) && (m@ == "XDG_DATA_HOME unavailable"@ || m@ == not_utf8(
                "XDG_DATA_HOME"@,
            )),
        },
{
    let base = match utf8_base(system_data_dir(), "XDG_DATA_HOME") {
        Ok(b) => b,
        Err(e) => return Err(e),
    };
    data_subdir_in(base, "sounds")
}

/// Whether a leading `~` of `s` is one that tilde expansion replaces:
/// `~` alone or `~/...`.
pub open spec fn expandable_tilde(s: Seq<char>) -> bool {
    s.len() > 0 && s[0] == '~' && (s.len() == 1 || s[1] == '/')
}

/// `shellexpand::tilde(s)`: a leading `~` (alone or before `/`) is
/// replaced by the home directory when it is known; any other text is
/// returned unchanged. The home directory comes from the environment, so
/// what replaces `~` is not stated.
#[verifier::external_body]
fn tilde(s: &str) -> (r: String)
    ensures
        !expandable_tilde(s@) ==> r@ == s@,
        expandable_tilde(s@) ==> r@ == s@ || exists|home: Seq<char>| r@ == home + s@.drop_first(),
{
    shellexpand::tilde(s).into_owned()
}

/// Expands `~` in a path.
pub fn expand_path(s: &str) -> (r: String)
    ensures
        !expandable_tilde(s@) ==> r@ == s@,
        expandable_tilde(s@) ==> r@ == s@ || exists|home: Seq<char>| r@ == home + s@.drop_first(),
{
    tilde(s)
}

} // verus!
