//! Where the application keeps its files: the vault and its key under the
//! configuration directory, the portable tools, the logs and the document
//! index under the data directory. A missing base directory falls back to
//! the current directory.
use crate::text::{append_str, to_chars};
use vstd::prelude::*;

verus! {

/// `PathBuf::push` on Unix: an absolute component replaces the path; a
/// relative one is added after a `/` unless the path is empty or already
/// ends with one.
pub open spec fn push_component(base: Seq<char>, part: Seq<char>) -> Seq<char> {
    if part.len() > 0 && part[0] == '/' {
        part
    } else if base.len() == 0 || base.last() == '/' {
        base + part
    } else {
        base + "/"@ + part
    }
}

/// The base directory, or `.` when there is none.
pub open spec fn base_or_here(base: Option<Seq<char>>) -> Seq<char> {
    match base {
        Some(b) => b,
        None => "."@,
    }
}

/// The application's directory under a base directory.
pub open spec fn app_dir(base: Option<Seq<char>>) -> Seq<char> {
    push_component(base_or_here(base), "Amorfly AI"@)
}

/// Adds a relative component to a path.
fn push(path: &mut String, part: &str)
    ensures
        final(path)@ == push_component(old(path)@, part@),
{
    let pv = to_chars(part);
    if pv.len() > 0 && pv[0] == '/' {
        *path = part.to_owned();
        return;
    }
    let v = to_chars(path.as_str());
    if v.len() > 0 && v[v.len() - 1] != '/' {
        append_str(path, "/");
    }
    append_str(path, part);
}

/// The application's directory under `base`.
fn app_dir_of(base: Option<&str>) -> (r: String)
    ensures
        r@ == app_dir(
            match base {
                Some(b) => Some(b@),
                None => None,
            },
        ),
{
    let mut p = match base {
        Some(b) => b.to_owned(),
        None => ".".to_owned(),
    };
    push(&mut p, "Amorfly AI");
    p
}

/// The vault directory under the configuration directory.
pub fn vault_dir(config_dir: Option<&str>) -> (r: String)
    ensures
        r@ == push_component(
            app_dir(
                match config_dir {
                    Some(b) => Some(b@),
                    None => None,
                },
            ),
            "vault"@,
        ),
{
    let mut p = app_dir_of(config_dir);
    push(&mut p, "vault");
    p
}

/// The file that holds the vault key.
pub fn key_path(config_dir: Option<&str>) -> (r: String)
    ensures
        r@ == push_component(
            push_component(
                app_dir(
                    match config_dir {
                        Some(b) => Some(b@),
                        None => None,
                    },
                ),
                "vault"@,
            ),
            "amorfly.key"@,
        ),
{
    let mut p = vault_dir(config_dir);
    push(&mut p, "amorfly.key");
    p
}

/// The vault file of the entry `name`: `{name}.enc` in the vault directory.
pub fn vault_file(config_dir: Option<&str>, name: &str) -> (r: String)
    ensures
        r@ == push_component(
            push_component(
                app_dir(
                    match config_dir {
                        Some(b) => Some(b@),
                        None => None,
                    },
                ),
                "vault"@,
            ),
            name@ + ".enc"@,
        ),
{
    let mut p = vault_dir(config_dir);
    let mut f = name.to_owned();
    append_str(&mut f, ".enc");
    push(&mut p, f.as_str());
    p
}

/// The directory of the portable tools under the data directory.
pub fn amorfly_bin_dir(data_dir: Option<&str>) -> (r: String)
    ensures
        r@ == push_component(
            app_dir(
                match data_dir {
                    Some(b) => Some(b@),
                    None => None,
                },
            ),
            "bin"@,
        ),
{
    let mut p = app_dir_of(data_dir);
    push(&mut p, "bin");
    p
}

/// The directory of the log files under the data directory.
pub fn logs_dir(data_dir: Option<&str>) -> (r: String)
    ensures
        r@ == push_component(
            app_dir(
                match data_dir {
                    Some(b) => Some(b@),
                    None => None,
                },
            ),
            "logs"@,
        ),
{
    let mut p = app_dir_of(data_dir);
    push(&mut p, "logs");
    p
}

/// The document index database under the data directory.
pub fn rag_db_path(data_dir: Option<&str>) -> (r: String)
    ensures
        r@ == push_component(
            app_dir(
                match data_dir {
                    Some(b) => Some(b@),
                    None => None,
                },
            ),
            "rag.sqlite"@,
        ),
{
    let mut p = app_dir_of(data_dir);
    push(&mut p, "rag.sqlite");
    p
}

/// A file or directory `part` inside `dir`.
pub fn join_path(dir: &str, part: &str) -> (r: String)
    ensures
        r@ == push_component(dir@, part@),
{
    let mut p = dir.to_owned();
    push(&mut p, part);
    p
}

} // verus!
