//! Where the app keeps its files, relative to its data directory.
use vstd::prelude::*;
use crate::text::{append_chars, chars_of, lit, string_of};

verus! {

/// The first data root available: the platform's local data directory, the
/// `LOCALAPPDATA` directory, the working directory, else the temp directory.
pub fn resolve_base_data_root<T>(
    platform_dir: Option<T>,
    env_dir: Option<T>,
    cwd: Option<T>,
    temp_dir: T,
) -> (res: T)
    ensures
        res == (match platform_dir {
            Some(p) => p,
            None => match env_dir {
                Some(e) => e,
                None => match cwd {
                    Some(c) => c,
                    None => temp_dir,
                },
            },
        }),
{
    match platform_dir {
        Some(p) => p,
        None => match env_dir {
            Some(e) => e,
            None => match cwd {
                Some(c) => c,
                None => temp_dir,
            },
        },
    }
}

/// The platform's path separator (`std::path::MAIN_SEPARATOR`): `/` or `\`.
#[verifier::external_body]
fn main_separator() -> (res: char)
    ensures
        res == '/' || res == '\\',
{
    std::path::MAIN_SEPARATOR
}

/// A path ends with a separator of the platform whose main separator is `sep`.
pub open spec fn ends_with_separator(path: Seq<char>, sep: char) -> bool {
    path.len() > 0 && (path.last() == '/' || path.last() == sep)
}

/// `name` appended to the directory `dir` as `PathBuf::join` does for a
/// plain relative name: a separator in between unless `dir` is empty or
/// already ends with one.
pub open spec fn spec_join(dir: Seq<char>, name: Seq<char>, sep: char) -> Seq<char> {
    if dir.len() == 0 || ends_with_separator(dir, sep) {
        dir + name
    } else {
        dir.push(sep) + name
    }
}

/// `name` inside the directory `dir`, on a platform whose main separator is
/// `sep`.
pub fn join_with(dir: &str, name: &str, sep: char) -> (res: String)
    ensures
        res@ == spec_join(dir@, name@, sep),
{
    let mut out = chars_of(dir);
    let n: usize = out.len();
    if !(n == 0 || out[n - 1] == '/' || out[n - 1] == sep) {
        out.push(sep);
    }
    assert(out@ == (if dir@.len() == 0 || ends_with_separator(dir@, sep) { dir@ } else { dir@.push(sep) }));
    append_chars(&mut out, &chars_of(name));
    assert(out@ == spec_join(dir@, name@, sep));
    string_of(&out)
}

/// `name` inside the directory `dir`.
pub fn join_path(dir: &str, name: &str) -> (res: String)
    ensures
        exists|sep: char| (sep == '/' || sep == '\\') && res@ == spec_join(dir@, name@, sep),
{
    join_with(dir, name, main_separator())
}


/// The folder name of a portable layout: `data` when present, else
/// `portable_data`.
pub open spec fn portable_folder(data_is_dir: bool) -> Seq<char> {
    if data_is_dir {
        "data"@
    } else {
        "portable_data"@
    }
}

/// `name` inside `folder` inside `dir`, both joined with `sep`.
pub open spec fn nested_join(dir: Seq<char>, folder: Seq<char>, name: Seq<char>, sep: char) -> Seq<char> {
    spec_join(spec_join(dir, folder, sep), name, sep)
}

/// The portable data directory beside the program in `exe_dir`: inside its
/// `data` folder when that exists, else inside its `portable_data` folder
/// when that exists; `None` without either.
pub fn portable_data_dir(exe_dir: &str, data_is_dir: bool, portable_data_is_dir: bool) -> (res: Option<String>)
    ensures
        match res {
            Some(d) => exists|sep: char|
                (sep == '/' || sep == '\\') && d@ == #[trigger] nested_join(
                    exe_dir@,
                    portable_folder(data_is_dir),
                    "soziopolis_lingq_tool"@,
                    sep,
                ),
            None => !data_is_dir && !portable_data_is_dir,
        },
        res is Some <==> (data_is_dir || portable_data_is_dir),
{
    let sep = main_separator();
    let folder = if data_is_dir {
        join_with(exe_dir, "data", sep)
    } else if portable_data_is_dir {
        join_with(exe_dir, "portable_data", sep)
    } else {
        return None;
    };
    let dir = join_with(folder.as_str(), "soziopolis_lingq_tool", sep);
    assert(dir@ == nested_join(exe_dir@, portable_folder(data_is_dir), "soziopolis_lingq_tool"@, sep));
    Some(dir)
}

/// The data directory: the configured one, else the portable one, else
/// `soziopolis_lingq_tool` inside the base data root.
pub fn choose_data_dir(configured: Option<String>, portable: Option<String>, base_root: &str) -> (res: String)
    ensures
        match configured {
            Some(c) => res == c,
            None => match portable {
                Some(p) => res == p,
                None => exists|sep: char|
                    (sep == '/' || sep == '\\') && res@ == spec_join(base_root@, "soziopolis_lingq_tool"@, sep),
            },
        },
{
    match configured {
        Some(c) => c,
        None => match portable {
            Some(p) => p,
            None => join_path(base_root, "soziopolis_lingq_tool"),
        },
    }
}

/// The data directory the tool uses, in order: the configured one; else,
/// beside the program in `exe_dir` (when it is known), `data` or else
/// `portable_data` when that folder exists, with `soziopolis_lingq_tool`
/// inside; else `soziopolis_lingq_tool` inside the base data root.
pub fn data_dir_for(
    configured: Option<String>,
    exe_dir: Option<&str>,
    data_is_dir: bool,
    portable_data_is_dir: bool,
    base_root: &str,
) -> (res: String)
    ensures
        match configured {
            Some(c) => res == c,
            None => if exe_dir is Some && (data_is_dir || portable_data_is_dir) {
                exists|sep: char|
                    (sep == '/' || sep == '\\') && res@ == #[trigger] nested_join(
                        exe_dir.unwrap()@,
                        portable_folder(data_is_dir),
                        "soziopolis_lingq_tool"@,
                        sep,
                    )
            } else {
                exists|sep: char|
                    (sep == '/' || sep == '\\') && res@ == spec_join(base_root@, "soziopolis_lingq_tool"@, sep)
            },
        },
{
    match configured {
        Some(c) => c,
        None => {
            let portable = match exe_dir {
                Some(e) => portable_data_dir(e, data_is_dir, portable_data_is_dir),
                None => None,
            };
            choose_data_dir(None, portable, base_root)
        },
    }
}

/// The settings file in the data directory.
pub fn settings_path(data_dir: &str) -> (res: String)
    ensures
        exists|sep: char| (sep == '/' || sep == '\\') && res@ == spec_join(data_dir@, "settings.json"@, sep),
{
    join_path(data_dir, "settings.json")
}

/// Where an unreadable settings file is kept for inspection: beside the
/// settings, as `settings.invalid-<timestamp>.json`.
pub fn invalid_settings_path(data_dir: &str, timestamp: &str) -> (res: String)
    ensures
        exists|sep: char|
            (sep == '/' || sep == '\\') && res@ == spec_join(
                data_dir@,
                "settings.invalid-"@ + timestamp@ + ".json"@,
                sep,
            ),
{
    let mut name = lit("settings.invalid-");
    append_chars(&mut name, &chars_of(timestamp));
    append_chars(&mut name, &lit(".json"));
    join_path(data_dir, string_of(&name).as_str())
}

/// The SQLite database in the data directory.
pub fn database_path(data_dir: &str) -> (res: String)
    ensures
        exists|sep: char| (sep == '/' || sep == '\\') && res@ == spec_join(data_dir@, "soziopolis_lingq_tool.db"@, sep),
{
    join_path(data_dir, "soziopolis_lingq_tool.db")
}

/// The log directory in the data directory.
pub fn logs_dir(data_dir: &str) -> (res: String)
    ensures
        exists|sep: char| (sep == '/' || sep == '\\') && res@ == spec_join(data_dir@, "logs"@, sep),
{
    join_path(data_dir, "logs")
}

/// The application log inside the log directory.
pub fn app_log_path(logs_dir: &str) -> (res: String)
    ensures
        exists|sep: char| (sep == '/' || sep == '\\') && res@ == spec_join(logs_dir@, "soziopolis-reader.log"@, sep),
{
    join_path(logs_dir, "soziopolis-reader.log")
}

/// The support bundle directory in the data directory.
pub fn support_bundles_dir(data_dir: &str) -> (res: String)
    ensures
        exists|sep: char| (sep == '/' || sep == '\\') && res@ == spec_join(data_dir@, "support_bundles"@, sep),
{
    join_path(data_dir, "support_bundles")
}

/// The browse cache directory in the data directory.
pub fn browse_cache_dir(data_dir: &str) -> (res: String)
    ensures
        exists|sep: char| (sep == '/' || sep == '\\') && res@ == spec_join(data_dir@, "browse_cache"@, sep),
{
    join_path(data_dir, "browse_cache")
}

} // verus!
