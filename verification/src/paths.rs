//! Where the launcher keeps its files: `setting.conf` and `apps.json` beside
//! the executable, and the `conf` directory (state snapshot, logs) beside the
//! executable in a portable install or under `%APPDATA%` otherwise. Paths are
//! Windows paths held as text.

use vstd::prelude::*;

verus! {

broadcast use {vstd::seq_lib::group_seq_properties, vstd::seq::group_seq_axioms};

/// A Windows path separator.
pub open spec fn is_separator(c: char) -> bool {
    c == '\\' || c == '/'
}

/// A bare drive such as `C:`, after which a relative name follows with no
/// separator.
pub open spec fn is_bare_drive(dir: Seq<char>) -> bool {
    dir.len() == 2 && dir[1] == ':' && (('a' <= dir[0] && dir[0] <= 'z') || ('A' <= dir[0]
        && dir[0] <= 'Z'))
}

/// `dir` joined with the relative name `name`: a `\` goes between them unless
/// `dir` is empty, already ends with a separator, or is a bare drive.
pub open spec fn joined(dir: Seq<char>, name: Seq<char>) -> Seq<char> {
    if dir.len() == 0 {
        name
    } else if is_separator(dir.last()) || is_bare_drive(dir) {
        dir + name
    } else {
        dir + "\\"@ + name
    }
}

/// Joins the relative name `name` to `dir`.
pub fn join(dir: &str, name: &str) -> (r: String)
    ensures
        r@ == joined(dir@, name@),
{
    let n = dir.unicode_len();
    if n == 0 {
        return name.to_owned();
    }
    let last = dir.get_char(n - 1);
    let first = dir.get_char(0);
    let bare_drive = n == 2 && dir.get_char(1) == ':' && (('a' <= first && first <= 'z') || (
    'A' <= first && first <= 'Z'));
    let mut r = dir.to_owned();
    if !(last == '\\' || last == '/' || bare_drive) {
        r.append("\\");
    }
    r.append(name);
    r
}

/// The directory of the running executable, or `.` when it is unknown.
pub open spec fn exe_dir_or_here(exe_dir: Option<Seq<char>>) -> Seq<char> {
    match exe_dir {
        Some(d) => d,
        None => "."@,
    }
}

fn dir_or_here(dir: Option<&str>) -> (r: String)
    ensures
        r@ == exe_dir_or_here(
            match dir {
                Some(d) => Some(d@),
                None => None,
            },
        ),
{
    match dir {
        Some(d) => d.to_owned(),
        None => ".".to_owned(),
    }
}

/// `setting.conf` in the executable's directory.
pub fn config_path(exe_dir: Option<&str>) -> (r: String)
    ensures
        r@ == joined(
            exe_dir_or_here(
                match exe_dir {
                    Some(d) => Some(d@),
                    None => None,
                },
            ),
            "setting.conf"@,
        ),
{
    let dir = dir_or_here(exe_dir);
    join(dir.as_str(), "setting.conf")
}

/// `apps.json` in the executable's directory.
pub fn apps_path(exe_dir: Option<&str>) -> (r: String)
    ensures
        r@ == joined(
            exe_dir_or_here(
                match exe_dir {
                    Some(d) => Some(d@),
                    None => None,
                },
            ),
            "apps.json"@,
        ),
{
    let dir = dir_or_here(exe_dir);
    join(dir.as_str(), "apps.json")
}

/// The configuration directory: `conf` beside the executable in a portable
/// install whose directory is known, else `WinNasLauncher\conf` under
/// `%APPDATA%` (under `.` when that variable is unset).
pub open spec fn conf_dir_of(portable: bool, exe_dir: Option<Seq<char>>, appdata: Option<
    Seq<char>,
>) -> Seq<char> {
    if portable && exe_dir is Some {
        joined(exe_dir->0, "conf"@)
    } else {
        let base = match appdata {
            Some(a) => a,
            None => "."@,
        };
        joined(joined(base, "WinNasLauncher"@), "conf"@)
    }
}

/// The configuration directory, given whether `portable.flag` sits beside
/// the executable, the executable's directory and `%APPDATA%`.
pub fn conf_dir(portable: bool, exe_dir: Option<&str>, appdata: Option<&str>) -> (r: String)
    ensures
        r@ == conf_dir_of(
            portable,
            match exe_dir {
                Some(d) => Some(d@),
                None => None,
            },
            match appdata {
                Some(a) => Some(a@),
                None => None,
            },
        ),
{
    if portable {
        if let Some(d) = exe_dir {
            return join(d, "conf");
        }
    }
    let base = match appdata {
        Some(a) => a.to_owned(),
        None => ".".to_owned(),
    };
    let app = join(base.as_str(), "WinNasLauncher");
    join(app.as_str(), "conf")
}

/// `state_snapshot.json` in the configuration directory.
pub fn snapshot_path(conf_dir: &str) -> (r: String)
    ensures
        r@ == joined(conf_dir@, "state_snapshot.json"@),
{
    join(conf_dir, "state_snapshot.json")
}

/// The `logs` directory in the configuration directory.
pub fn log_dir(conf_dir: &str) -> (r: String)
    ensures
        r@ == joined(conf_dir@, "logs"@),
{
    join(conf_dir, "logs")
}

/// `powercfg.exe` in the `System32` directory of the Windows directory
/// (`%SystemRoot%`, or `C:\\Windows` when that variable is unset).
pub fn powercfg_path(system_root: Option<&str>) -> (r: String)
    ensures
        r@ == joined(
            joined(
                match system_root {
                    Some(d) => d@,
                    None => "C:\\Windows"@,
                },
                "System32"@,
            ),
            "powercfg.exe"@,
        ),
{
    let root = match system_root {
        Some(d) => d.to_owned(),
        None => "C:\\Windows".to_owned(),
    };
    let sys = join(root.as_str(), "System32");
    join(sys.as_str(), "powercfg.exe")
}

} // verus!
