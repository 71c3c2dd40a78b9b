//! Where the program keeps its data: beside the executable in portable
//! mode, otherwise in its folder under the user's application data, with
//! the files of older versions carried over once.

use vstd::prelude::*;

use crate::foreground::is_separator;
use crate::text::{append_str, chars_of, push_char, string_of};

verus! {

/// Whether `s` is a bare drive prefix such as `C:`.
pub open spec fn is_drive_only(s: Seq<char>) -> bool {
    &&& s.len() == 2
    &&& s[1] == ':'
    &&& (('A' <= s[0] && s[0] <= 'Z') || ('a' <= s[0] && s[0] <= 'z'))
}

/// A single file or folder name: no separator and no drive colon.
pub open spec fn is_plain_name(name: Seq<char>) -> bool {
    forall|i: int| 0 <= i < name.len() ==> !is_separator(#[trigger] name[i]) && name[i] != ':'
}

/// `base` joined with the plain name `name`, as a Windows path is joined
/// (`PathBuf::join`): a `\` goes between them unless `base` is empty, already
/// ends with a separator, or is a bare drive such as `C:`.
pub open spec fn join_spec(base: Seq<char>, name: Seq<char>) -> Seq<char> {
    if base.len() == 0 || is_separator(base.last()) || is_drive_only(base) {
        base + name
    } else {
        base + seq!['\\'] + name
    }
}

/// `base` joined with the plain name `name` (see `join_spec`).
pub fn join_path(base: &str, name: &str) -> (r: String)
    requires
        is_plain_name(name@),
    ensures
        r@ == join_spec(base@, name@),
{
    let cs = chars_of(base);
    let n = cs.len();
    let need_sep = if n == 0 {
        false
    } else {
        let last = cs[n - 1];
        if last == '\\' || last == '/' {
            false
        } else if n == 2 && cs[1] == ':' && (('A' <= cs[0] && cs[0] <= 'Z') || ('a' <= cs[0]
            && cs[0] <= 'z')) {
            false
        } else {
            true
        }
    };
    let mut r = string_of(base);
    if need_sep {
        push_char(&mut r, '\\');
    }
    append_str(&mut r, name);
    r
}

/// The folder, under the user's application data, that holds the data of
/// an installed copy.
pub open spec fn app_folder_name() -> Seq<char> {
    "com.butter-scroll.app"@
}

/// The data folder: the executable's folder in portable mode; otherwise
/// the program's folder under the application data folder (`app_data`,
/// when known), falling back to the executable's folder.
pub open spec fn data_dir_spec(portable: bool, app_data: Option<Seq<char>>, exe_dir: Seq<char>) -> Seq<
    char,
> {
    if portable {
        exe_dir
    } else {
        match app_data {
            Some(a) => join_spec(a, app_folder_name()),
            None => exe_dir,
        }
    }
}

/// The data folder (see `data_dir_spec`).
pub fn data_dir(portable: bool, app_data: Option<&str>, exe_dir: &str) -> (r: String)
    ensures
        r@ == data_dir_spec(
            portable,
            match app_data {
                Some(a) => Some(a@),
                None => None,
            },
            exe_dir@,
        ),
{
    if portable {
        return string_of(exe_dir);
    }
    match app_data {
        Some(a) => {
            let name = "com.butter-scroll.app";
            proof {
                reveal_strlit("com.butter-scroll.app");
            }
            join_path(a, name)
        },
        None => string_of(exe_dir),
    }
}

/// The configuration file inside the folder `dir`.
pub fn config_file_path(dir: &str) -> (r: String)
    ensures
        r@ == join_spec(dir@, "config.toml"@),
{
    proof {
        reveal_strlit("config.toml");
    }
    join_path(dir, "config.toml")
}

/// The per-application threshold cache inside the folder `dir`.
pub fn threshold_cache_file_path(dir: &str) -> (r: String)
    ensures
        r@ == join_spec(dir@, "threshold_cache.json"@),
{
    proof {
        reveal_strlit("threshold_cache.json");
    }
    join_path(dir, "threshold_cache.json")
}

/// Whether a file of an older version, kept beside the executable, is to be
/// copied to the data folder: only for an installed copy, when the file is
/// missing from the data folder and the old one exists.
pub fn migrates(portable: bool, target_exists: bool, old_exists: bool) -> (r: bool)
    ensures
        r == (!portable && !target_exists && old_exists),
{
    !portable && !target_exists && old_exists
}

/// Whether looking for updates is allowed: it is refused in portable mode,
/// which is updated by hand.
pub fn update_check_allowed(portable: bool) -> (r: Result<(), String>)
    ensures
        portable <==> r is Err,
        r matches Err(e) ==> e@ == "Auto-update is not available in portable mode."@,
{
    if portable {
        Err(string_of("Auto-update is not available in portable mode."))
    } else {
        Ok(())
    }
}

} // verus!
