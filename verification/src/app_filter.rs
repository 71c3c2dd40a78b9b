use vstd::prelude::*;

use vstd::utf8::encode_utf8;

use crate::text::{append_str, eq_ignore_ascii_case, eq_ignore_ascii_case_spec, string_of};

verus! {

/// Whether the listed applications are excluded from or the only ones
/// given smooth scrolling.
#[derive(Debug, Clone, Copy, PartialEq, Eq, Structural)]
pub enum AppFilterMode {
    Blacklist,
    Whitelist,
}

/// The per-application filter: a mode and the executable paths it lists.
#[derive(Debug)]
pub struct AppFilterConfig {
    pub mode: AppFilterMode,
    pub list: Vec<String>,
}

/// What toggling an application in the filter did.
#[derive(Debug)]
pub struct ToggleResult {
    /// `"added"` or `"removed"`.
    pub action: String,
    pub exe_path: String,
    /// `"blacklist"` or `"whitelist"`.
    pub mode: String,
    /// Number of entries in the list afterwards.
    pub list_count: usize,
}

/// Current switches, for the settings window.
#[derive(Debug, Clone, Copy, PartialEq, Eq, Structural)]
pub struct AppStatus {
    pub enabled: bool,
    pub keyboard_enabled: bool,
    pub autostart_enabled: bool,
}

/// The message given when no filter mode has been chosen.
pub open spec fn not_configured_error() -> Seq<char> {
    "App filter not configured. Please choose blacklist/whitelist mode in Settings first."@
}

/// The name of a filter mode.
pub open spec fn mode_name(mode: AppFilterMode) -> Seq<char> {
    match mode {
        AppFilterMode::Blacklist => "blacklist"@,
        AppFilterMode::Whitelist => "whitelist"@,
    }
}

/// The name of a filter mode, as the settings window shows it.
pub fn mode_label(mode: AppFilterMode) -> (r: String)
    ensures
        r@ == mode_name(mode),
{
    match mode {
        AppFilterMode::Blacklist => string_of("blacklist"),
        AppFilterMode::Whitelist => string_of("whitelist"),
    }
}

/// The paths of a list.
pub open spec fn paths(list: Seq<String>) -> Seq<Seq<char>> {
    list.map_values(|s: String| s@)
}

/// Whether some entry names `exe` (ASCII case ignored).
pub open spec fn listed(list: Seq<Seq<char>>, exe: Seq<char>) -> bool {
    exists|i: int| 0 <= i < list.len() && eq_ignore_ascii_case_spec(#[trigger] list[i], exe)
}

/// `list` without the entries that name `exe` (ASCII case ignored).
pub open spec fn without(list: Seq<Seq<char>>, exe: Seq<char>) -> Seq<Seq<char>>
    decreases list.len(),
{
    if list.len() == 0 {
        list
    } else {
        let rest = without(list.drop_last(), exe);
        if eq_ignore_ascii_case_spec(list.last(), exe) {
            rest
        } else {
            rest.push(list.last())
        }
    }
}

/// The list after toggling `exe`: its entries removed when it is listed,
/// otherwise `exe` appended.
pub open spec fn toggled(list: Seq<Seq<char>>, exe: Seq<char>) -> Seq<Seq<char>> {
    if listed(list, exe) {
        without(list, exe)
    } else {
        list.push(exe)
    }
}

proof fn lemma_without_unlisted(list: Seq<Seq<char>>, exe: Seq<char>)
    requires
        !listed(list, exe),
    ensures
        without(list, exe) == list,
    decreases list.len(),
{
    if list.len() > 0 {
        let init = list.drop_last();
        assert(!listed(init, exe)) by {
            if listed(init, exe) {
                let i = choose|i: int| 0 <= i < init.len() && eq_ignore_ascii_case_spec(init[i], exe);
                assert(list[i] == init[i]);
            }
        }
        lemma_without_unlisted(init, exe);
        assert(!eq_ignore_ascii_case_spec(list[list.len() - 1], exe));
        assert(init.push(list.last()) =~= list);
    }
}

proof fn lemma_without_unlists(list: Seq<Seq<char>>, exe: Seq<char>)
    ensures
        !listed(without(list, exe), exe),
    decreases list.len(),
{
    if list.len() > 0 {
        lemma_without_unlists(list.drop_last(), exe);
        let rest = without(list.drop_last(), exe);
        if !eq_ignore_ascii_case_spec(list.last(), exe) {
            let r = rest.push(list.last());
            assert forall|i: int| 0 <= i < r.len() implies !eq_ignore_ascii_case_spec(#[trigger] r[i], exe) by {
                if i < rest.len() {
                    assert(r[i] == rest[i]);
                }
            }
        }
    }
}

/// Toggling flips membership: a listed application is no longer listed
/// afterwards and an unlisted one is; and toggling an unlisted application
/// twice gives back the list it started from.
pub proof fn lemma_toggle_twice_restores(list: Seq<Seq<char>>, exe: Seq<char>)
    ensures
        listed(toggled(list, exe), exe) == !listed(list, exe),
        !listed(list, exe) ==> toggled(toggled(list, exe), exe) == list,
{
    lemma_without_unlists(list, exe);
    if !listed(list, exe) {
        let l2 = list.push(exe);
        assert(eq_ignore_ascii_case_spec(l2[list.len() as int], exe));
        assert(listed(l2, exe));
        assert(l2.drop_last() =~= list);
        lemma_without_unlisted(list, exe);
    }
}

/// Removes from `list` the entries that name `exe`.
fn remove_matching(list: &Vec<String>, exe: &str) -> (r: Vec<String>)
    ensures
        paths(r@) == without(paths(list@), exe@),
{
    let mut r: Vec<String> = Vec::new();
    let n = list.len();
    let mut i: usize = 0;
    while i < n
        invariant
            n == list.len(),
            i <= n,
            paths(r@) == without(paths(list@).take(i as int), exe@),
        decreases n - i,
    {
        let ghost p = paths(list@).take(i + 1);
        assert(p.drop_last() =~= paths(list@).take(i as int));
        assert(p.last() == list@[i as int]@);
        if !eq_ignore_ascii_case(list[i].as_str(), exe) {
            let ghost before = r@;
            r.push(list[i].clone());
            assert(paths(r@) =~= paths(before).push(list@[i as int]@));
        }
        i = i + 1;
    }
    assert(paths(list@).take(n as int) =~= paths(list@));
    r
}

/// Whether `list` names `exe` (ASCII case ignored).
pub fn is_listed(list: &Vec<String>, exe: &str) -> (r: bool)
    ensures
        r == listed(paths(list@), exe@),
{
    let n = list.len();
    let mut i: usize = 0;
    while i < n
        invariant
            n == list.len(),
            i <= n,
            forall|j: int| 0 <= j < i ==> !eq_ignore_ascii_case_spec(#[trigger] paths(list@)[j], exe@),
        decreases n - i,
    {
        if eq_ignore_ascii_case(list[i].as_str(), exe) {
            assert(eq_ignore_ascii_case_spec(paths(list@)[i as int], exe@));
            return true;
        }
        i = i + 1;
    }
    false
}

/// Toggles an application in the filter: when the filter lists it (ASCII
/// case ignored) every matching entry is removed, otherwise it is
/// appended. Fails, changing nothing, when no filter is configured.
pub fn toggle_app_filter_entry_in_config(app_filter: &mut Option<AppFilterConfig>, exe_path: String) -> (r:
    Result<ToggleResult, String>)
    ensures
        match *old(app_filter) {
            None => {
                &&& r matches Err(e) && e@ == not_configured_error()
                &&& *final(app_filter) is None
            },
            Some(f) => {
                let before = paths(f.list@);
                let after = toggled(before, exe_path@);
                &&& *final(app_filter) matches Some(g) && g.mode == f.mode && paths(g.list@) == after
                &&& r matches Ok(t) && {
                    &&& t.action@ == (if listed(before, exe_path@) {
                        "removed"@
                    } else {
                        "added"@
                    })
                    &&& t.exe_path@ == exe_path@
                    &&& t.mode@ == mode_name(f.mode)
                    &&& t.list_count == after.len()
                }
            },
        },
{
    match app_filter {
        None => Err(string_of(
            "App filter not configured. Please choose blacklist/whitelist mode in Settings first.",
        )),
        Some(filter) => {
            let mode = mode_label(filter.mode);
            let action = if is_listed(&filter.list, exe_path.as_str()) {
                let kept = remove_matching(&filter.list, exe_path.as_str());
                filter.list = kept;
                string_of("removed")
            } else {
                let ghost before = filter.list@;
                filter.list.push(exe_path.clone());
                assert(paths(filter.list@) =~= paths(before).push(exe_path@));
                string_of("added")
            };
            let list_count = filter.list.len();
            Ok(ToggleResult { action, exe_path, mode, list_count })
        },
    }
}

/// Bytes left as they are by URL encoding: ASCII letters and digits and
/// `-`, `.`, `_`, `~`.
pub open spec fn is_unreserved(b: u8) -> bool {
    (0x30 <= b <= 0x39) || (0x41 <= b <= 0x5a) || (0x61 <= b <= 0x7a) || b == 0x2d || b == 0x2e
        || b == 0x5f || b == 0x7e
}

/// Upper-case hexadecimal digit of a value below 16.
pub open spec fn hex_digit(v: u8) -> char {
    if v < 10 {
        (0x30 + v) as char
    } else {
        (0x41 - 10 + v) as char
    }
}

/// URL encoding of one byte: itself when unreserved, else `%XY`.
pub open spec fn percent_encode_byte(b: u8) -> Seq<char> {
    if is_unreserved(b) {
        seq![b as char]
    } else {
        seq!['%', hex_digit(b / 16), hex_digit(b % 16)]
    }
}

/// URL encoding of a byte sequence.
pub open spec fn percent_encode(bytes: Seq<u8>) -> Seq<char>
    decreases bytes.len(),
{
    if bytes.len() == 0 {
        Seq::empty()
    } else {
        percent_encode(bytes.drop_last()) + percent_encode_byte(bytes.last())
    }
}

/// Percent-encodes a string for a URL query.
///
/// Trusted: `urlencoding::encode`, whose source percent-encodes every byte
/// of the UTF-8 form of its argument except ASCII alphanumerics and
/// `-`, `.`, `_`, `~`, with upper-case hexadecimal digits.
#[verifier::external_body]
fn url_encode(data: &str) -> (r: String)
    ensures
        r@ == percent_encode(encode_utf8(data@)),
{
    urlencoding::encode(data).into_owned()
}

/// The text of a boolean, as `Display` writes it.
pub open spec fn bool_text(b: bool) -> Seq<char> {
    if b {
        "true"@
    } else {
        "false"@
    }
}

/// The page address of the confirmation window for toggling an application:
/// path and name are URL-encoded, the list flag and mode are given as is.
pub open spec fn confirm_dialog_url_spec(
    exe_path: Seq<char>,
    app_name: Seq<char>,
    in_list: bool,
    mode: Seq<char>,
) -> Seq<char> {
    "confirm-app-filter.html?exe_path="@ + percent_encode(encode_utf8(exe_path)) + "&app_name="@
        + percent_encode(encode_utf8(app_name)) + "&in_list="@ + bool_text(in_list) + "&mode="@
        + mode
}

/// Builds the address of the confirmation window for toggling an
/// application in the filter.
pub fn confirm_dialog_url(exe_path: &str, app_name: &str, in_list: bool, mode: &str) -> (r: String)
    ensures
        r@ == confirm_dialog_url_spec(exe_path@, app_name@, in_list, mode@),
{
    let mut url = string_of("confirm-app-filter.html?exe_path=");
    let path = url_encode(exe_path);
    append_str(&mut url, path.as_str());
    append_str(&mut url, "&app_name=");
    let name = url_encode(app_name);
    append_str(&mut url, name.as_str());
    append_str(&mut url, "&in_list=");
    if in_list {
        append_str(&mut url, "true");
    } else {
        append_str(&mut url, "false");
    }
    append_str(&mut url, "&mode=");
    append_str(&mut url, mode);
    url
}

} // verus!
