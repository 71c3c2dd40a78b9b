use vstd::prelude::*;

use crate::text::{chars_of, eq_ignore_ascii_case, eq_ignore_ascii_case_spec, string_from_chars};

verus! {

/// Foreground application identity.
#[derive(Debug)]
pub struct ForegroundApp {
    pub exe_path: String,
    pub app_name: String,
}

impl Clone for ForegroundApp {
    fn clone(&self) -> (r: Self)
        ensures
            r.exe_path@ == self.exe_path@,
            r.app_name@ == self.app_name@,
    {
        ForegroundApp { exe_path: self.exe_path.clone(), app_name: self.app_name.clone() }
    }
}

/// A path separator of either platform.
pub open spec fn is_separator(c: char) -> bool {
    c == '\\' || c == '/'
}

/// What follows the last separator of `s` (all of `s` when there is none).
pub open spec fn last_segment(s: Seq<char>) -> Seq<char>
    decreases s.len(),
{
    if s.len() == 0 {
        s
    } else if is_separator(s.last()) {
        Seq::empty()
    } else {
        last_segment(s.drop_last()).push(s.last())
    }
}

/// Index of the last `c` in `s`, or -1.
pub open spec fn last_index_of(s: Seq<char>, c: char) -> int
    decreases s.len(),
{
    if s.len() == 0 {
        -1
    } else if s.last() == c {
        s.len() - 1
    } else {
        last_index_of(s.drop_last(), c)
    }
}

/// The stem of a file name (as `Path::file_stem` gives it, empty when
/// there is none): nothing for an empty name, `.` or `..`; otherwise the
/// name without its last extension, where a name whose only dot leads it
/// has no extension.
pub open spec fn file_stem_spec(name: Seq<char>) -> Seq<char> {
    if name.len() == 0 || name == "."@ || name == ".."@ {
        Seq::empty()
    } else {
        let d = last_index_of(name, '.');
        if d <= 0 {
            name
        } else {
            name.take(d)
        }
    }
}

/// A segment without its drive prefix (`C:` in `C:notepad.exe`), which a
/// Windows path does not count as part of the file name.
pub open spec fn without_drive(segment: Seq<char>) -> Seq<char> {
    if segment.len() >= 2 && segment[1] == ':' && (('A' <= segment[0] && segment[0] <= 'Z') || (
    'a' <= segment[0] && segment[0] <= 'z')) {
        segment.skip(2)
    } else {
        segment
    }
}

/// The display name of an application: the stem of the file name of its
/// executable path, the last component without any drive prefix
/// (`C:\Windows\notepad.exe` and `C:notepad.exe` give `notepad`).
pub open spec fn app_name_spec(exe_path: Seq<char>) -> Seq<char> {
    file_stem_spec(without_drive(last_segment(exe_path)))
}

proof fn lemma_last_segment_from(s: Seq<char>, start: int)
    requires
        0 <= start <= s.len(),
        start == 0 || is_separator(s[start - 1]),
        forall|j: int| start <= j < s.len() ==> !is_separator(s[j]),
    ensures
        last_segment(s) == s.subrange(start, s.len() as int),
    decreases s.len(),
{
    if s.len() == start {
        if s.len() > 0 {
            assert(is_separator(s.last()));
        }
        assert(s.subrange(start, s.len() as int) =~= Seq::<char>::empty());
    } else {
        lemma_last_segment_from(s.drop_last(), start);
        assert(s.subrange(start, s.len() as int) =~= s.drop_last().subrange(
            start,
            s.len() - 1,
        ).push(s.last()));
    }
}

proof fn lemma_last_index_of(s: Seq<char>, c: char, k: int)
    requires
        -1 <= k < s.len(),
        k >= 0 ==> s[k] == c,
        forall|j: int| k < j < s.len() ==> s[j] != c,
    ensures
        last_index_of(s, c) == k,
    decreases s.len(),
{
    if s.len() > 0 && k < s.len() - 1 {
        lemma_last_index_of(s.drop_last(), c, k);
    }
}

/// Extracts the application name from an executable path.
pub fn app_name_from_exe_path(exe_path: &str) -> (r: String)
    ensures
        r@ == app_name_spec(exe_path@),
{
    let cs = chars_of(exe_path);
    let n = cs.len();
    let mut start = n;
    while start > 0 && !(cs[start - 1] == '\\' || cs[start - 1] == '/')
        invariant
            n == cs.len(),
            start <= n,
            forall|j: int| start <= j < n ==> !is_separator(cs@[j]),
        decreases start,
    {
        start = start - 1;
    }
    proof {
        lemma_last_segment_from(cs@, start as int);
    }
    let has_drive = n - start >= 2 && cs[start + 1] == ':' && (('A' <= cs[start] && cs[start]
        <= 'Z') || ('a' <= cs[start] && cs[start] <= 'z'));
    let from = if has_drive {
        start + 2
    } else {
        start
    };
    let mut seg: Vec<char> = Vec::new();
    let mut i = from;
    while i < n
        invariant
            n == cs.len(),
            from <= i <= n,
            seg@ == cs@.subrange(from as int, i as int),
        decreases n - i,
    {
        seg.push(cs[i]);
        assert(cs@.subrange(from as int, i + 1) =~= cs@.subrange(from as int, i as int).push(
            cs@[i as int],
        ));
        i = i + 1;
    }
    assert(seg@ =~= without_drive(cs@.subrange(start as int, n as int)));
    let m = seg.len();
    let is_dot = m == 1 && seg[0] == '.';
    let is_dot_dot = m == 2 && seg[0] == '.' && seg[1] == '.';
    proof {
        reveal_strlit(".");
        reveal_strlit("..");
        if seg@ == "."@ {
            assert(seg@[0] == '.');
        }
        if seg@ == ".."@ {
            assert(seg@[0] == '.' && seg@[1] == '.');
        }
        if is_dot {
            assert(seg@ =~= "."@);
        }
        if is_dot_dot {
            assert(seg@ =~= ".."@);
        }
    }
    if m == 0 || is_dot || is_dot_dot {
        return String::new();
    }
    let mut d = m;
    while d > 0 && seg[d - 1] != '.'
        invariant
            m == seg.len(),
            d <= m,
            forall|j: int| d <= j < m ==> seg@[j] != '.',
        decreases d,
    {
        d = d - 1;
    }
    proof {
        lemma_last_index_of(seg@, '.', d - 1);
    }
    if d <= 1 {
        return string_from_chars(&seg);
    }
    let mut stem: Vec<char> = Vec::new();
    let mut k: usize = 0;
    while k < d - 1
        invariant
            m == seg.len(),
            1 < d <= m,
            k <= d - 1,
            stem@ == seg@.take(k as int),
        decreases d - 1 - k,
    {
        stem.push(seg[k]);
        assert(seg@.take(k + 1) =~= seg@.take(k as int).push(seg@[k as int]));
        k = k + 1;
    }
    string_from_chars(&stem)
}

impl ForegroundApp {
    /// The foreground application running `exe_path`, named after it.
    pub fn from_exe_path(exe_path: String) -> (r: Option<Self>)
        ensures
            r matches Some(app) && app.exe_path@ == exe_path@ && app.app_name@ == app_name_spec(
                exe_path@,
            ),
    {
        let app_name = app_name_from_exe_path(exe_path.as_str());
        Some(ForegroundApp { exe_path, app_name })
    }
}

/// Captures the current foreground application.
pub trait ForegroundCapture: Send + Sync {
    /// Whether `r` is a result this capture may report.
    spec fn captures(&self, r: Option<ForegroundApp>) -> bool;

    fn capture(&self) -> (r: Option<ForegroundApp>)
        ensures
            self.captures(r),
    ;
}

/// Whether `exe_path` is this program's own executable (`current_exe`,
/// when known), compared without ASCII case.
pub open spec fn is_self_exe_spec(exe_path: Seq<char>, current_exe: Option<Seq<char>>) -> bool {
    match current_exe {
        Some(c) => eq_ignore_ascii_case_spec(c, exe_path),
        None => false,
    }
}

/// Whether `exe_path` is this program's own executable.
pub fn is_self_exe(exe_path: &str, current_exe: Option<&str>) -> (r: bool)
    ensures
        r == is_self_exe_spec(
            exe_path@,
            match current_exe {
                Some(c) => Some(c@),
                None => None,
            },
        ),
{
    match current_exe {
        Some(c) => eq_ignore_ascii_case(c, exe_path),
        None => false,
    }
}

/// Drops a captured application that is this program itself.
pub fn filter_self(app: Option<ForegroundApp>, current_exe: Option<&str>) -> (r: Option<ForegroundApp>)
    ensures
        match app {
            Some(a) => if is_self_exe_spec(
                a.exe_path@,
                match current_exe {
                    Some(c) => Some(c@),
                    None => None,
                },
            ) {
                r is None
            } else {
                r == Some(a)
            },
            None => r is None,
        },
{
    match app {
        Some(a) => {
            if is_self_exe(a.exe_path.as_str(), current_exe) {
                None
            } else {
                Some(a)
            }
        },
        None => None,
    }
}

/// `app`, unless it is this program itself.
pub open spec fn filtered_spec(app: Option<ForegroundApp>, current_exe: Option<Seq<char>>) -> Option<
    ForegroundApp,
> {
    match app {
        Some(a) => if is_self_exe_spec(a.exe_path@, current_exe) {
            None
        } else {
            Some(a)
        },
        None => None,
    }
}

/// Captures the foreground application through `capture`, leaving out this
/// program itself (`current_exe` is its executable path, when known): the
/// result is what `capture` reported, or nothing when that is this program.
pub fn capture_filtered<C: ForegroundCapture>(capture: &C, current_exe: Option<&str>) -> (r: Option<
    ForegroundApp,
>)
    ensures
        exists|c: Option<ForegroundApp>|
            capture.captures(c) && r == filtered_spec(
                c,
                match current_exe {
                    Some(x) => Some(x@),
                    None => None,
                },
            ),
        r matches Some(a) ==> !is_self_exe_spec(
            a.exe_path@,
            match current_exe {
                Some(c) => Some(c@),
                None => None,
            },
        ),
{
    let captured = capture.capture();
    let ghost c = captured;
    let r = filter_self(captured, current_exe);
    assert(capture.captures(c) && r == filtered_spec(
        c,
        match current_exe {
            Some(x) => Some(x@),
            None => None,
        },
    ));
    r
}

/// A capture that reports a fixed result.
pub struct MockForegroundCapture {
    pub result: Option<ForegroundApp>,
}

impl ForegroundCapture for MockForegroundCapture {
    /// The fixed result (paths and names as text).
    open spec fn captures(&self, r: Option<ForegroundApp>) -> bool {
        match (r, self.result) {
            (Some(a), Some(b)) => a.exe_path@ == b.exe_path@ && a.app_name@ == b.app_name@,
            (None, None) => true,
            _ => false,
        }
    }

    fn capture(&self) -> (r: Option<ForegroundApp>) {
        match &self.result {
            Some(a) => Some(a.clone()),
            None => None,
        }
    }
}

/// Foreground capture on platforms without a foreground-window API:
/// reports no application.
pub struct WindowsForegroundCapture;

impl WindowsForegroundCapture {
    pub fn new() -> (r: Self) {
        WindowsForegroundCapture
    }
}

impl ForegroundCapture for WindowsForegroundCapture {
    /// Nothing is ever reported.
    open spec fn captures(&self, r: Option<ForegroundApp>) -> bool {
        r is None
    }

    fn capture(&self) -> (r: Option<ForegroundApp>) {
        None
    }
}

} // verus!
