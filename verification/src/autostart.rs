use vstd::prelude::*;

use crate::text::{chars_of, push_char};

verus! {

/// Start-on-login switch.
pub trait AutoStartService: Send + Sync {
    fn is_enabled(&self) -> bool;

    fn set_enabled(&self, enabled: bool) -> Result<(), String>;
}

/// `s` without its double quotes.
pub open spec fn strip_quotes(s: Seq<char>) -> Seq<char>
    decreases s.len(),
{
    if s.len() == 0 {
        s
    } else if s.last() == '"' {
        strip_quotes(s.drop_last())
    } else {
        strip_quotes(s.drop_last()).push(s.last())
    }
}

/// The command registered to run at login: the executable path, with any
/// double quotes removed, inside double quotes (so that paths with spaces
/// survive).
pub fn quoted_command(exe_path: &str) -> (r: String)
    ensures
        r@ == seq!['"'] + strip_quotes(exe_path@) + seq!['"'],
{
    let cs = chars_of(exe_path);
    let mut r = String::new();
    push_char(&mut r, '"');
    let n = cs.len();
    let mut i: usize = 0;
    while i < n
        invariant
            n == cs.len(),
            cs@ == exe_path@,
            i <= n,
            r@ == seq!['"'] + strip_quotes(cs@.take(i as int)),
        decreases n - i,
    {
        assert(cs@.take(i + 1).drop_last() =~= cs@.take(i as int));
        if cs[i] != '"' {
            push_char(&mut r, cs[i]);
        }
        assert(r@ =~= seq!['"'] + strip_quotes(cs@.take(i + 1)));
        i = i + 1;
    }
    assert(cs@.take(n as int) =~= cs@);
    push_char(&mut r, '"');
    r
}

/// Start-on-login on platforms without a login registry: never enabled,
/// and switching it succeeds without effect.
pub struct WindowsAutoStart;

impl WindowsAutoStart {
    pub fn new(app_name: String) -> (r: Result<Self, String>)
        ensures
            r is Ok,
    {
        Ok(WindowsAutoStart)
    }
}

impl AutoStartService for WindowsAutoStart {
    fn is_enabled(&self) -> (r: bool)
        ensures
            !r,
    {
        false
    }

    fn set_enabled(&self, enabled: bool) -> (r: Result<(), String>)
        ensures
            r is Ok,
    {
        Ok(())
    }
}

} // verus!
