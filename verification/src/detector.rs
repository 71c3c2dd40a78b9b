use vstd::prelude::*;

use crate::text::chars_of;
use crate::threshold::ThresholdMode;

verus! {

/// Window-class prefix of WPF windows, which over-scroll on small deltas.
pub const WPF_CLASS_PREFIX: &'static str = "HwndWrapper";

/// `WS_VSCROLL`: the window has a standard vertical scrollbar.
pub const WS_VSCROLL_STYLE: u32 = 0x0020_0000;

/// Whether `s` begins with `prefix`.
pub open spec fn has_prefix(s: Seq<char>, prefix: Seq<char>) -> bool {
    prefix.len() <= s.len() && s.take(prefix.len() as int) == prefix
}

/// `str::starts_with` for a string prefix.
pub fn starts_with(s: &str, prefix: &str) -> (r: bool)
    ensures
        r == has_prefix(s@, prefix@),
{
    let cs = chars_of(s);
    let ps = chars_of(prefix);
    if ps.len() > cs.len() {
        return false;
    }
    let n = ps.len();
    let mut i: usize = 0;
    while i < n
        invariant
            n == ps.len(),
            n <= cs.len(),
            cs@ == s@,
            ps@ == prefix@,
            i <= n,
            forall|j: int| 0 <= j < i ==> cs@[j] == ps@[j],
        decreases n - i,
    {
        if cs[i] != ps[i] {
            assert(s@.take(n as int)[i as int] != prefix@[i as int]);
            return false;
        }
        i = i + 1;
    }
    assert(s@.take(n as int) =~= prefix@);
    true
}

/// Whether the classification gets as far as comparing scroll positions.
pub open spec fn compares_positions(
    hwnd: isize,
    expected_positive: bool,
    class_name: Option<Seq<char>>,
    style: Option<u32>,
) -> bool {
    &&& hwnd != 0
    &&& expected_positive
    &&& class_name matches Some(c) && !has_prefix(c, WPF_CLASS_PREFIX@)
    &&& style matches Some(st) && st & WS_VSCROLL_STYLE != 0
}

/// How an application's scrolling is classified from what was observed.
///
/// `expected_positive` says that the expected scroll distance exceeds
/// `f64::EPSILON`; `legacy_limit` is the largest position change that still
/// counts as smooth (the whole part of five times the expected distance).
pub open spec fn classify_spec(
    hwnd: isize,
    expected_positive: bool,
    legacy_limit: u64,
    class_name: Option<Seq<char>>,
    style: Option<u32>,
    before_pos: Option<i32>,
    after_pos: Option<i32>,
) -> ThresholdMode {
    if hwnd == 0 || !expected_positive {
        ThresholdMode::Unknown
    } else {
        match class_name {
            None => ThresholdMode::Unknown,
            Some(c) => if has_prefix(c, WPF_CLASS_PREFIX@) {
                ThresholdMode::Legacy120
            } else {
                match style {
                    None => ThresholdMode::Unknown,
                    Some(st) => if st & WS_VSCROLL_STYLE == 0 {
                        ThresholdMode::SmoothOk
                    } else {
                        match (before_pos, after_pos) {
                            (Some(b), Some(a)) => {
                                let actual = if a - b < 0 {
                                    b - a
                                } else {
                                    a - b
                                };
                                if actual == 0 {
                                    ThresholdMode::Unknown
                                } else if actual > legacy_limit {
                                    ThresholdMode::Legacy120
                                } else {
                                    ThresholdMode::SmoothOk
                                }
                            },
                            _ => ThresholdMode::Unknown,
                        }
                    },
                }
            },
        }
    }
}

proof fn lemma_vscroll_bit(st: u32)
    ensures
        (st & 0x0020_0000u32 == 0) == ((st / 0x0020_0000u32) % 2 == 0),
{
    assert((st & 0x0020_0000u32 == 0) == ((st / 0x0020_0000u32) % 2 == 0)) by (bit_vector);
}

/// The classification rules, stated on the observations: no window, no
/// positive expected distance or no class name is inconclusive; a WPF
/// window is legacy; otherwise, with the style unknown the result is
/// inconclusive, with bit 21 of the style (`WS_VSCROLL`) clear it is smooth
/// whatever the other bits, and with it set the scroll positions decide: no
/// movement (or a missing position) is inconclusive, a movement larger than
/// `legacy_limit` is legacy, any other movement is smooth.
pub proof fn lemma_classify_rules(
    hwnd: isize,
    expected_positive: bool,
    legacy_limit: u64,
    class_name: Option<Seq<char>>,
    style: Option<u32>,
    before_pos: Option<i32>,
    after_pos: Option<i32>,
)
    ensures
        ({
            let r = classify_spec(
                hwnd,
                expected_positive,
                legacy_limit,
                class_name,
                style,
                before_pos,
                after_pos,
            );
            let considered = hwnd != 0 && expected_positive && class_name is Some;
            &&& !considered ==> r == ThresholdMode::Unknown
            &&& considered && has_prefix(class_name->0, "HwndWrapper"@) ==> r
                == ThresholdMode::Legacy120
            &&& considered && !has_prefix(class_name->0, "HwndWrapper"@) ==> match style {
                None => r == ThresholdMode::Unknown,
                Some(st) => if (st / 0x0020_0000u32) % 2 == 0 {
                    r == ThresholdMode::SmoothOk
                } else {
                    match (before_pos, after_pos) {
                        (Some(b), Some(a)) => {
                            let moved: int = if a >= b {
                                a - b
                            } else {
                                b - a
                            };
                            &&& moved == 0 ==> r == ThresholdMode::Unknown
                            &&& moved > legacy_limit ==> r == ThresholdMode::Legacy120
                            &&& 0 < moved <= legacy_limit ==> r == ThresholdMode::SmoothOk
                        },
                        _ => r == ThresholdMode::Unknown,
                    }
                },
            }
        }),
{
    reveal_strlit("HwndWrapper");
    match style {
        Some(st) => lemma_vscroll_bit(st),
        None => {},
    }
}

/// Classifies an application's scrolling from its window: WPF windows are
/// legacy; windows without a standard vertical scrollbar handle smooth
/// scrolling; otherwise the scroll position moved by one small scroll is
/// compared with the expected distance: no movement is inconclusive, more
/// than `legacy_limit` is legacy, anything else is smooth. A missing
/// window, a non-positive expected distance or a failed query is
/// inconclusive (`Unknown`).
pub fn classify_detection(
    hwnd: isize,
    expected_positive: bool,
    legacy_limit: u64,
    class_name: Option<&str>,
    style: Option<u32>,
    before_pos: Option<i32>,
    after_pos: Option<i32>,
) -> (r: ThresholdMode)
    requires
        compares_positions(
            hwnd,
            expected_positive,
            match class_name {
                Some(c) => Some(c@),
                None => None,
            },
            style,
        ) ==> (before_pos matches Some(b) && after_pos matches Some(a) ==> i32::MIN < a - b
            <= i32::MAX),
    ensures
        r == classify_spec(
            hwnd,
            expected_positive,
            legacy_limit,
            match class_name {
                Some(c) => Some(c@),
                None => None,
            },
            style,
            before_pos,
            after_pos,
        ),
{
    if hwnd == 0 || !expected_positive {
        return ThresholdMode::Unknown;
    }
    let class_name = match class_name {
        Some(name) => name,
        None => return ThresholdMode::Unknown,
    };
    if starts_with(class_name, WPF_CLASS_PREFIX) {
        return ThresholdMode::Legacy120;
    }
    let style = match style {
        Some(v) => v,
        None => return ThresholdMode::Unknown,
    };
    if style & WS_VSCROLL_STYLE == 0 {
        return ThresholdMode::SmoothOk;
    }
    let before_pos = match before_pos {
        Some(v) => v,
        None => return ThresholdMode::Unknown,
    };
    let after_pos = match after_pos {
        Some(v) => v,
        None => return ThresholdMode::Unknown,
    };
    let diff: i32 = after_pos - before_pos;
    let actual: u32 = if diff < 0 {
        (0 - diff) as u32
    } else {
        diff as u32
    };
    if actual == 0 {
        return ThresholdMode::Unknown;
    }
    if actual as u64 > legacy_limit {
        ThresholdMode::Legacy120
    } else {
        ThresholdMode::SmoothOk
    }
}

/// Scroll detection on platforms without window queries.
pub struct WindowsScrollDetector;

impl WindowsScrollDetector {
    pub fn new() -> (r: Self) {
        WindowsScrollDetector
    }
}

} // verus!
