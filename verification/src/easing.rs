use vstd::prelude::*;

verus! {

/// Available easing curves for the scroll animation.
///
/// `Pulse` is the curve designed for scrolling; the others are standard
/// Penner ease-out curves offered for comparison.
#[derive(Debug, Clone, Copy, PartialEq, Eq, Structural)]
pub enum EasingType {
    /// Constant speed.
    Linear,
    /// Michael Herf's pulse curve (the default).
    Pulse,
    /// Cubic ease-out.
    OutCubic,
    /// Quintic ease-out.
    OutQuint,
    /// Exponential ease-out.
    OutExpo,
    /// Circular ease-out.
    OutCirc,
    /// Back ease-out (slight overshoot, then settle).
    OutBack,
}

impl Default for EasingType {
    fn default() -> (r: Self)
        ensures
            r == EasingType::Pulse,
    {
        EasingType::Pulse
    }
}

impl EasingType {
    /// Whether this curve is the pulse curve, which has its own settings.
    pub fn is_pulse(self) -> (r: bool)
        ensures
            r == (self == EasingType::Pulse),
    {
        match self {
            EasingType::Pulse => true,
            _ => false,
        }
    }

    /// All curves, in the order the settings window lists them.
    pub fn all() -> (r: Vec<EasingType>)
        ensures
            r@ == seq![
                EasingType::Pulse,
                EasingType::OutCubic,
                EasingType::OutQuint,
                EasingType::OutExpo,
                EasingType::OutCirc,
                EasingType::OutBack,
                EasingType::Linear,
            ],
    {
        let mut r = Vec::new();
        r.push(EasingType::Pulse);
        r.push(EasingType::OutCubic);
        r.push(EasingType::OutQuint);
        r.push(EasingType::OutExpo);
        r.push(EasingType::OutCirc);
        r.push(EasingType::OutBack);
        r.push(EasingType::Linear);
        r
    }
}

} // verus!
