//! Native window opacity: the capability, the percentage-to-alpha rule and the
//! decisions about the window's extended style. The native calls stay with the adapter.
use vstd::prelude::*;

verus! {

#[derive(Clone, Copy, Debug, PartialEq, Eq, Structural)]
pub enum WindowOpacitySupport {
    Supported,
    Unsupported,
}

#[derive(Clone, Copy, Debug, PartialEq, Eq, Structural)]
pub enum WindowOpacityError {
    Unsupported,
    InvalidOpacity,
    InvalidWindowHandle,
    NativeOperationFailed,
}

impl WindowOpacityError {
    pub fn message(&self) -> (s: &'static str)
        ensures
            s@ == match self {
                WindowOpacityError::Unsupported => "native window opacity is unsupported on this platform"@,
                WindowOpacityError::InvalidOpacity => "window opacity must be between 70 and 100"@,
                WindowOpacityError::InvalidWindowHandle => "could not obtain the native window handle"@,
                WindowOpacityError::NativeOperationFailed => "native window opacity operation failed"@,
            },
    {
        match self {
            WindowOpacityError::Unsupported => "native window opacity is unsupported on this platform",
            WindowOpacityError::InvalidOpacity => "window opacity must be between 70 and 100",
            WindowOpacityError::InvalidWindowHandle => "could not obtain the native window handle",
            WindowOpacityError::NativeOperationFailed => "native window opacity operation failed",
        }
    }
}

/// The extended-style bit that makes a window layered.
pub const WS_EX_LAYERED: isize = 0x80000;

/// What the adapter remembers of a window: its extended style before the first change.
#[derive(Debug)]
pub struct WindowOpacityState {
    initial_ex_style: Option<isize>,
}

impl Default for WindowOpacityState {
    fn default() -> (s: Self)
        ensures
            s.recorded() is None,
    {
        WindowOpacityState { initial_ex_style: None }
    }
}

impl WindowOpacityState {
    pub closed spec fn recorded(&self) -> Option<isize> {
        self.initial_ex_style
    }

    /// The style recorded before the first change, if any.
    pub fn recorded_style(&self) -> (r: Option<isize>)
        ensures
            r == self.recorded(),
    {
        self.initial_ex_style
    }

    /// Records `style` as the initial style unless one is recorded already; returns the initial style.
    pub fn record_initial_style(&mut self, style: isize) -> (r: isize)
        ensures
            old(self).recorded() matches Some(s) ==> r == s && final(self).recorded() == old(self).recorded(),
            old(self).recorded() is None ==> r == style && final(self).recorded() == Some(style),
    {
        match self.initial_ex_style {
            Some(s) => s,
            None => {
                self.initial_ex_style = Some(style);
                style
            },
        }
    }
}

/// Where path components may be separated by a backslash, which is the case on Windows
/// and on no other platform this application targets.
pub fn support_for(backslash_separates: bool) -> (r: WindowOpacitySupport)
    ensures
        r == (if backslash_separates {
            WindowOpacitySupport::Supported
        } else {
            WindowOpacitySupport::Unsupported
        }),
{
    if backslash_separates {
        WindowOpacitySupport::Supported
    } else {
        WindowOpacitySupport::Unsupported
    }
}

/// Whether this platform can make the native window translucent (Windows only): the
/// answer of `support_for` on this platform's path separator.
pub fn support() -> WindowOpacitySupport {
    support_for(crate::platform::backslash_separates_paths())
}

/// The alpha the native call takes for an opacity percentage, rounded to the nearest.
pub open spec fn alpha_of(opacity: int) -> int {
    (opacity * 255 + 50) / 100
}

/// The window alpha for an opacity between 70 and 100 percent; `None` outside that range.
pub fn opacity_to_alpha(opacity: u8) -> (r: Option<u8>)
    ensures
        (70 <= opacity <= 100) ==> r == Some(alpha_of(opacity as int) as u8),
        !(70 <= opacity <= 100) ==> r is None,
        r matches Some(a) ==> a == alpha_of(opacity as int),
{
    if opacity < 70 || opacity > 100 {
        return None;
    }
    let wide: u16 = opacity as u16;
    assert(wide * 255 + 50 <= 25550) by (nonlinear_arith)
        requires
            wide <= 100,
    ;
    let a = (wide * 255 + 50) / 100;
    assert(a <= 255);
    Some(a as u8)
}

/// A higher opacity never gives a lower alpha; the range 70..=100 maps onto 179..=255.
pub proof fn lemma_alpha_monotone(a: int, b: int)
    requires
        70 <= a <= b <= 100,
    ensures
        alpha_of(a) <= alpha_of(b),
        179 <= alpha_of(a) <= 255,
{
    assert(a * 255 + 50 <= b * 255 + 50) by (nonlinear_arith)
        requires
            a <= b,
    ;
    assert(70 * 255 + 50 <= a * 255 + 50 <= 100 * 255 + 50) by (nonlinear_arith)
        requires
            70 <= a <= 100,
    ;
    vstd::arithmetic::div_mod::lemma_div_is_ordered(a * 255 + 50, b * 255 + 50, 100);
    vstd::arithmetic::div_mod::lemma_div_is_ordered(70int * 255 + 50, a * 255 + 50, 100);
    vstd::arithmetic::div_mod::lemma_div_is_ordered(a * 255 + 50, 100int * 255 + 50, 100);
}

/// The extended style that makes the window layered, keeping its other bits.
pub fn layered_style(initial: isize) -> (r: isize)
    ensures
        r == initial | WS_EX_LAYERED,
{
    initial | WS_EX_LAYERED
}

/// At full opacity a window that was not layered before gets its initial style back.
pub fn restores_initial_style(opacity: u8, initial: isize) -> (r: bool)
    ensures
        r == (opacity == 100 && initial & WS_EX_LAYERED == 0),
{
    opacity == 100 && initial & WS_EX_LAYERED == 0
}

} // verus!
