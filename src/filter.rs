use vstd::prelude::*;

verus! {

/// Style flag of a window that has a title bar (border and caption bits).
pub const WS_CAPTION: u32 = 0x00C0_0000;

/// Style flag of a window that is currently maximized.
pub const WS_MAXIMIZE: u32 = 0x0100_0000;

/// Style flag of a window that is currently minimized.
pub const WS_MINIMIZE: u32 = 0x2000_0000;

/// The style carries at least one of the title-bar bits.
pub open spec fn has_caption(style: u32) -> bool {
    style & WS_CAPTION != 0
}

/// The structural part of the eligibility filter: visible, unowned, captioned.
pub open spec fn structurally_eligible(visible: bool, has_owner: bool, style: u32) -> bool {
    visible && !has_owner && has_caption(style)
}

/// Decides whether a window belongs on a taskbar, from its visibility, whether
/// it has an owner window, and its style flags.
pub fn is_taskbar_window(visible: bool, has_owner: bool, style: u32) -> (r: bool)
    ensures
        r == structurally_eligible(visible, has_owner, style),
{
    if !visible {
        return false;
    }
    if has_owner {
        return false;
    }
    style & WS_CAPTION != 0
}

} // verus!
