use window_switcher::filter::{is_taskbar_window, WS_CAPTION};

const WS_BORDER: u32 = 0x0080_0000;
const WS_VISIBLE_STYLE: u32 = 0x1000_0000;

#[test]
fn visible_unowned_captioned_window_is_eligible() {
    assert!(is_taskbar_window(true, false, WS_CAPTION));
    assert!(is_taskbar_window(true, false, WS_CAPTION | WS_VISIBLE_STYLE));
}

#[test]
fn one_caption_bit_suffices() {
    assert!(is_taskbar_window(true, false, WS_BORDER));
}

#[test]
fn hidden_window_is_not_eligible() {
    assert!(!is_taskbar_window(false, false, WS_CAPTION));
}

#[test]
fn owned_window_is_not_eligible() {
    assert!(!is_taskbar_window(true, true, WS_CAPTION));
}

#[test]
fn uncaptioned_window_is_not_eligible_whatever_else() {
    for visible in [false, true] {
        for owned in [false, true] {
            assert!(!is_taskbar_window(visible, owned, 0));
            assert!(!is_taskbar_window(visible, owned, WS_VISIBLE_STYLE));
        }
    }
}
