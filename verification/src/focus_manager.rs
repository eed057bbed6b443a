use vstd::prelude::*;
use std::sync::atomic::{AtomicBool, Ordering};
use std::sync::Arc;

verus! {

/// Shared window-focus state; clones see and change the same flag.
pub struct FocusManager {
    focused: Arc<AtomicBool>,
}

impl FocusManager {
    /// A new manager, initially focused.
    pub fn new() -> (m: FocusManager) {
        FocusManager { focused: Arc::new(AtomicBool::new(true)) }
    }

    /// Whether the window is focused.
    pub fn is_focused(&self) -> (b: bool) {
        self.focused.load(Ordering::Relaxed)
    }

    /// Records whether the window is focused.
    pub fn set_focused(&self, focused: bool) {
        let _was_focused = self.focused.swap(focused, Ordering::Relaxed);
    }
}

impl Default for FocusManager {
    fn default() -> (m: FocusManager) {
        FocusManager::new()
    }
}

impl Clone for FocusManager {
    /// Another handle on the same flag.
    fn clone(&self) -> (m: FocusManager) {
        FocusManager { focused: Arc::clone(&self.focused) }
    }
}

} // verus!
