//! Abstraction over platform key mapping.

use vstd::prelude::*;

verus! {

/// Translates platform key events into text, tracking modifier state.
/// Implemented by the embedding program over its windowing system.
pub trait KeyMapper {
    /// Record which keys are held down and which toggles are engaged.
    fn update_state(&mut self, depressed_keys: &[u32], engaged_toggles: &[u32]);

    /// The text a key stroke produces under the current state, if any.
    fn translate_keypress(&mut self, key_stroke: u32) -> Option<String>;
}

} // verus!
