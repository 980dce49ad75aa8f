//! The key strokes that emit a key combo, and the accessibility-permission check.

use vstd::prelude::*;

use crate::config::action::{Key, KeyCombo};

verus! {

/// How a key is struck.
#[derive(Debug, Clone, Copy, PartialEq, Eq, Structural)]
pub enum Direction {
    Press,
    Click,
    Release,
}

/// One key stroke.
#[derive(Debug, Clone, Copy, PartialEq, Eq, Structural)]
pub struct KeyStroke {
    pub key: Key,
    pub direction: Direction,
}

/// The strokes that emit a combo: press each modifier in order, click the
/// primary key, release the modifiers in reverse order.
pub open spec fn combo_strokes(modifiers: Seq<Key>, key: Key) -> Seq<KeyStroke> {
    modifiers.map_values(|m: Key| KeyStroke { key: m, direction: Direction::Press })
        + seq![KeyStroke { key, direction: Direction::Click }]
        + modifiers.reverse().map_values(|m: Key| KeyStroke { key: m, direction: Direction::Release })
}

/// The key strokes that send `combo`.
pub fn send_combo_strokes(combo: &KeyCombo) -> (r: Vec<KeyStroke>)
    ensures
        r@ == combo_strokes(combo.modifiers@, combo.key),
{
    let mods = &combo.modifiers;
    let mut r: Vec<KeyStroke> = Vec::new();
    let mut i: usize = 0;
    while i < mods.len()
        invariant
            0 <= i <= mods@.len(),
            r@ == mods@.take(i as int).map_values(|m: Key| KeyStroke { key: m, direction: Direction::Press }),
        decreases mods.len() - i,
    {
        r.push(KeyStroke { key: mods[i], direction: Direction::Press });
        i = i + 1;
        assert(r@ =~= mods@.take(i as int).map_values(|m: Key| KeyStroke { key: m, direction: Direction::Press }));
    }
    assert(mods@.take(i as int) =~= mods@);
    r.push(KeyStroke { key: combo.key, direction: Direction::Click });
    let ghost head = r@;
    let mut j: usize = mods.len();
    while j > 0
        invariant
            0 <= j <= mods@.len(),
            r@ == head + mods@.reverse().take(mods@.len() - j).map_values(
                |m: Key| KeyStroke { key: m, direction: Direction::Release },
            ),
        decreases j,
    {
        j = j - 1;
        r.push(KeyStroke { key: mods[j], direction: Direction::Release });
        assert(mods@.reverse()[mods@.len() - j - 1] == mods@[j as int]);
        assert(r@ =~= head + mods@.reverse().take(mods@.len() - j).map_values(
            |m: Key| KeyStroke { key: m, direction: Direction::Release },
        ));
    }
    assert(mods@.reverse().take(mods@.len() as int) =~= mods@.reverse());
    assert(r@ =~= combo_strokes(combo.modifiers@, combo.key));
    r
}

/// The process lacks the accessibility permission that key synthesis needs.
#[derive(Debug, Clone, Copy, PartialEq, Eq)]
pub struct AccessibilityError;

impl AccessibilityError {
    /// The human-readable description of the error.
    pub fn message(&self) -> (m: &'static str)
        ensures
            m@ == "Accessibility permission is required. Grant access in System Settings → Privacy & Security → Accessibility for this process (or its parent app)."@,
    {
        "Accessibility permission is required. Grant access in System Settings → Privacy & Security → Accessibility for this process (or its parent app)."
    }
}

/// Refuses to go on when the host requires an accessibility permission that
/// the process lacks; `process_trusted` is whether the host grants it (always
/// true on hosts that require none).
pub fn ensure_accessibility_permission(process_trusted: bool) -> (r: Result<(), AccessibilityError>)
    ensures
        r is Ok == process_trusted,
{
    if !process_trusted {
        return Err(AccessibilityError);
    }
    Ok(())
}

} // verus!
