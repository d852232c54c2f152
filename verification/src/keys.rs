//! Keystrokes as plain values, and the match between a binding and a key
//! event that keyboard shortcuts dispatch on.

use crate::text::str_eq;
use vstd::prelude::*;

verus! {

/// Which modifier keys are held.
#[derive(Debug, Clone, Copy, PartialEq, Eq, Structural)]
pub struct Modifiers {
    pub control: bool,
    pub alt: bool,
    pub shift: bool,
    /// The platform key: ⌘ on macOS.
    pub platform: bool,
    pub function: bool,
}

/// A key with its modifiers, as a binding names it or an event delivers it.
#[derive(Debug, Clone, PartialEq, Eq)]
pub struct Keystroke {
    pub modifiers: Modifiers,
    pub key: String,
}

/// The binding fires for the event: same modifiers, same key. What the key
/// types (`key_char`) depends on the keyboard layout and takes no part.
pub open spec fn spec_matches(binding: (Modifiers, Seq<char>), event: (Modifiers, Seq<char>)) -> bool {
    binding.0 == event.0 && binding.1 == event.1
}

/// Whether `binding` fires for `event`.
pub fn matches(binding: &Keystroke, event: &Keystroke) -> (r: bool)
    ensures
        r == spec_matches((binding.modifiers, binding.key@), (event.modifiers, event.key@)),
{
    binding.modifiers == event.modifiers && str_eq(binding.key.as_str(), event.key.as_str())
}

/// The first binding that fires for `event`, if any: the one whose handler
/// runs, after which the event stops propagating.
pub fn first_match(bindings: &Vec<Keystroke>, event: &Keystroke) -> (r: Option<usize>)
    ensures
        match r {
            Some(i) => i < bindings@.len() && spec_matches(
                (bindings@[i as int].modifiers, bindings@[i as int].key@),
                (event.modifiers, event.key@),
            ) && forall|j: int|
                0 <= j < i ==> !spec_matches(
                    (#[trigger] bindings@[j].modifiers, bindings@[j].key@),
                    (event.modifiers, event.key@),
                ),
            None => forall|j: int|
                0 <= j < bindings@.len() ==> !spec_matches(
                    (#[trigger] bindings@[j].modifiers, bindings@[j].key@),
                    (event.modifiers, event.key@),
                ),
        },
{
    let mut i: usize = 0;
    while i < bindings.len()
        invariant
            i <= bindings@.len(),
            forall|j: int|
                0 <= j < i ==> !spec_matches(
                    (#[trigger] bindings@[j].modifiers, bindings@[j].key@),
                    (event.modifiers, event.key@),
                ),
        decreases bindings@.len() - i,
    {
        if matches(&bindings[i], event) {
            return Some(i);
        }
        i = i + 1;
    }
    None
}

/// A binding fires exactly when every modifier agrees, Shift included,
/// and the key is the same; a difference in any one modifier, or in the
/// key, keeps it from firing.
pub proof fn lemma_match_needs_every_modifier(b: (Modifiers, Seq<char>), e: (Modifiers, Seq<char>))
    ensures
        spec_matches(b, e) <==> (b.0.control == e.0.control && b.0.alt == e.0.alt && b.0.shift
            == e.0.shift && b.0.platform == e.0.platform && b.0.function == e.0.function && b.1
            == e.1),
        b.0.shift != e.0.shift ==> !spec_matches(b, e),
        b.1 != e.1 ==> !spec_matches(b, e),
        spec_matches(e, e),
{
}

} // verus!
