use crate::select::Entity;
use vstd::prelude::*;

verus! {

/// Whether the interaction tools are enabled.
#[derive(Debug, Clone, Copy, PartialEq, Eq, Structural, Hash)]
pub enum InteractionState {
    Enable,
    Disable,
}

impl Default for InteractionState {
    fn default() -> (s: Self)
        ensures
            s == InteractionState::Disable,
    {
        InteractionState::Disable
    }
}

/// Marks an entity with a mesh as an item that can be interacted with.
#[derive(Debug, Clone, Copy)]
pub struct Selectable {
    /// Toggle whether this entity is selectable
    pub is_selectable: bool,
    /// What element of the site is being selected when this entity is clicked
    pub element: Entity,
}

impl Selectable {
    pub fn new(element: Entity) -> (s: Selectable)
        ensures
            s.is_selectable,
            s.element == element,
    {
        Selectable { is_selectable: true, element }
    }
}

} // verus!
