use std::collections::HashSet;
use vstd::prelude::*;

verus! {

/// An entity of the world, identified by its bit pattern.
pub type Entity = u64;

/// The input that a selector tool is given.
pub struct SelectorInput<T>(pub T);

/// Tracks whether an element should be viewed in the selected state.
#[derive(Debug, PartialEq, Eq)]
pub struct Selected {
    /// This object has been selected
    pub is_selected: bool,
    /// Another object is selected but wants this entity to be highlighted
    pub support_selected: HashSet<Entity>,
}

impl Selected {
    /// Whether the selected cue should be shown.
    pub open spec fn spec_cue(&self) -> bool {
        self.is_selected || !self.support_selected@.is_empty()
    }

    pub fn cue(&self) -> (r: bool)
        ensures
            r == self.spec_cue(),
            r == (self.is_selected || !self.support_selected@.is_empty()),
    {
        self.is_selected || !self.support_selected.is_empty()
    }
}

/// An entity that is not selected itself and that no other selection asks to
/// highlight shows no selection cue; one that is selected, or that some other
/// selection asks to highlight, shows it.
pub proof fn lemma_selected_cue(s: Selected, other: Entity)
    ensures
        (!s.is_selected && s.support_selected@ == Set::<Entity>::empty()) ==> !s.spec_cue(),
        (s.is_selected || s.support_selected@.contains(other)) ==> s.spec_cue(),
{
}

impl Default for Selected {
    fn default() -> (s: Self)
        ensures
            !s.is_selected,
            s.support_selected@ == Set::<Entity>::empty(),
    {
        Selected { is_selected: false, support_selected: HashSet::new() }
    }
}

/// Tracks whether an element should be viewed in the hovered state for the
/// selection tool.
#[derive(Debug, PartialEq, Eq)]
pub struct Hovered {
    /// The cursor is hovering on this object specifically
    pub is_hovered: bool,
    /// The cursor is hovering on a different object which wants this entity
    /// to be highlighted.
    pub support_hovering: HashSet<Entity>,
}

impl Hovered {
    /// Whether the hover cue should be shown.
    pub open spec fn spec_cue(&self) -> bool {
        self.is_hovered || !self.support_hovering@.is_empty()
    }

    pub fn cue(&self) -> (r: bool)
        ensures
            r == self.spec_cue(),
            r == (self.is_hovered || !self.support_hovering@.is_empty()),
    {
        self.is_hovered || !self.support_hovering.is_empty()
    }
}

/// An entity that is not hovered itself and that no other hover asks to
/// highlight shows no hover cue; one that is hovered, or that some other
/// hover asks to highlight, shows it.
pub proof fn lemma_hovered_cue(h: Hovered, other: Entity)
    ensures
        (!h.is_hovered && h.support_hovering@ == Set::<Entity>::empty()) ==> !h.spec_cue(),
        (h.is_hovered || h.support_hovering@.contains(other)) ==> h.spec_cue(),
{
}

impl Default for Hovered {
    fn default() -> (s: Self)
        ensures
            !s.is_hovered,
            s.support_hovering@ == Set::<Entity>::empty(),
    {
        Hovered { is_hovered: false, support_hovering: HashSet::new() }
    }
}

/// The kinds of blockers that prevent the selection behavior from being active.
pub struct SelectionBlockers {
    /// An entity is being dragged
    pub dragging: bool,
}

impl SelectionBlockers {
    pub fn blocking(&self) -> (r: bool)
        ensures
            r == self.dragging,
    {
        self.dragging
    }
}

impl Default for SelectionBlockers {
    fn default() -> (s: Self)
        ensures
            !s.dragging,
    {
        SelectionBlockers { dragging: false }
    }
}

/// Which entity is currently selected.
#[derive(Debug, Clone, Copy, PartialEq, Eq, Structural)]
pub struct Selection(pub Option<Entity>);

impl Default for Selection {
    fn default() -> (s: Self)
        ensures
            s.0 is None,
    {
        Selection(None)
    }
}

/// Which entity is currently hovered.
#[derive(Debug, Clone, Copy, PartialEq, Eq, Structural)]
pub struct Hovering(pub Option<Entity>);

impl Default for Hovering {
    fn default() -> (s: Self)
        ensures
            s.0 is None,
    {
        Hovering(None)
    }
}

/// An entity that is being requested as a selection.
#[derive(Debug, Clone, Copy, PartialEq, Eq, Structural)]
pub struct SelectionCandidate {
    /// The entity that's being requested as a selection
    pub candidate: Entity,
    /// The entity was created specifically to be selected, so if it ends up
    /// going unused by the workflow then it should be despawned.
    pub provisional: bool,
}

impl SelectionCandidate {
    pub fn new(candidate: Entity) -> (c: SelectionCandidate)
        ensures
            c == (SelectionCandidate { candidate, provisional: false }),
    {
        SelectionCandidate { candidate, provisional: false }
    }

    pub fn provisional(candidate: Entity) -> (c: SelectionCandidate)
        ensures
            c == (SelectionCandidate { candidate, provisional: true }),
    {
        SelectionCandidate { candidate, provisional: true }
    }
}

/// A command to change the selected entity.
#[derive(Debug, Clone, Copy, PartialEq, Eq, Structural)]
pub struct Select(pub Option<SelectionCandidate>);

/// The candidate that `Select::new` makes of an optional entity: a
/// non-provisional request for it, or a request to clear the selection.
pub open spec fn spec_select_new(candidate: Option<Entity>) -> Select {
    match candidate {
        Some(c) => Select(Some(SelectionCandidate { candidate: c, provisional: false })),
        None => Select(None),
    }
}

/// A selection request made from an entity asks for exactly that entity,
/// as a plain request; made from nothing, it clears the selection.
pub proof fn lemma_select_new_requests_the_entity(c: Entity)
    ensures
        spec_select_new(Some(c)) == Select(Some(SelectionCandidate { candidate: c, provisional: false })),
        spec_select_new(Some(c)).0->Some_0.candidate == c,
        !spec_select_new(Some(c)).0->Some_0.provisional,
        spec_select_new(None) == Select(None),
{
}

impl Select {
    pub fn new(candidate: Option<Entity>) -> (s: Select)
        ensures
            s == spec_select_new(candidate),
            candidate is None ==> s == Select(None),
            candidate is Some ==> s == Select(
                Some(SelectionCandidate { candidate: candidate->Some_0, provisional: false }),
            ),
    {
        match candidate {
            Some(c) => Select(Some(SelectionCandidate::new(c))),
            None => Select(None),
        }
    }

    pub fn provisional(candidate: Entity) -> (s: Select)
        ensures
            s == Select(Some(SelectionCandidate { candidate, provisional: true })),
    {
        Select(Some(SelectionCandidate::provisional(candidate)))
    }
}

impl Default for Select {
    fn default() -> (s: Self)
        ensures
            s.0 is None,
    {
        Select(None)
    }
}

/// A command to change the hovered entity.
#[derive(Debug, Clone, Copy, PartialEq, Eq, Structural)]
pub struct Hover(pub Option<Entity>);

impl Default for Hover {
    fn default() -> (s: Self)
        ensures
            s.0 is None,
    {
        Hover(None)
    }
}

} // verus!
