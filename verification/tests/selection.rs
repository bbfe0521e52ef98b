use rmf_site_picking::interaction::{InteractionState, Selectable};
use rmf_site_picking::select::{
    Hover, Hovered, Hovering, Select, Selected, Selection, SelectionBlockers, SelectionCandidate,
};

#[test]
fn selectable_new_is_selectable() {
    let s = Selectable::new(42);
    assert!(s.is_selectable);
    assert_eq!(s.element, 42);
}

#[test]
fn interaction_state_defaults_to_disable() {
    assert_eq!(InteractionState::default(), InteractionState::Disable);
}

#[test]
fn selected_default_shows_no_cue() {
    let s = Selected::default();
    assert!(!s.is_selected);
    assert!(s.support_selected.is_empty());
    assert!(!s.cue());
}

#[test]
fn selected_cue_when_selected() {
    let mut s = Selected::default();
    s.is_selected = true;
    assert!(s.cue());
}

#[test]
fn selected_cue_when_supporting_another_selection() {
    let mut s = Selected::default();
    s.support_selected.insert(7);
    assert!(!s.is_selected);
    assert!(s.cue());
    s.support_selected.remove(&7);
    assert!(!s.cue());
}

#[test]
fn hovered_default_shows_no_cue() {
    let h = Hovered::default();
    assert!(!h.is_hovered);
    assert!(h.support_hovering.is_empty());
    assert!(!h.cue());
}

#[test]
fn hovered_cue_when_hovered_or_supporting() {
    let mut h = Hovered::default();
    h.is_hovered = true;
    assert!(h.cue());
    let mut g = Hovered::default();
    g.support_hovering.insert(3);
    g.support_hovering.insert(4);
    assert!(g.cue());
}

#[test]
fn selection_blockers_block_only_while_dragging() {
    let mut b = SelectionBlockers::default();
    assert!(!b.dragging);
    assert!(!b.blocking());
    b.dragging = true;
    assert!(b.blocking());
}

#[test]
fn resources_and_events_default_to_nothing() {
    assert_eq!(Selection::default(), Selection(None));
    assert_eq!(Hovering::default(), Hovering(None));
    assert_eq!(Hover::default(), Hover(None));
    assert_eq!(Select::default(), Select(None));
}

#[test]
fn selection_candidate_constructors() {
    let c = SelectionCandidate::new(5);
    assert_eq!(c.candidate, 5);
    assert!(!c.provisional);
    let p = SelectionCandidate::provisional(6);
    assert_eq!(p.candidate, 6);
    assert!(p.provisional);
}

#[test]
fn select_new_requests_a_plain_selection() {
    assert_eq!(
        Select::new(Some(9)),
        Select(Some(SelectionCandidate { candidate: 9, provisional: false }))
    );
    assert_eq!(Select::new(None), Select(None));
}

#[test]
fn select_provisional_marks_the_candidate() {
    assert_eq!(
        Select::provisional(11),
        Select(Some(SelectionCandidate { candidate: 11, provisional: true }))
    );
}
