use rmf_site_picking::inspector::{inspector_cursor_hit, InspectorFilter, PointerHit, SelectableEntity};
use rmf_site_picking::interaction::Selectable;
use rmf_site_picking::select::{Hover, Select, SelectionCandidate};
use std::collections::HashMap;

fn plain(selectable: Selectable) -> SelectableEntity {
    SelectableEntity { selectable, is_preview: false, is_pending: false }
}

fn filter() -> InspectorFilter {
    let mut selectables = HashMap::new();
    selectables.insert(1, plain(Selectable::new(100)));
    selectables.insert(2, plain(Selectable { is_selectable: false, element: 200 }));
    selectables.insert(3, SelectableEntity { selectable: Selectable::new(300), is_preview: true, is_pending: false });
    selectables.insert(4, SelectableEntity { selectable: Selectable::new(400), is_preview: false, is_pending: true });
    InspectorFilter::new(selectables)
}

#[test]
fn filter_pick_gives_the_element_of_a_selectable() {
    let mut f = filter();
    assert_eq!(f.filter_pick(1), Some(100));
    // The toggle on the component is not consulted by the inspector.
    assert_eq!(f.filter_pick(2), Some(200));
}

#[test]
fn filter_pick_ignores_entities_it_cannot_select() {
    let mut f = filter();
    assert_eq!(f.filter_pick(5), None);
    let mut empty = InspectorFilter::new(HashMap::new());
    assert_eq!(empty.filter_pick(1), None);
}

#[test]
fn filter_select_passes_the_target_through() {
    let mut f = filter();
    assert_eq!(f.filter_select(77), Some(77));
}

#[test]
fn clicking_selects_what_is_hovered() {
    let mut f = filter();
    assert_eq!(
        f.on_click(Hover(Some(4))),
        Some(Select(Some(SelectionCandidate { candidate: 4, provisional: false })))
    );
}

#[test]
fn clicking_on_nothing_clears_the_selection() {
    let mut f = filter();
    assert_eq!(f.on_click(Hover(None)), Some(Select(None)));
}

fn hit(camera: u64, has_position: bool, has_direction: bool) -> PointerHit {
    PointerHit { camera, has_position, has_direction }
}

#[test]
fn cursor_follows_the_first_hit_on_the_active_camera() {
    let hits = vec![hit(1, true, true), hit(2, true, true), hit(2, true, true)];
    assert_eq!(inspector_cursor_hit(&hits, 2), Some(1));
    assert_eq!(inspector_cursor_hit(&hits, 1), Some(0));
}

#[test]
fn cursor_stays_when_the_first_hit_lacks_a_position_or_normal() {
    let hits = vec![hit(2, false, true), hit(2, true, true)];
    assert_eq!(inspector_cursor_hit(&hits, 2), None);
    let hits = vec![hit(3, true, true), hit(2, true, false), hit(2, true, true)];
    assert_eq!(inspector_cursor_hit(&hits, 2), None);
}

#[test]
fn cursor_stays_without_hits_on_the_active_camera() {
    let hits = vec![hit(1, true, true), hit(3, true, true)];
    assert_eq!(inspector_cursor_hit(&hits, 2), None);
    assert_eq!(inspector_cursor_hit(&Vec::new(), 2), None);
}

#[test]
fn clicking_on_a_picked_entity_selects_its_element() {
    let mut f = filter();
    let picked = f.filter_pick(1);
    assert_eq!(
        f.on_click(Hover(picked)),
        Some(Select(Some(SelectionCandidate { candidate: 100, provisional: false })))
    );
    let missed = f.filter_pick(5);
    assert_eq!(f.on_click(Hover(missed)), Some(Select(None)));
}

#[test]
fn cursor_ignores_hits_on_other_cameras_and_after_the_first() {
    let a = vec![hit(1, false, false), hit(2, true, true), hit(2, false, false)];
    let b = vec![hit(2, true, true), hit(3, false, true), hit(1, true, true)];
    assert_eq!(inspector_cursor_hit(&a, 2).map(|i| a[i]), Some(hit(2, true, true)));
    assert_eq!(inspector_cursor_hit(&b, 2).map(|i| b[i]), Some(hit(2, true, true)));
}

#[test]
fn filter_pick_skips_previews_and_pending_entities() {
    let mut f = filter();
    assert_eq!(f.filter_pick(3), None);
    assert_eq!(f.filter_pick(4), None);
    let picked = f.filter_pick(3);
    assert_eq!(f.on_click(Hover(picked)), Some(Select(None)));
}
