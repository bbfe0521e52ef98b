use crate::interaction::Selectable;
use crate::select::{Entity, Hover, Select, SelectionCandidate, spec_select_new};
use std::collections::HashMap;
use vstd::prelude::*;

verus! {

broadcast use vstd::std_specs::hash::group_hash_axioms;

/// An entity that carries a `Selectable` component, as the inspector sees it.
#[derive(Debug, Clone, Copy)]
pub struct SelectableEntity {
    /// Its `Selectable` component
    pub selectable: Selectable,
    /// The entity is a preview
    pub is_preview: bool,
    /// The entity is pending
    pub is_pending: bool,
}

/// The inspector picks an entity only when it is neither a preview nor
/// pending.
pub open spec fn inspectable(e: SelectableEntity) -> bool {
    !e.is_preview && !e.is_pending
}

/// The selection filter of the inspector tool. It sees the entities that
/// carry a `Selectable` component, each with its component and whether it
/// is a preview or pending.
pub struct InspectorFilter {
    selectables: HashMap<Entity, SelectableEntity>,
}

impl View for InspectorFilter {
    type V = Map<Entity, SelectableEntity>;

    closed spec fn view(&self) -> Map<Entity, SelectableEntity> {
        self.selectables@
    }
}

/// What the inspector picks when the cursor is over `select`: the site
/// element that the entity stands for, if the entity carries a `Selectable`
/// and is neither a preview nor pending.
pub open spec fn spec_filter_pick(selectables: Map<Entity, SelectableEntity>, select: Entity) -> Option<
    Entity,
> {
    if selectables.contains_key(select) && inspectable(selectables[select]) {
        Some(selectables[select].selectable.element)
    } else {
        None
    }
}

/// The inspector picks an entity exactly when it carries a `Selectable` and
/// is neither a preview nor pending, whatever the component's toggle, and
/// then what it picks is the element that the component names.
pub proof fn lemma_filter_pick_cases(selectables: Map<Entity, SelectableEntity>, select: Entity)
    ensures
        spec_filter_pick(selectables, select) is Some <==> (selectables.contains_key(select)
            && !selectables[select].is_preview && !selectables[select].is_pending),
        spec_filter_pick(selectables, select) is Some ==> spec_filter_pick(selectables, select)->Some_0
            == selectables[select].selectable.element,
        selectables.contains_key(select) && selectables[select].is_preview ==> spec_filter_pick(
            selectables,
            select,
        ) is None,
        selectables.contains_key(select) && selectables[select].is_pending ==> spec_filter_pick(
            selectables,
            select,
        ) is None,
{
}

impl InspectorFilter {
    /// The filter over the given entities that carry a `Selectable`.
    pub fn new(selectables: HashMap<Entity, SelectableEntity>) -> (f: Self)
        ensures
            f@ == selectables@,
    {
        InspectorFilter { selectables }
    }

    pub fn filter_pick(&mut self, select: Entity) -> (r: Option<Entity>)
        ensures
            final(self)@ == old(self)@,
            r == spec_filter_pick(old(self)@, select),
            r is Some <==> (old(self)@.contains_key(select) && !old(self)@[select].is_preview
                && !old(self)@[select].is_pending),
            r is Some ==> r->Some_0 == old(self)@[select].selectable.element,
    {
        match self.selectables.get(&select) {
            Some(e) => {
                if !e.is_preview && !e.is_pending {
                    Some(e.selectable.element)
                } else {
                    None
                }
            },
            None => None,
        }
    }

    pub fn filter_select(&mut self, target: Entity) -> (r: Option<Entity>)
        ensures
            final(self)@ == old(self)@,
            r == Some(target),
    {
        Some(target)
    }

    pub fn on_click(&mut self, hovered: Hover) -> (r: Option<Select>)
        ensures
            final(self)@ == old(self)@,
            r == Some(spec_select_new(hovered.0)),
            hovered.0 is None ==> r == Some(Select(None)),
            hovered.0 is Some ==> r == Some(
                Select(Some(SelectionCandidate { candidate: hovered.0->Some_0, provisional: false })),
            ),
    {
        Some(Select::new(hovered.0))
    }
}

/// With the inspector, a click on an entity that it can pick (one that
/// carries a `Selectable` and is neither a preview nor pending) selects the
/// site element that the entity stands for, as a plain (not provisional)
/// request; a click on anything else, previews and pending entities
/// included, clears the selection.
pub proof fn lemma_click_selects_picked_element(
    selectables: Map<Entity, SelectableEntity>,
    under_cursor: Entity,
)
    ensures
        ({
            let hovered = Hover(spec_filter_pick(selectables, under_cursor));
            let pickable = selectables.contains_key(under_cursor) && inspectable(
                selectables[under_cursor],
            );
            &&& pickable ==> spec_select_new(hovered.0) == Select(
                Some(
                    SelectionCandidate {
                        candidate: selectables[under_cursor].selectable.element,
                        provisional: false,
                    },
                ),
            )
            &&& !pickable ==> spec_select_new(hovered.0) == Select(None)
        }),
{
}

/// What the inspector's cursor reads of one interaction of the pointer.
#[derive(Debug, Clone, Copy, PartialEq, Eq, Structural)]
pub struct PointerHit {
    /// The camera through which the hit was seen
    pub camera: Entity,
    /// The hit has a position
    pub has_position: bool,
    /// The hit has a normal that is a valid direction
    pub has_direction: bool,
}

/// `i` is the first of `hits` that was seen through `camera`.
pub open spec fn is_first_on(hits: Seq<PointerHit>, camera: Entity, i: int) -> bool {
    &&& 0 <= i < hits.len()
    &&& hits[i].camera == camera
    &&& forall|j: int| 0 <= j < i ==> hits[j].camera != camera
}

/// The hit can place the cursor: it has a position and a direction.
pub open spec fn places_cursor(hit: PointerHit) -> bool {
    hit.has_position && hit.has_direction
}

/// The hits of `hits` that were seen through `camera`, in their order.
pub open spec fn hits_on(hits: Seq<PointerHit>, camera: Entity) -> Seq<PointerHit>
    decreases hits.len(),
{
    if hits.len() == 0 {
        Seq::empty()
    } else if hits[0].camera == camera {
        seq![hits[0]].add(hits_on(hits.drop_first(), camera))
    } else {
        hits_on(hits.drop_first(), camera)
    }
}

/// The hit that the cursor follows among `hits`, with `camera` the active
/// camera: the first hit seen through it, if that hit can place the cursor.
pub open spec fn spec_cursor_hit(hits: Seq<PointerHit>, camera: Entity) -> Option<PointerHit> {
    let on = hits_on(hits, camera);
    if on.len() > 0 && places_cursor(on[0]) {
        Some(on[0])
    } else {
        None
    }
}

/// The first hit seen through `camera` is the first of `hits_on`, and there
/// is none exactly when no hit was seen through it.
proof fn lemma_hits_on_first(hits: Seq<PointerHit>, camera: Entity)
    ensures
        forall|i: int| #[trigger]
            is_first_on(hits, camera, i) ==> hits_on(hits, camera).len() > 0 && hits_on(
                hits,
                camera,
            )[0] == hits[i],
        (forall|j: int| 0 <= j < hits.len() ==> hits[j].camera != camera) ==> hits_on(
            hits,
            camera,
        ).len() == 0,
    decreases hits.len(),
{
    if hits.len() > 0 {
        let rest = hits.drop_first();
        lemma_hits_on_first(rest, camera);
        assert forall|i: int| #[trigger] is_first_on(hits, camera, i) implies hits_on(
            hits,
            camera,
        ).len() > 0 && hits_on(hits, camera)[0] == hits[i] by {
            if i > 0 {
                assert(hits[0].camera != camera);
                assert forall|j: int| 0 <= j < i - 1 implies rest[j].camera != camera by {
                    assert(rest[j] == hits[j + 1]);
                }
                assert(is_first_on(rest, camera, i - 1));
            }
        }
        if forall|j: int| 0 <= j < hits.len() ==> hits[j].camera != camera {
            assert(hits[0].camera != camera);
            assert forall|j: int| 0 <= j < rest.len() implies rest[j].camera != camera by {
                assert(rest[j] == hits[j + 1]);
            }
        }
    }
}

/// Only the hits seen through the active camera count: two lists of hits
/// with the same hits on the active camera, in the same order, place the
/// cursor by the same hit, or both leave it where it is.
pub proof fn lemma_cursor_ignores_other_cameras(
    a: Seq<PointerHit>,
    b: Seq<PointerHit>,
    camera: Entity,
)
    requires
        hits_on(a, camera) == hits_on(b, camera),
    ensures
        spec_cursor_hit(a, camera) == spec_cursor_hit(b, camera),
{
}

/// Only the first hit on the active camera counts: hits that come after it
/// do not change where the cursor goes.
pub proof fn lemma_cursor_ignores_later_hits(
    hits: Seq<PointerHit>,
    later: Seq<PointerHit>,
    camera: Entity,
)
    requires
        hits_on(hits, camera).len() > 0,
    ensures
        spec_cursor_hit(hits + later, camera) == spec_cursor_hit(hits, camera),
    decreases hits.len(),
{
    let all = hits + later;
    if hits[0].camera == camera {
        assert(all[0] == hits[0]);
    } else {
        assert(all[0] == hits[0]);
        assert(all.drop_first() == hits.drop_first() + later);
        lemma_cursor_ignores_later_hits(hits.drop_first(), later, camera);
    }
}

/// A hit places the cursor exactly when it has both a position and a
/// direction; the hit that the cursor follows is one seen through the
/// active camera that has both, and none is followed when the first hit on
/// the active camera lacks either.
pub proof fn lemma_cursor_needs_position_and_direction(
    hits: Seq<PointerHit>,
    camera: Entity,
    hit: PointerHit,
)
    ensures
        places_cursor(hit) <==> (hit.has_position && hit.has_direction),
        spec_cursor_hit(hits, camera) is Some ==> ({
            let h = spec_cursor_hit(hits, camera)->Some_0;
            h.camera == camera && h.has_position && h.has_direction
        }),
        (hits_on(hits, camera).len() > 0 && !(hits_on(hits, camera)[0].has_position && hits_on(
            hits,
            camera,
        )[0].has_direction)) ==> spec_cursor_hit(hits, camera) is None,
{
    if hits_on(hits, camera).len() > 0 {
        lemma_hits_on_camera(hits, camera);
    }
}

/// Every hit in `hits_on(hits, camera)` was seen through `camera`.
proof fn lemma_hits_on_camera(hits: Seq<PointerHit>, camera: Entity)
    ensures
        forall|k: int| 0 <= k < hits_on(hits, camera).len() ==> #[trigger] hits_on(hits, camera)[k].camera
            == camera,
    decreases hits.len(),
{
    if hits.len() > 0 {
        let rest = hits.drop_first();
        lemma_hits_on_camera(rest, camera);
        if hits[0].camera == camera {
            let on = hits_on(hits, camera);
            assert forall|k: int| 0 <= k < on.len() implies #[trigger] on[k].camera == camera by {
                if k > 0 {
                    assert(on[k] == hits_on(rest, camera)[k - 1]);
                }
            }
        }
    }
}

/// Which of the pointer's interactions places the inspector's cursor: the
/// first one seen through the active camera, provided it has a position and
/// a valid normal. When the first one seen through the active camera lacks
/// either, or no interaction was seen through it, the cursor stays put.
pub fn inspector_cursor_hit(hits: &Vec<PointerHit>, active_camera: Entity) -> (r: Option<usize>)
    ensures
        match r {
            Some(i) => is_first_on(hits@, active_camera, i as int) && places_cursor(hits@[i as int])
                && hits@[i as int].has_position && hits@[i as int].has_direction,
            None => forall|i: int|
                #![trigger is_first_on(hits@, active_camera, i)]
                is_first_on(hits@, active_camera, i) ==> !places_cursor(hits@[i]),
        },
        match r {
            Some(i) => hits@[i as int].camera == active_camera && (forall|j: int|
                0 <= j < i ==> hits@[j].camera != active_camera),
            None => forall|i: int|
                0 <= i < hits@.len() && #[trigger] hits@[i].camera == active_camera
                    && hits@[i].has_position && hits@[i].has_direction ==> exists|j: int|
                    0 <= j < i && hits@[j].camera == active_camera,
        },
        match r {
            Some(i) => spec_cursor_hit(hits@, active_camera) == Some(hits@[i as int]),
            None => spec_cursor_hit(hits@, active_camera) is None,
        },
{
    let mut k: usize = 0;
    while k < hits.len()
        invariant
            k <= hits.len(),
            forall|j: int| 0 <= j < k ==> hits@[j].camera != active_camera,
        decreases hits.len() - k,
    {
        let hit = hits[k];
        if hit.camera == active_camera {
            proof {
                lemma_hits_on_first(hits@, active_camera);
                assert(is_first_on(hits@, active_camera, k as int));
            }
            if hit.has_position && hit.has_direction {
                return Some(k);
            } else {
                proof {
                    assert forall|i: int| is_first_on(hits@, active_camera, i) implies i == k by {
                        if i < k {
                        } else if i > k {
                            assert(hits@[k as int].camera == active_camera);
                        }
                    }
                }
                return None;
            }
        }
        k = k + 1;
    }
    proof {
        lemma_hits_on_first(hits@, active_camera);
    }
    None
}

} // verus!
