use crate::select::Entity;
use std::collections::HashMap;
use vstd::prelude::*;

verus! {

broadcast use vstd::std_specs::hash::group_hash_axioms;

/// Errors that can happen while attempting to show a widget.
#[derive(Debug, Clone, Copy, PartialEq, Eq, Structural)]
pub enum ShowError {
    /// The entity whose widget you are trying to show is missing from the world
    EntityMissing,
    /// There is no widget component for the entity
    WidgetMissing,
    /// The entity has a widget component, but the widget is already in use,
    /// which implies that we are trying to render the widget recursively, and
    /// that is not supported.
    Recursion,
}

/// The widget component of an entity. `W` is the executor that renders the
/// widget; it is lent out while the widget is being shown.
pub struct Widget<W> {
    inner: Option<W>,
}

impl<W> View for Widget<W> {
    type V = Option<W>;

    /// The executor, or `None` while it is lent out.
    closed spec fn view(&self) -> Option<W> {
        self.inner
    }
}

impl<W> Widget<W> {
    /// A widget component that holds the given executor, ready to be shown.
    pub fn new(inner: W) -> (w: Self)
        ensures
            w@ == Some(inner),
    {
        Widget { inner: Some(inner) }
    }
}

/// The state of one entity as far as widgets of one kind are concerned:
/// `None` when it has no widget component, `Some(None)` while its widget is
/// being shown, `Some(Some(w))` when its widget is ready with executor `w`.
pub type WidgetSlot<W> = Option<Option<W>>;

/// The entities of a world and the widget components they carry. What the
/// showing protocol reads of a world is which entities exist, which of them
/// carry a widget component of this kind, and whether that widget's executor
/// is in place; the world is held here as exactly that, a map from each
/// existing entity to its slot.
pub struct WidgetWorld<W> {
    entities: HashMap<Entity, Option<Widget<W>>>,
}

/// The slot that an entity's widget component, or its absence, stands for.
pub open spec fn slot_of<W>(component: Option<Widget<W>>) -> WidgetSlot<W> {
    match component {
        Some(w) => Some(w@),
        None => None,
    }
}

impl<W> View for WidgetWorld<W> {
    type V = Map<Entity, WidgetSlot<W>>;

    /// The entities that exist, each with its slot.
    closed spec fn view(&self) -> Map<Entity, WidgetSlot<W>> {
        self.entities@.map_values(|c: Option<Widget<W>>| slot_of(c))
    }
}

/// The first half of showing the widget of `entity`: what the world becomes
/// and what comes out. The executor is lent out of a ready widget; every other
/// case leaves the world as it was and reports why nothing can be shown.
pub open spec fn spec_begin_show<W>(world: Map<Entity, WidgetSlot<W>>, entity: Entity) -> (
    Map<Entity, WidgetSlot<W>>,
    Result<W, ShowError>,
) {
    if !world.contains_key(entity) {
        (world, Err(ShowError::EntityMissing))
    } else {
        match world[entity] {
            None => (world, Err(ShowError::WidgetMissing)),
            Some(None) => (world, Err(ShowError::Recursion)),
            Some(Some(w)) => (world.insert(entity, Some(None)), Ok(w)),
        }
    }
}

/// The second half of showing the widget of `entity`: the executor goes back
/// into the widget component if the entity still has one; otherwise it is
/// dropped and the world is left as it is.
pub open spec fn spec_end_show<W>(world: Map<Entity, WidgetSlot<W>>, entity: Entity, inner: W) -> Map<
    Entity,
    WidgetSlot<W>,
> {
    if world.contains_key(entity) && world[entity] is Some {
        world.insert(entity, Some(Some(inner)))
    } else {
        world
    }
}

/// A show gives the widget back: ending a show that began on `entity`, with
/// the executor that the beginning lent out, returns the world to what it
/// was before the show.
pub proof fn lemma_show_restores_world<W>(world: Map<Entity, WidgetSlot<W>>, entity: Entity)
    requires
        spec_begin_show(world, entity).1 is Ok,
    ensures
        spec_end_show(spec_begin_show(world, entity).0, entity, spec_begin_show(world, entity).1->Ok_0)
            == world,
{
    let w = spec_begin_show(world, entity).1->Ok_0;
    assert(spec_end_show(spec_begin_show(world, entity).0, entity, w) =~= world);
}

/// Widgets are not rendered recursively: while the widget of `entity` is
/// being shown, another attempt to show it reports `Recursion` and leaves
/// the world as it is.
pub proof fn lemma_no_recursive_show<W>(world: Map<Entity, WidgetSlot<W>>, entity: Entity)
    requires
        spec_begin_show(world, entity).1 is Ok,
    ensures
        spec_begin_show(spec_begin_show(world, entity).0, entity) == (
            spec_begin_show(world, entity).0,
            Err::<W, ShowError>(ShowError::Recursion),
        ),
{
}

/// A show that is refused changes nothing in the world, and one that goes
/// ahead changes only the slot of the entity shown.
pub proof fn lemma_show_touches_only_its_entity<W>(
    world: Map<Entity, WidgetSlot<W>>,
    entity: Entity,
    other: Entity,
    inner: W,
)
    requires
        other != entity,
    ensures
        spec_begin_show(world, entity).1 is Err ==> spec_begin_show(world, entity).0 == world,
        spec_begin_show(world, entity).0.remove(entity) == world.remove(entity),
        spec_end_show(world, entity, inner).remove(entity) == world.remove(entity),
        spec_begin_show(world, entity).0.contains_key(other) == world.contains_key(other),
        world.contains_key(other) ==> spec_begin_show(world, entity).0[other] == world[other],
{
    assert(spec_begin_show(world, entity).0.remove(entity) =~= world.remove(entity));
    assert(spec_end_show(world, entity, inner).remove(entity) =~= world.remove(entity));
}

/// A widget may show another one inside it: nested shows of two distinct
/// entities, ended in reverse order with the executors they lent out,
/// return the world to what it was.
pub proof fn lemma_nested_shows_restore_world<W>(
    world: Map<Entity, WidgetSlot<W>>,
    outer: Entity,
    inner: Entity,
)
    requires
        outer != inner,
        spec_begin_show(world, outer).1 is Ok,
        spec_begin_show(spec_begin_show(world, outer).0, inner).1 is Ok,
    ensures
        ({
            let (w1, r1) = spec_begin_show(world, outer);
            let (w2, r2) = spec_begin_show(w1, inner);
            spec_end_show(spec_end_show(w2, inner, r2->Ok_0), outer, r1->Ok_0) == world
        }),
{
    lemma_show_restores_world(spec_begin_show(world, outer).0, inner);
    lemma_show_restores_world(world, outer);
}

/// Showing the widget of `entity` when the caller knows whether the entity
/// exists: an entity that does not exist reports `EntityMissing`, and an
/// existing one that the world holds no slot for reports `WidgetMissing`;
/// both leave the world as it is. Otherwise it is `spec_begin_show`.
pub open spec fn spec_begin_show_of<W>(world: Map<Entity, WidgetSlot<W>>, entity: Entity, exists: bool) -> (
    Map<Entity, WidgetSlot<W>>,
    Result<W, ShowError>,
) {
    if !exists {
        (world, Err(ShowError::EntityMissing))
    } else if !world.contains_key(entity) {
        (world, Err(ShowError::WidgetMissing))
    } else {
        spec_begin_show(world, entity)
    }
}

/// Where the world holds a slot only for existing entities, knowing whether
/// the entity exists changes nothing: the show goes as `spec_begin_show`
/// does, except that an existing entity without a slot reports
/// `WidgetMissing` in place of `EntityMissing`. A refused show leaves the
/// world as it is.
pub proof fn lemma_begin_show_of<W>(world: Map<Entity, WidgetSlot<W>>, entity: Entity, exists: bool)
    ensures
        (exists && world.contains_key(entity)) || (!exists && !world.contains_key(entity))
            ==> spec_begin_show_of(world, entity, exists) == spec_begin_show(world, entity),
        exists && !world.contains_key(entity) ==> spec_begin_show_of(world, entity, exists) == (
            world,
            Err::<W, ShowError>(ShowError::WidgetMissing),
        ),
        spec_begin_show_of(world, entity, exists).1 is Err ==> spec_begin_show_of(
            world,
            entity,
            exists,
        ).0 == world,
{
}

/// What a show of `entity` does, case by case: a ready widget is always lent
/// out, its slot marked in use and nothing else changed; an entity that does
/// not exist, one without a widget, and one whose widget is in use are
/// refused with `EntityMissing`, `WidgetMissing` and `Recursion`, leaving
/// the world as it is.
pub proof fn lemma_begin_show_cases<W>(world: Map<Entity, WidgetSlot<W>>, entity: Entity, w: W)
    ensures
        world.contains_key(entity) && world[entity] == Some(Some(w)) ==> spec_begin_show(
            world,
            entity,
        ) == (world.insert(entity, Some(None)), Ok::<W, ShowError>(w)),
        !world.contains_key(entity) ==> spec_begin_show(world, entity) == (
            world,
            Err::<W, ShowError>(ShowError::EntityMissing),
        ),
        world.contains_key(entity) && world[entity] == None::<Option<W>> ==> spec_begin_show(
            world,
            entity,
        ) == (world, Err::<W, ShowError>(ShowError::WidgetMissing)),
        world.contains_key(entity) && world[entity] == Some(None::<W>) ==> spec_begin_show(
            world,
            entity,
        ) == (world, Err::<W, ShowError>(ShowError::Recursion)),
        spec_begin_show(world, entity).1 is Ok <==> (world.contains_key(entity)
            && world[entity] is Some && world[entity]->Some_0 is Some),
{
}

/// The same, for a caller that knows whether the entity exists: an existing
/// entity with a ready widget always has it lent out, and a missing entity
/// is always refused with `EntityMissing`.
pub proof fn lemma_begin_show_of_cases<W>(
    world: Map<Entity, WidgetSlot<W>>,
    entity: Entity,
    exists: bool,
    w: W,
)
    ensures
        exists && world.contains_key(entity) && world[entity] == Some(Some(w)) ==> spec_begin_show_of(
            world,
            entity,
            exists,
        ) == (world.insert(entity, Some(None)), Ok::<W, ShowError>(w)),
        !exists ==> spec_begin_show_of(world, entity, exists) == (
            world,
            Err::<W, ShowError>(ShowError::EntityMissing),
        ),
        exists && world.contains_key(entity) && world[entity] == Some(None::<W>)
            ==> spec_begin_show_of(world, entity, exists) == (
            world,
            Err::<W, ShowError>(ShowError::Recursion),
        ),
{
}

/// Ending a show puts the executor back only into a widget component that
/// the entity still has: the slot becomes ready with that executor and
/// nothing else changes. It never adds an entity or a widget: when the
/// entity is gone or has no widget component, the world stays as it is.
pub proof fn lemma_end_show_cases<W>(world: Map<Entity, WidgetSlot<W>>, entity: Entity, inner: W)
    ensures
        (!world.contains_key(entity) || world[entity] == None::<Option<W>>) ==> spec_end_show(
            world,
            entity,
            inner,
        ) == world,
        world.contains_key(entity) && world[entity] is Some ==> spec_end_show(world, entity, inner)
            == world.insert(entity, Some(Some(inner))),
        spec_end_show(world, entity, inner).dom() == world.dom(),
{
    assert(spec_end_show(world, entity, inner).dom() =~= world.dom());
}

impl<W> WidgetWorld<W> {
    /// A world with no entities.
    pub fn new() -> (world: Self)
        ensures
            world@ == Map::<Entity, WidgetSlot<W>>::empty(),
    {
        let world = WidgetWorld { entities: HashMap::new() };
        assert(world@ =~= Map::<Entity, WidgetSlot<W>>::empty());
        world
    }

    /// Makes `entity` exist, holding the given widget component or none,
    /// in place of whatever it held before.
    pub fn insert(&mut self, entity: Entity, widget: Option<Widget<W>>)
        ensures
            final(self)@ == old(self)@.insert(entity, slot_of(widget)),
    {
        let ghost w = widget;
        self.entities.insert(entity, widget);
        assert(self@ =~= old(self)@.insert(entity, slot_of(w)));
    }

    /// Removes `entity` and whatever it holds from the world.
    pub fn despawn(&mut self, entity: Entity)
        ensures
            final(self)@ == old(self)@.remove(entity),
    {
        self.entities.remove(&entity);
        assert(self@ =~= old(self)@.remove(entity));
    }

    /// The first half of showing the widget of `entity`, for a caller that
    /// knows whether the entity exists.
    pub fn begin_show_of(&mut self, entity: Entity, exists: bool) -> (r: Result<W, ShowError>)
        ensures
            (final(self)@, r) == spec_begin_show_of(old(self)@, entity, exists),
            exists && old(self)@.contains_key(entity) && old(self)@[entity] is Some
                && old(self)@[entity]->Some_0 is Some ==> r == Ok::<W, ShowError>(
                old(self)@[entity]->Some_0->Some_0,
            ) && final(self)@ == old(self)@.insert(entity, Some(None)),
            !exists ==> r == Err::<W, ShowError>(ShowError::EntityMissing),
            r is Err ==> final(self)@ == old(self)@,
    {
        if !exists {
            Err(ShowError::EntityMissing)
        } else if !self.entities.contains_key(&entity) {
            Err(ShowError::WidgetMissing)
        } else {
            self.begin_show(entity)
        }
    }

    /// Whether `entity` exists.
    pub fn contains(&self, entity: Entity) -> (r: bool)
        ensures
            r == self@.contains_key(entity),
    {
        self.entities.contains_key(&entity)
    }

    /// The first half of showing the widget of `entity`: lends out its
    /// executor, which `end_show` takes back.
    pub fn begin_show(&mut self, entity: Entity) -> (r: Result<W, ShowError>)
        ensures
            (final(self)@, r) == spec_begin_show(old(self)@, entity),
            old(self)@.contains_key(entity) && old(self)@[entity] is Some && old(self)@[entity]->Some_0 is Some
                ==> r == Ok::<W, ShowError>(old(self)@[entity]->Some_0->Some_0) && final(self)@ == old(
                self,
            )@.insert(entity, Some(None)),
            !old(self)@.contains_key(entity) ==> r == Err::<W, ShowError>(ShowError::EntityMissing),
            r is Err ==> final(self)@ == old(self)@,
    {
        let component = self.entities.remove(&entity);
        match component {
            None => {
                assert(self@ =~= old(self)@);
                Err(ShowError::EntityMissing)
            },
            Some(None) => {
                self.entities.insert(entity, None);
                assert(self@ =~= old(self)@);
                Err(ShowError::WidgetMissing)
            },
            Some(Some(mut widget)) => {
                let r = match widget.inner.take() {
                    Some(inner) => Ok(inner),
                    None => Err(ShowError::Recursion),
                };
                self.entities.insert(entity, Some(widget));
                assert(self@ =~= spec_begin_show(old(self)@, entity).0);
                r
            },
        }
    }

    /// The second half of showing the widget of `entity`: puts the executor
    /// back if the entity still has a widget component.
    pub fn end_show(&mut self, entity: Entity, inner: W)
        ensures
            final(self)@ == spec_end_show(old(self)@, entity, inner),
            (!old(self)@.contains_key(entity) || old(self)@[entity] is None) ==> final(self)@ == old(
                self,
            )@,
            old(self)@.contains_key(entity) && old(self)@[entity] is Some ==> final(self)@ == old(
                self,
            )@.insert(entity, Some(Some(inner))),
    {
        let component = self.entities.remove(&entity);
        match component {
            None => {
                assert(self@ =~= old(self)@);
            },
            Some(None) => {
                self.entities.insert(entity, None);
                assert(self@ =~= old(self)@);
            },
            Some(Some(mut widget)) => {
                widget.inner = Some(inner);
                self.entities.insert(entity, Some(widget));
                assert(self@ =~= spec_end_show(old(self)@, entity, inner));
            },
        }
    }
}

} // verus!
