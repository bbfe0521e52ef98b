use rmf_site_picking::widget::{ShowError, Widget, WidgetWorld};

#[test]
fn a_new_widget_is_ready_to_show() {
    let mut world = WidgetWorld::new();
    world.insert(5, Some(Widget::new("label")));
    assert_eq!(world.begin_show(5).ok(), Some("label"));
}

#[test]
fn showing_a_missing_entity_fails() {
    let mut world: WidgetWorld<u32> = WidgetWorld::new();
    assert_eq!(world.begin_show(1).err(), Some(ShowError::EntityMissing));
    assert!(!world.contains(1));
}

#[test]
fn showing_an_entity_without_a_widget_fails() {
    let mut world: WidgetWorld<u32> = WidgetWorld::new();
    world.insert(1, None);
    assert!(world.contains(1));
    assert_eq!(world.begin_show(1).err(), Some(ShowError::WidgetMissing));
}

#[test]
fn a_widget_cannot_be_shown_inside_itself() {
    let mut world = WidgetWorld::new();
    world.insert(1, Some(Widget::new(10u32)));
    let inner = world.begin_show(1).unwrap();
    assert_eq!(inner, 10);
    assert_eq!(world.begin_show(1).err(), Some(ShowError::Recursion));
    world.end_show(1, inner);
    assert_eq!(world.begin_show(1).ok(), Some(10));
}

#[test]
fn nested_widgets_are_shown_and_given_back() {
    let mut world = WidgetWorld::new();
    world.insert(1, Some(Widget::new(10u32)));
    world.insert(2, Some(Widget::new(20u32)));
    let outer = world.begin_show(1).unwrap();
    let inner = world.begin_show(2).unwrap();
    assert_eq!((outer, inner), (10, 20));
    world.end_show(2, inner);
    world.end_show(1, outer);
    assert_eq!(world.begin_show(2).ok(), Some(20));
    assert_eq!(world.begin_show(1).ok(), Some(10));
}

#[test]
fn a_widget_removed_while_shown_is_not_put_back() {
    let mut world = WidgetWorld::new();
    world.insert(1, Some(Widget::new(10u32)));
    let inner = world.begin_show(1).unwrap();
    world.despawn(1);
    world.end_show(1, inner);
    assert!(!world.contains(1));
    assert_eq!(world.begin_show(1).err(), Some(ShowError::EntityMissing));

    world.insert(2, Some(Widget::new(20u32)));
    let inner = world.begin_show(2).unwrap();
    world.insert(2, None);
    world.end_show(2, inner);
    assert_eq!(world.begin_show(2).err(), Some(ShowError::WidgetMissing));
}

#[test]
fn showing_one_widget_leaves_the_others_alone() {
    let mut world = WidgetWorld::new();
    world.insert(1, Some(Widget::new(10u32)));
    world.insert(2, None);
    let inner = world.begin_show(1).unwrap();
    assert_eq!(world.begin_show(2).err(), Some(ShowError::WidgetMissing));
    assert_eq!(world.begin_show(3).err(), Some(ShowError::EntityMissing));
    world.end_show(1, inner);
}

#[test]
fn knowing_whether_the_entity_exists_decides_the_error() {
    let mut world = WidgetWorld::new();
    world.insert(1, Some(Widget::new(10u32)));
    assert_eq!(world.begin_show_of(2, true).err(), Some(ShowError::WidgetMissing));
    assert!(!world.contains(2));
    assert_eq!(world.begin_show_of(2, false).err(), Some(ShowError::EntityMissing));
    assert_eq!(world.begin_show_of(1, false).err(), Some(ShowError::EntityMissing));
    assert!(world.contains(1));
    let inner = world.begin_show_of(1, true).unwrap();
    assert_eq!(inner, 10);
    assert_eq!(world.begin_show_of(1, true).err(), Some(ShowError::Recursion));
    world.end_show(1, inner);
}
