use aefr::entity::SpineObject;
use aefr::entity::Track;
use aefr::entity::DEFAULT_SCALE;
use aefr::mesh::Placement;

fn names(list: &[&str]) -> Vec<String> {
    list.iter().map(|s| s.to_string()).collect()
}

#[test]
fn loaded_character_plays_its_first_animation_in_a_loop() {
    let entity = SpineObject::new(names(&["Start", "Idle", "Walk"]), 3);
    assert_eq!(entity.track(), Some(Track { animation: 0, looping: true }));
    assert_eq!(entity.animation_names(), &names(&["Start", "Idle", "Walk"]));
    assert_eq!(entity.texture(), 3);
    assert_eq!(entity.placement(), Placement { x: 0, y: 0, scale: 0x8000 });
    assert_eq!(DEFAULT_SCALE, 0x8000);
}

#[test]
fn character_without_animations_plays_nothing() {
    let mut entity = SpineObject::new(Vec::new(), 0);
    assert_eq!(entity.track(), None);
    assert!(!entity.set_animation_by_name("Idle", true));
    assert_eq!(entity.track(), None);
}

#[test]
fn known_animation_replaces_what_plays() {
    let mut entity = SpineObject::new(names(&["Start", "Idle", "Walk"]), 0);
    assert!(entity.set_animation_by_name("Idle", true));
    assert_eq!(entity.track(), Some(Track { animation: 1, looping: true }));
    assert!(entity.set_animation_by_name("Walk", false));
    assert_eq!(entity.track(), Some(Track { animation: 2, looping: false }));
}

#[test]
fn unknown_animation_leaves_what_plays() {
    let mut entity = SpineObject::new(names(&["Start", "Idle"]), 0);
    assert!(entity.set_animation_by_name("Idle", false));
    let before = entity.track();
    assert!(!entity.set_animation_by_name("Nonexistent", true));
    assert_eq!(entity.track(), before);
    assert_eq!(entity.track(), Some(Track { animation: 1, looping: false }));
}

#[test]
fn names_are_compared_letter_for_letter() {
    let mut entity = SpineObject::new(names(&["Idle"]), 0);
    assert!(!entity.set_animation_by_name("idle", true));
    assert!(!entity.set_animation_by_name("Idle ", true));
    assert!(!entity.set_animation_by_name("", true));
    assert!(entity.set_animation_by_name("Idle", true));
}

#[test]
fn first_of_equal_names_is_taken() {
    let mut entity = SpineObject::new(names(&["A", "B", "B", "A"]), 0);
    assert!(entity.set_animation_by_name("B", true));
    assert_eq!(entity.track(), Some(Track { animation: 1, looping: true }));
    assert!(entity.set_animation_by_name("A", false));
    assert_eq!(entity.track(), Some(Track { animation: 0, looping: false }));
}

#[test]
fn position_and_scale_can_be_set() {
    let mut entity = SpineObject::new(names(&["Idle"]), 0);
    entity.set_position(10, -20);
    assert_eq!(entity.placement(), Placement { x: 10, y: -20, scale: 0x8000 });
    entity.set_scale(0x1_0000);
    assert_eq!(entity.placement(), Placement { x: 10, y: -20, scale: 0x1_0000 });
    assert_eq!(entity.track(), Some(Track { animation: 0, looping: true }));
}
