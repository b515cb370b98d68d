use haldvance::input::{Dir, Input, Key, KeyGroup, Keys};

fn input(previous: u16, current: u16) -> Input {
    Input { current: Keys(!current), previous: Keys(!previous) }
}

#[test]
fn buttons_have_their_bits() {
    assert_eq!(0x001, Key::A().0);
    assert_eq!(0x002, Key::B().0);
    assert_eq!(0x004, Key::Select().0);
    assert_eq!(0x008, Key::Start().0);
    assert_eq!(0x010, Key::Dpad(Dir::Right).0);
    assert_eq!(0x020, Key::Dpad(Dir::Left).0);
    assert_eq!(0x040, Key::Dpad(Dir::Up).0);
    assert_eq!(0x080, Key::Dpad(Dir::Down).0);
    assert_eq!(0x100, Key::L().0);
    assert_eq!(0x200, Key::R().0);
    assert_eq!(4, Dir::Up.bits());
    assert_eq!(KeyGroup(0x40), Dir::Up.group());
    assert_eq!(KeyGroup(2), Key::B().group());
}

#[test]
fn groups_are_made_with_or() {
    let group1 = Key::A() | Key::L();
    let group2 = Key::B() | Key::R();
    let group3 = Key::A() | Key::L() | Key::B() | Key::R();
    assert_eq!(group1 | group2, group3);
    assert_eq!(KeyGroup(0x303), group3);
}

#[test]
fn no_button_is_down_at_first() {
    let keys = Keys::default();
    assert_eq!(0xffff, keys.0);
    assert!(!keys.any_pressed(KeyGroup(0x3ff)));
    assert!(!keys.all_pressed(KeyGroup(1)));
    assert!(keys.all_pressed(KeyGroup(0)));
    assert!(!keys.any_pressed(KeyGroup(0)));
    let input = Input::default();
    assert_eq!(None, input.direction());
    assert_eq!(keys, input.current());
}

#[test]
fn a_button_is_down_while_its_bit_is_zero() {
    let keys = Keys(!0x0011);
    assert!(keys.any_pressed(Key::A() | Key::B()));
    assert!(!keys.all_pressed(Key::A() | Key::B()));
    assert!(keys.all_pressed(Key::A() | Key::Dpad(Dir::Right)));
    assert!(!keys.any_pressed(Key::B() | Key::Start()));
}

#[test]
fn down_wins_over_up_over_left_over_right() {
    assert_eq!(Some(Dir::Down), input(0, 0xf0).direction());
    assert_eq!(Some(Dir::Up), input(0, 0x70).direction());
    assert_eq!(Some(Dir::Left), input(0, 0x30).direction());
    assert_eq!(Some(Dir::Right), input(0, 0x10).direction());
    assert_eq!(None, input(0xf0, 0x0f).direction());
    assert_eq!(Some(Dir::Down), input(0, 0xf0).just_direction());
    assert_eq!(Some(Dir::Up), input(0x80, 0xf0).just_direction());
    assert_eq!(Some(Dir::Left), input(0xc0, 0xf0).just_direction());
    assert_eq!(Some(Dir::Right), input(0xe0, 0xf0).just_direction());
    assert_eq!(None, input(0xf0, 0xf0).just_direction());
    assert_eq!(None, input(0xf0, 0).just_direction());
}

#[test]
fn pressed_and_released_look_at_this_frame() {
    let now = input(0x2, 0x1);
    assert!(now.pressed(Key::A().group()));
    assert!(!now.pressed(Key::B().group()));
    assert!(now.pressed(Key::A() | Key::B()));
    assert!(now.released(Key::B().group()));
    assert!(!now.released(Key::A() | Key::B()));
}

#[test]
fn just_pressed_and_just_released_look_at_the_change() {
    let now = input(0x2, 0x1);
    assert!(now.just_pressed(Key::A()));
    assert!(!now.just_pressed(Key::B()));
    assert!(now.just_released(Key::B()));
    assert!(!now.just_released(Key::A()));
    let held = input(0x1, 0x1);
    assert!(!held.just_pressed(Key::A()));
    assert!(!held.just_released(Key::A()));
}
