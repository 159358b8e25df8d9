use rkvm::key::{Button, Key, Keyboard};
use rkvm::keyset::KeySet;
use rkvm::abs::{AbsAxis, ToolType};
use rkvm::rel::RelAxis;

#[test]
fn identifies_keyboard_modifiers() {
    for modifier in [
        Keyboard::LeftAlt,
        Keyboard::LeftCtrl,
        Keyboard::LeftMeta,
        Keyboard::LeftShift,
        Keyboard::RightAlt,
        Keyboard::RightCtrl,
        Keyboard::RightMeta,
        Keyboard::RightShift,
    ] {
        assert!(Key::Key(modifier).is_modifier());
    }

    assert!(!Key::Key(Keyboard::CapsLock).is_modifier());
    assert!(!Key::Key(Keyboard::A).is_modifier());
    assert!(!Key::Button(Button::Left).is_modifier());
}

#[test]
fn codes_are_those_of_the_kernel() {
    assert_eq!(Key::Key(Keyboard::Esc).to_raw(), Some(1));
    assert_eq!(Key::Key(Keyboard::A).to_raw(), Some(30));
    assert_eq!(Key::Key(Keyboard::Grave).to_raw(), Some(41));
    assert_eq!(Key::Key(Keyboard::RightCtrl).to_raw(), Some(97));
    assert_eq!(Key::Key(Keyboard::LeftMeta).to_raw(), Some(125));
    assert_eq!(Key::Button(Button::Left).to_raw(), Some(0x110));
    assert_eq!(Key::Button(Button::Right).to_raw(), Some(0x111));
}

#[test]
fn every_code_names_the_key_that_has_it() {
    let mut named = 0;
    for code in 0..=u16::MAX {
        if let Some(key) = Key::from_raw(code) {
            assert_eq!(key.to_raw(), Some(code));
            named += 1;
        }
    }
    assert!(named > 500);
    assert_eq!(Key::from_raw(u16::MAX), None);
}

#[test]
fn axes_are_named_by_their_codes() {
    for code in 0..0x80 {
        if let Some(axis) = RelAxis::from_raw(code) {
            assert_eq!(axis.to_raw(), Some(code));
        }
        if let Some(axis) = AbsAxis::from_raw(code) {
            assert_eq!(axis.to_raw(), Some(code));
        }
    }
    assert_eq!(RelAxis::from_raw(0), Some(RelAxis::X));
    assert_eq!(AbsAxis::from_raw(0x37), None);
    assert_eq!(ToolType::from_raw(2), Some(ToolType::Palm));
    assert_eq!(ToolType::from_raw(3), None);
}

#[test]
fn sets_of_keys() {
    let a = Key::Key(Keyboard::A);
    let b = Key::Key(Keyboard::B);
    let mut set = KeySet::from_vec(vec![a, b, a]);
    assert_eq!(set.to_vec().len(), 2);
    assert!(!set.insert(a));
    assert!(set.remove(a));
    assert!(!set.remove(a));
    assert_eq!(set, KeySet::from_vec(vec![b]));
    assert!(KeySet::new().is_subset(&set));
    assert!(set.is_disjoint(&KeySet::from_vec(vec![a])));
    assert_eq!(
        KeySet::from_vec(vec![a, b]).intersection(&set),
        KeySet::from_vec(vec![b])
    );
    assert_ne!(set, KeySet::new());
}
