use nu_core::bytes::{bytes_eq, starts_with};
use nu_core::name_map::NameMap;
use nu_core::scope_frame::ScopeFrame;
use nu_core::span::Span;
use nu_core::visibility::Visibility;

#[test]
fn byte_strings_compare() {
    assert!(bytes_eq(b"abc", b"abc"));
    assert!(bytes_eq(b"", b""));
    assert!(!bytes_eq(b"abc", b"abd"));
    assert!(!bytes_eq(b"abc", b"ab"));
    assert!(starts_with(b"abc", b"ab"));
    assert!(starts_with(b"abc", b""));
    assert!(starts_with(b"abc", b"abc"));
    assert!(!starts_with(b"abc", b"abcd"));
    assert!(!starts_with(b"abc", b"b"));
}

#[test]
fn name_map_binds_replaces_and_removes() {
    let mut map: NameMap<usize> = NameMap::new();
    assert_eq!(map.len(), 0);
    assert_eq!(map.insert(b"a".to_vec(), 1), None);
    assert_eq!(map.insert(b"b".to_vec(), 2), None);
    assert_eq!(map.insert(b"a".to_vec(), 3), Some(1));
    assert_eq!(map.len(), 2);
    assert_eq!(map.get(b"a"), Some(&3));
    assert_eq!(map.get(b"b"), Some(&2));
    assert_eq!(map.get(b"c"), None);
    assert!(map.contains_key(b"b"));
    assert!(!map.contains_key(b"c"));
    assert_eq!(map.name_at(0), &b"a".to_vec());
    assert_eq!(map.value_at(0), &3);
    assert_eq!(map.name_at(1), &b"b".to_vec());
    assert_eq!(map.remove(b"a"), Some(3));
    assert_eq!(map.remove(b"a"), None);
    assert_eq!(map.len(), 1);
    assert_eq!(map.name_at(0), &b"b".to_vec());

    let mut other: NameMap<usize> = NameMap::new();
    other.insert(b"b".to_vec(), 20);
    other.insert(b"c".to_vec(), 30);
    map.extend(other);
    assert_eq!(map.get(b"b"), Some(&20));
    assert_eq!(map.get(b"c"), Some(&30));
    assert_eq!(map.len(), 2);
}

#[test]
fn visibility_marks_and_merges() {
    let mut inner = Visibility::new();
    assert!(inner.is_id_visible(&1));
    inner.hide_id(&1);
    assert!(!inner.is_id_visible(&1));
    inner.use_id(&1);
    assert!(inner.is_id_visible(&1));
    inner.hide_id(&1);
    inner.use_id(&2);

    let mut outer = Visibility::new();
    outer.use_id(&1);
    outer.hide_id(&2);
    outer.hide_id(&3);

    let mut appended = inner.clone();
    appended.append(&outer);
    assert!(!appended.is_id_visible(&1));
    assert!(appended.is_id_visible(&2));
    assert!(!appended.is_id_visible(&3));
    assert!(appended.is_id_visible(&4));

    let mut merged = inner.clone();
    merged.merge_with(outer);
    assert!(merged.is_id_visible(&1));
    assert!(!merged.is_id_visible(&2));
    assert!(!merged.is_id_visible(&3));
}

#[test]
fn scope_frame_starts_empty() {
    let mut frame = ScopeFrame::new();
    assert_eq!(frame.get_var(b"$x"), None);
    assert_eq!(frame.vars.len(), 0);
    assert_eq!(frame.decls.len(), 0);
    frame.vars.insert(b"$x".to_vec(), 4);
    assert_eq!(frame.get_var(b"$x"), Some(&4));
    frame.aliases.insert(b"ll".to_vec(), vec![Span::new(0, 2)]);
    assert_eq!(frame.aliases.get(b"ll"), Some(&vec![Span::new(0, 2)]));
    assert_eq!(ScopeFrame::default().get_var(b"$x"), None);
    assert_eq!(Span::unknown(), Span::new(0, 0));
}
