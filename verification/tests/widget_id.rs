use raui_core::widget::{split_text, WidgetId, WidgetRef};

#[test]
fn test_widget_id() {
    let id = WidgetId::new(
        "type".to_owned(),
        vec!["parent".to_owned(), "me".to_owned()],
    );
    assert_eq!(id.to_string(), "type:/parent/me".to_owned());
    assert_eq!(id.type_tag(), "type");
    assert_eq!(id.parts().into_iter().next().unwrap(), "parent");
    assert_eq!(id.key(), "me");
    assert_eq!(id.clone(), id);
}

#[test]
fn widget_id_accessors() {
    let id = WidgetId::new(
        "button".to_owned(),
        vec!["app".to_owned(), "<3>".to_owned(), "ok".to_owned()],
    );
    assert!(id.is_valid());
    assert_eq!(id.depth(), 3);
    assert_eq!(id.as_str(), "button:/app/<3>/ok");
    assert_eq!(id.path(), "app/<3>/ok");
    assert_eq!(
        id.parts(),
        vec!["app".to_owned(), "<3>".to_owned(), "ok".to_owned()]
    );
    assert_eq!(id.key(), "ok");
}

#[test]
fn widget_id_empty_path() {
    let id = WidgetId::new("root".to_owned(), vec![]);
    assert!(id.is_valid());
    assert_eq!(id.depth(), 0);
    assert_eq!(id.to_string(), "root:");
    assert_eq!(id.type_tag(), "root");
    assert_eq!(id.key(), "");
}

#[test]
fn widget_id_default_is_invalid() {
    let id = WidgetId::default();
    assert!(!id.is_valid());
    assert_eq!(id.depth(), 0);
    assert_eq!(id.to_string(), "");
    assert_eq!(id.type_tag(), "");
    assert_eq!(id.key(), "");
}

#[test]
fn widget_id_parts_split_on_every_slash() {
    let id = WidgetId::new("t".to_owned(), vec!["a/b".to_owned(), "".to_owned()]);
    assert_eq!(id.depth(), 2);
    assert_eq!(id.to_string(), "t:/a/b/");
    assert_eq!(id.path(), "a/b/");
    assert_eq!(
        id.parts(),
        vec!["a".to_owned(), "b".to_owned(), "".to_owned()]
    );
    assert_eq!(id.key(), "");
}

#[test]
fn widget_id_handles_long_and_wide_text() {
    let long = "x".repeat(300);
    let id = WidgetId::new("päper".to_owned(), vec![long.clone(), "ключ".to_owned()]);
    assert_eq!(id.type_tag(), "päper");
    assert_eq!(id.key(), "ключ");
    assert_eq!(id.parts(), vec![long, "ключ".to_owned()]);
}

#[test]
fn widget_id_equality_is_by_the_whole_value() {
    let a = WidgetId::new("t".to_owned(), vec!["a".to_owned(), "b".to_owned()]);
    let b = WidgetId::new("t".to_owned(), vec!["a".to_owned(), "b".to_owned()]);
    let c = WidgetId::new("t".to_owned(), vec!["a".to_owned(), "c".to_owned()]);
    let d = WidgetId::new("t".to_owned(), vec!["a/b".to_owned()]);
    assert!(a == b);
    assert!(a != c);
    assert_eq!(a.to_string(), d.to_string());
    assert!(a != d);
    assert_eq!(a.hashed_value(), b.hashed_value());
    assert_ne!(a.hashed_value(), c.hashed_value());
}

#[test]
fn widget_ref_keeps_the_last_identity() {
    let mut place = WidgetRef::new();
    assert!(!place.is_written());
    assert!(place.read().is_none());
    let id = WidgetId::new("t".to_owned(), vec!["k".to_owned()]);
    place.write(id.clone());
    assert!(place.is_written());
    assert!(place.read().unwrap() == id);
    assert!(place.clone().read().unwrap() == id);
}

#[test]
fn widget_id_is_read_back_from_its_text() {
    let id = WidgetId::new(
        "type".to_owned(),
        vec!["parent".to_owned(), "me".to_owned()],
    );
    let parsed = WidgetId::from_str("type:/parent/me").unwrap();
    assert!(parsed == id);
    assert_eq!(parsed.depth(), 2);
    assert!(WidgetId::from_str("no colon here").is_err());
    assert!(WidgetId::from_str("").is_err());
    let odd = WidgetId::from_str("a:b:/c").unwrap();
    assert_eq!(odd.type_tag(), "a");
    assert_eq!(odd.to_string(), "a:/:/c");
    let short = WidgetId::from_str("t:/").unwrap();
    assert_eq!(short.depth(), 1);
    assert_eq!(short.to_string(), "t:/");
}

#[test]
fn split_text_gives_every_piece() {
    assert_eq!(split_text("", '/'), vec!["".to_owned()]);
    assert_eq!(split_text("abc", '/'), vec!["abc".to_owned()]);
    assert_eq!(
        split_text("/a//b/", '/'),
        vec!["".to_owned(), "a".to_owned(), "".to_owned(), "b".to_owned(), "".to_owned()]
    );
    assert_eq!(split_text("a,b", ','), vec!["a".to_owned(), "b".to_owned()]);
}
