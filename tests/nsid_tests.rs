use nsid_registry::{Interner, InvalidNamespace, InvalidPath, NSIDParseError, NamespacedID};

#[test]
fn char_classes() {
    for c in ['a', 'z', '0', '9', '-', '_'] {
        assert!(NamespacedID::is_valid_namespace_char(c));
        assert!(NamespacedID::is_valid_path_char(c));
    }
    for c in ['.', '/'] {
        assert!(!NamespacedID::is_valid_namespace_char(c));
        assert!(NamespacedID::is_valid_path_char(c));
    }
    for c in ['A', ':', ' ', 'é', '!'] {
        assert!(!NamespacedID::is_valid_namespace_char(c));
        assert!(!NamespacedID::is_valid_path_char(c));
    }
}

#[test]
fn check_namespace_cases() {
    assert_eq!(NamespacedID::check_namespace("core"), Ok(()));
    assert_eq!(NamespacedID::check_namespace("a-b_9"), Ok(()));
    assert_eq!(NamespacedID::check_namespace(""), Err(InvalidNamespace::Empty));
    assert_eq!(NamespacedID::check_namespace("abC"), Err(InvalidNamespace::BadChar(2, 'C')));
    assert_eq!(NamespacedID::check_namespace("a.b"), Err(InvalidNamespace::BadChar(1, '.')));
}

#[test]
fn check_path_cases() {
    assert_eq!(NamespacedID::check_path("items/sword.png"), Ok(()));
    assert_eq!(NamespacedID::check_path(""), Err(InvalidPath::Empty));
    assert_eq!(NamespacedID::check_path("a b"), Err(InvalidPath::BadChar(1, ' ')));
}

#[test]
fn bad_char_index_counts_chars_not_bytes() {
    // 'é' takes two bytes; the reported index is the position in chars.
    assert_eq!(NamespacedID::check_path("éa!"), Err(InvalidPath::BadChar(0, 'é')));
    let mut i = Interner::new();
    assert_eq!(
        NamespacedID::new("ab:cdé", &mut i),
        Err(NSIDParseError::InvalidPath(InvalidPath::BadChar(5, 'é')))
    );
}

#[test]
fn parse_valid_identifier() {
    let mut i = Interner::new();
    let id = NamespacedID::new("core:answer", &mut i).unwrap();
    assert_eq!(id.namespace(&i), "core");
    assert_eq!(id.path(&i), "answer");
    assert_eq!(id.dissolve(&i), ("core".to_string(), "answer".to_string()));
    assert_eq!(id.to_string(&i), "core:answer");
}

#[test]
fn parse_reports_path_char_with_offset() {
    let mut i = Interner::new();
    // "ab" and ':' take three chars; '!' is the second char of the path.
    assert_eq!(
        NamespacedID::new("ab:c!d", &mut i),
        Err(NSIDParseError::InvalidPath(InvalidPath::BadChar(4, '!')))
    );
    assert_eq!(
        NamespacedID::new("ab:cd!", &mut i),
        Err(NSIDParseError::InvalidPath(InvalidPath::BadChar(5, '!')))
    );
}

#[test]
fn parse_reports_namespace_char() {
    let mut i = Interner::new();
    assert_eq!(
        NamespacedID::new("aB:c", &mut i),
        Err(NSIDParseError::InvalidNamespace(InvalidNamespace::BadChar(1, 'B')))
    );
    assert_eq!(
        NamespacedID::new(":c", &mut i),
        Err(NSIDParseError::InvalidNamespace(InvalidNamespace::Empty))
    );
    assert_eq!(
        NamespacedID::new("ab:", &mut i),
        Err(NSIDParseError::InvalidPath(InvalidPath::Empty))
    );
}

#[test]
fn parse_without_separator() {
    let mut i = Interner::new();
    assert_eq!(NamespacedID::new("abc", &mut i), Err(NSIDParseError::NoSeparator));
    assert_eq!(NamespacedID::new("", &mut i), Err(NSIDParseError::NoSeparator));
}

#[test]
fn parse_splits_at_first_colon() {
    let mut i = Interner::new();
    assert_eq!(
        NamespacedID::new("a:b:c", &mut i),
        Err(NSIDParseError::InvalidPath(InvalidPath::BadChar(3, ':')))
    );
}

#[test]
fn new_from_parts_checks_each_part() {
    let mut i = Interner::new();
    let id = NamespacedID::new_from_parts("mod", "blocks/stone", &mut i).unwrap();
    assert_eq!(id.to_string(&i), "mod:blocks/stone");
    assert_eq!(
        NamespacedID::new_from_parts("mod", "Stone", &mut i),
        Err(NSIDParseError::InvalidPath(InvalidPath::BadChar(0, 'S')))
    );
    assert_eq!(
        NamespacedID::new_from_parts("m.d", "stone", &mut i),
        Err(NSIDParseError::InvalidNamespace(InvalidNamespace::BadChar(1, '.')))
    );
    assert_eq!(
        NamespacedID::new_from_parts("mod", "", &mut i),
        Err(NSIDParseError::InvalidPath(InvalidPath::Empty))
    );
}

#[test]
fn round_trip_through_text() {
    let mut i = Interner::new();
    for (ns, p) in [("a", "b"), ("core", "items/sword.png"), ("x-y_z", "a.b/c-d_e")] {
        let id = NamespacedID::new_from_parts(ns, p, &mut i).unwrap();
        let text = id.to_string(&i);
        assert_eq!(text, format!("{}:{}", ns, p));
        let again = NamespacedID::new(&text, &mut i).unwrap();
        assert_eq!(again, id);
    }
}

#[test]
fn equal_text_gives_equal_identifiers() {
    let mut i = Interner::new();
    let a = NamespacedID::new("core:a", &mut i).unwrap();
    let b = NamespacedID::new("core:b", &mut i).unwrap();
    let a2 = NamespacedID::new("core:a", &mut i).unwrap();
    assert_eq!(a, a2);
    assert_ne!(a, b);
}

#[test]
fn interner_deduplicates() {
    let mut i = Interner::new();
    let k1 = i.intern("hello").unwrap();
    let k2 = i.intern("world").unwrap();
    let k3 = i.intern("hello").unwrap();
    assert_eq!(k1, k3);
    assert_ne!(k1, k2);
    assert_eq!(i.resolve(k1), "hello");
    assert_eq!(i.resolve(k2), "world");
}

#[test]
fn segment_errors_convert() {
    assert_eq!(
        NSIDParseError::from(InvalidPath::Empty),
        NSIDParseError::InvalidPath(InvalidPath::Empty)
    );
    assert_eq!(
        NSIDParseError::from(InvalidNamespace::BadChar(3, 'X')),
        NSIDParseError::InvalidNamespace(InvalidNamespace::BadChar(3, 'X'))
    );
}

#[test]
fn round_trip_dotted_path() {
    let mut i = Interner::new();
    let id = NamespacedID::new_from_parts("core", "items/iron_ingot.v2", &mut i).unwrap();
    let text = id.to_string(&i);
    assert_eq!(text, "core:items/iron_ingot.v2");
    assert_eq!(NamespacedID::new(&text, &mut i), Ok(id));
}
