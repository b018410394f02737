use nsid_registry::{ErrAlreadyRegistered, ErrCategoryAlreadyRegistered, Interner, NamespacedID, Registry};

fn id(i: &mut Interner, s: &str) -> NamespacedID {
    NamespacedID::new(s, i).unwrap()
}

#[test]
fn scenario_answer_and_evens() {
    let mut i = Interner::new();
    let mut reg: Registry<i32> = Registry::new();
    let h = reg.register(42, id(&mut i, "core:answer")).unwrap();
    assert_eq!(*reg.lookup(h), 42);
    assert_eq!(reg.lookup_by_nsid(id(&mut i, "core:answer")), Some(&42));
    let h44 = reg.register(44, id(&mut i, "core:forty_four")).unwrap();
    let evens = reg.register_category(id(&mut i, "core:evens"), vec![h, h44]).unwrap();
    assert_eq!(reg.lookup_category(evens).len(), 2);
    assert!(reg.remove_from_category(evens, h));
    assert!(!reg.remove_from_category(evens, h));
    assert_eq!(reg.lookup_category(evens).len(), 1);
    assert!(!reg.is_in_category(h, evens));
    assert!(reg.is_in_category(h44, evens));
}

#[test]
fn registering_twice_fails() {
    let mut i = Interner::new();
    let mut reg: Registry<&str> = Registry::new();
    let name = id(&mut i, "mod:thing");
    let h = reg.register("first", name).unwrap();
    assert_eq!(reg.register("second", name), Err(ErrAlreadyRegistered));
    assert_eq!(*reg.lookup(h), "first");
    assert_eq!(reg.get_nsid(h), name);
    assert_eq!(h.get_nsid(), name);
}

#[test]
fn handles_stay_valid() {
    let mut i = Interner::new();
    let mut reg: Registry<u64> = Registry::new();
    let h = reg.register(7, id(&mut i, "a:seven")).unwrap();
    let c = reg.register_empty_category(id(&mut i, "a:cat")).unwrap();
    for n in 0..20u64 {
        let name = format!("a:n{}", n);
        let hn = reg.register(n, id(&mut i, &name)).unwrap();
        reg.insert_into_category(c, hn);
    }
    reg.insert_into_category(c, h);
    reg.remove_from_category(c, h);
    assert_eq!(*reg.lookup(h), 7);
    assert_eq!(reg.get_nsid(h), id(&mut i, "a:seven"));
}

#[test]
fn category_insert_is_idempotent() {
    let mut i = Interner::new();
    let mut reg: Registry<i32> = Registry::new();
    let h = reg.register(1, id(&mut i, "x:one")).unwrap();
    let c = reg.register_empty_category(id(&mut i, "x:c")).unwrap();
    reg.insert_into_category(c, h);
    assert!(reg.is_in_category(h, c));
    reg.insert_into_category(c, h);
    assert!(reg.is_in_category(h, c));
    let members = reg.lookup_category(c);
    assert_eq!(members.len(), 1);
    assert_eq!(*members[0].0, 1);
    assert_eq!(members[0].1, h);
}

#[test]
fn category_from_repeated_handles() {
    let mut i = Interner::new();
    let mut reg: Registry<i32> = Registry::new();
    let a = reg.register(1, id(&mut i, "x:a")).unwrap();
    let b = reg.register(2, id(&mut i, "x:b")).unwrap();
    let c = reg.register_category(id(&mut i, "x:c"), vec![a, b, a, a]).unwrap();
    let mut values: Vec<i32> = reg.lookup_category(c).iter().map(|(v, _)| **v).collect();
    values.sort();
    assert_eq!(values, vec![1, 2]);
}

#[test]
fn insert_many_into_category_adds_each_once() {
    let mut i = Interner::new();
    let mut reg: Registry<i32> = Registry::new();
    let a = reg.register(1, id(&mut i, "x:a")).unwrap();
    let b = reg.register(2, id(&mut i, "x:b")).unwrap();
    let d = reg.register(3, id(&mut i, "x:d")).unwrap();
    let c = reg.register_category(id(&mut i, "x:c"), vec![a]).unwrap();
    reg.insert_many_into_category(c, vec![a, b, b]);
    assert!(reg.is_in_category(a, c));
    assert!(reg.is_in_category(b, c));
    assert!(!reg.is_in_category(d, c));
    assert_eq!(reg.lookup_category(c).len(), 2);
}

#[test]
fn category_registered_twice_fails() {
    let mut i = Interner::new();
    let mut reg: Registry<i32> = Registry::new();
    let name = id(&mut i, "x:c");
    let c = reg.register_empty_category(name).unwrap();
    assert_eq!(reg.register_empty_category(name), Err(ErrCategoryAlreadyRegistered));
    assert_eq!(reg.register_category(name, vec![]), Err(ErrCategoryAlreadyRegistered));
    assert_eq!(c.get_nsid(), name);
}

#[test]
fn values_and_categories_are_separate_names() {
    let mut i = Interner::new();
    let mut reg: Registry<i32> = Registry::new();
    let name = id(&mut i, "x:same");
    reg.register(5, name).unwrap();
    assert!(reg.register_empty_category(name).is_ok());
}

#[test]
fn unknown_identifier_is_not_found() {
    let mut i = Interner::new();
    let mut reg: Registry<i32> = Registry::new();
    reg.register(1, id(&mut i, "x:known")).unwrap();
    let unknown = id(&mut i, "x:unknown");
    assert_eq!(reg.lookup_by_nsid(unknown), None);
    assert!(reg.validate_nsid(unknown).is_none());
    assert!(reg.validate_category_nsid(unknown).is_none());
    assert!(reg.lookup_category_by_nsid(unknown).is_none());
}

#[test]
fn validate_gives_working_handles() {
    let mut i = Interner::new();
    let mut reg: Registry<i32> = Registry::new();
    let h = reg.register(10, id(&mut i, "x:ten")).unwrap();
    let v = reg.validate_nsid(id(&mut i, "x:ten")).unwrap();
    assert_eq!(v, h);
    assert_eq!(*reg.lookup(v), 10);
    let c = reg.register_category(id(&mut i, "x:tens"), vec![h]).unwrap();
    let vc = reg.validate_category_nsid(id(&mut i, "x:tens")).unwrap();
    assert_eq!(vc, c);
    assert!(reg.is_in_category(v, vc));
    let members = reg.lookup_category_by_nsid(id(&mut i, "x:tens")).unwrap();
    assert_eq!(members.len(), 1);
    assert_eq!(*members[0].0, 10);
    assert_eq!(members[0].1.get_nsid(), id(&mut i, "x:ten"));
}

#[test]
fn iter_in_registration_order() {
    let mut i = Interner::new();
    let mut reg: Registry<i32> = Registry::new();
    let names = ["z:c", "z:a", "z:b"];
    for (n, s) in names.iter().enumerate() {
        reg.register(n as i32 * 10, id(&mut i, s)).unwrap();
    }
    let all = reg.iter();
    assert_eq!(all.len(), 3);
    for (n, (v, h)) in all.iter().enumerate() {
        assert_eq!(**v, n as i32 * 10);
        assert_eq!(h.get_nsid().to_string(&i), names[n]);
    }
}

#[test]
fn register_default_value() {
    let mut i = Interner::new();
    let mut reg: Registry<String> = Registry::default();
    let h = reg.register_default(id(&mut i, "x:empty")).unwrap();
    assert_eq!(reg.lookup(h).as_str(), "");
    assert!(reg.register_default(id(&mut i, "x:empty")).is_err());
}

#[test]
fn empty_registry_iterates_nothing() {
    let reg: Registry<i32> = Registry::new();
    assert!(reg.iter().is_empty());
}

#[test]
fn handles_copy_for_any_value_type() {
    let mut i = Interner::new();
    let mut reg: Registry<String> = Registry::new();
    let h = reg.register("one".to_string(), id(&mut i, "s:one")).unwrap();
    let c = reg.register_category(id(&mut i, "s:all"), vec![h, h]).unwrap();
    assert_eq!(reg.lookup(h), "one");
    assert_eq!(reg.lookup(h), "one");
    assert!(reg.is_in_category(h, c));
    let h2 = h.clone();
    assert_eq!(h2, h);
    assert_eq!(reg.lookup_category(c).len(), 1);
}

#[test]
fn reparsed_identifier_finds_value() {
    let mut i = Interner::new();
    let mut reg: Registry<i32> = Registry::new();
    reg.register(42, id(&mut i, "core:answer")).unwrap();
    let again = NamespacedID::new("core:answer", &mut i).unwrap();
    assert_eq!(reg.lookup_by_nsid(again), Some(&42));
}
