use miners::registry::Registry;

#[test]
fn ids_are_dense_and_stable() {
    let mut reg: Registry<u32> = Registry::new();
    assert_eq!(reg.register("stone", 10), 0);
    assert_eq!(reg.register("dirt", 20), 1);
    assert_eq!(reg.register("stone", 99), 0);
    assert_eq!(reg.len(), 2);
    assert_eq!(reg.id("dirt"), Some(1));
    assert_eq!(reg.id("sand"), None);
    let entry = reg.get(0).unwrap();
    assert_eq!(entry.0, "stone");
    assert_eq!(entry.1, 10);
    assert!(reg.get(2).is_none());
    assert_eq!(reg.entry(1).1, 20);
}
