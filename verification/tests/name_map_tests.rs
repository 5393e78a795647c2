use bec_log_ingestor::name_map::NameMap;
use bec_log_ingestor::text::{decimal_string, str_less};

#[test]
fn insert_replaces_in_place_and_keeps_order() {
    let mut m: NameMap<u32> = NameMap::new();
    m.insert("a".to_string(), 1);
    m.insert("b".to_string(), 2);
    m.insert("a".to_string(), 3);
    assert_eq!(m.len(), 2);
    assert_eq!(m.name_at(0), "a");
    assert_eq!(*m.value_at(0), 3);
    assert_eq!(m.name_at(1), "b");
    assert_eq!(m.get(&"a".to_string()), Some(&3));
    assert_eq!(m.get(&"c".to_string()), None);
    assert!(m.contains_key(&"b".to_string()));
    assert_eq!(m.find(&"b".to_string()), Some(1));
}

#[test]
fn extend_prefers_the_other_map() {
    let mut a: NameMap<u32> = NameMap::new();
    a.insert("x".to_string(), 1);
    a.insert("y".to_string(), 2);
    let mut b: NameMap<u32> = NameMap::new();
    b.insert("y".to_string(), 20);
    b.insert("z".to_string(), 30);
    a.extend(b);
    assert_eq!(a.len(), 3);
    assert_eq!(a.get(&"x".to_string()), Some(&1));
    assert_eq!(a.get(&"y".to_string()), Some(&20));
    assert_eq!(a.get(&"z".to_string()), Some(&30));
    let mut c: NameMap<String> = NameMap::new();
    c.insert("k".to_string(), "v".to_string());
    let d = c.copied();
    assert_eq!(d.get(&"k".to_string()), Some(&"v".to_string()));
}

#[test]
fn decimal_rendering() {
    assert_eq!(decimal_string(0), "0");
    assert_eq!(decimal_string(7), "7");
    assert_eq!(decimal_string(10), "10");
    assert_eq!(decimal_string(222077), "222077");
    assert_eq!(decimal_string(u64::MAX), u64::MAX.to_string());
}

#[test]
fn string_order_is_rusts_order() {
    let cases = ["", "a", "b", "ab", "ERROR", "INFO", "info", "warn", "é", "z"];
    for a in cases {
        for b in cases {
            assert_eq!(str_less(&a.to_string(), &b.to_string()), a < b, "{a} < {b}");
        }
    }
}
