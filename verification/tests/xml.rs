use flick_sync::xml::{default_namespace, ensure_prefix, Prefixes, Xml, XmlName};

#[test]
fn names() {
    let n = XmlName::qualified("urn:schemas-upnp-org:device-1-0", "root");
    assert_eq!(n.as_ref(), (Some("urn:schemas-upnp-org:device-1-0"), "root"));
    assert_eq!(n.text(), "urn:schemas-upnp-org:device-1-0#root");
    let local = XmlName { namespace: None, local_name: "test".to_string() };
    assert_eq!(local.as_ref(), (None, "test"));
    assert_eq!(local.text(), "test");
    let doc = Xml::new(23u32);
    assert_eq!(*doc.inner(), 23);
}

#[test]
fn prefixes() {
    let mut p = Prefixes::new();
    assert!(!p.contains_namespace("urn:a"));
    p.insert("urn:a", "a");
    p.insert("urn:b", "");
    assert!(p.contains_namespace("urn:a"));
    assert_eq!(p.get("urn:a").as_deref(), Some("a"));
    assert_eq!(p.get("urn:b").as_deref(), Some(""));
    assert_eq!(p.get("urn:c"), None);
    assert!(p.has_new_prefix("a"));
    assert!(!p.has_new_prefix("b"));
    p.insert("urn:a", "z");
    assert_eq!(p.get("urn:a").as_deref(), Some("z"));
    assert_eq!(p.entries.len(), 2);
}

#[test]
fn element_and_attribute_prefixes() {
    let mut previous = Prefixes::new();
    previous.insert("urn:schemas-upnp-org:device-1-0", "");
    let mut new = Prefixes::new();
    ensure_prefix(&previous, &mut new, "urn:schemas-upnp-org:device-1-0", true);
    assert_eq!(new.entries.len(), 0);
    ensure_prefix(&previous, &mut new, "urn:schemas-dlna-org:device-1-0", true);
    assert_eq!(new.get("urn:schemas-dlna-org:device-1-0").as_deref(), Some(""));
    ensure_prefix(&previous, &mut new, "urn:first", false);
    assert_eq!(new.get("urn:first").as_deref(), Some("a"));
    ensure_prefix(&previous, &mut new, "urn:second", false);
    assert_eq!(new.get("urn:second").as_deref(), Some("b"));
    ensure_prefix(&previous, &mut new, "urn:first", false);
    assert_eq!(new.entries.len(), 3);
}

#[test]
fn default_namespace_is_least_with_empty_prefix() {
    let mut p = Prefixes::new();
    assert_eq!(default_namespace(&p), None);
    p.insert("urn:z", "");
    p.insert("urn:a", "x");
    assert_eq!(default_namespace(&p).as_deref(), Some("urn:z"));
    p.insert("urn:m", "");
    assert_eq!(default_namespace(&p).as_deref(), Some("urn:m"));
}
