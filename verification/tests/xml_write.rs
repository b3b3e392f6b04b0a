use flick_sync::xml::{Prefixes, XmlName};
use flick_sync::xml_write::XmlWriter;

fn finish(w: XmlWriter) -> String {
    let mut body = w.finish();
    body.push(b'\n');
    String::from_utf8(body).unwrap()
}

// The document is written element by element with the writer: serde's
// `Serializer` is an outside trait, so the library offers no serde bridge for it.
#[test]
fn test_serialization() {
    let mut w = XmlWriter::new().unwrap();
    let root = w
        .element_ns(XmlName::qualified("urn:schemas-upnp-org:device-1-0", "root"))
        .attr(XmlName::qualified("urn:schemas-upnp-org:device-1-0", "test"), "56".to_string())
        .attr(XmlName::qualified("urn:schemas-dlna-org:device-1-0", "other"), 45.to_string());
    let previous = w.start(root).unwrap();
    w.text_child_ns("urn:schemas-upnp-org:device-1-0", "major", "1").unwrap();
    w.text_child_ns("urn:schemas-dlna-org:device-1-0", "minor", &0.to_string()).unwrap();
    let patch = w
        .element_ns(XmlName::qualified("urn:schemas-dlna-org:inner-1-0", "patch"))
        .prefix("i", "urn:schemas-dlna-org:inner-1-0");
    w.text_element(patch, "boo").unwrap();
    let test_struct = w.element_ns(XmlName::qualified("urn:schemas-dlna-org:device-1-0", "TestStruct"));
    let inner = w.start(test_struct).unwrap();
    w.text_child("A", "foo").unwrap();
    w.text_child("B", &32.to_string()).unwrap();
    w.text_child("C", "1").unwrap();
    w.end(inner).unwrap();
    w.end(previous).unwrap();

    assert_eq!(
        finish(w),
        r#"<?xml version="1.0" encoding="UTF-8"?>
<root xmlns="urn:schemas-upnp-org:device-1-0" xmlns:a="urn:schemas-dlna-org:device-1-0" a:other="45" test="56">
  <major>1</major>
  <a:minor>0</a:minor>
  <i:patch xmlns:i="urn:schemas-dlna-org:inner-1-0">boo</i:patch>
  <a:TestStruct>
    <A>foo</A>
    <B>32</B>
    <C>1</C>
  </a:TestStruct>
</root>
"#
    )
}

#[test]
fn attributes_are_kept_in_name_order() {
    let mut w = XmlWriter::new().unwrap();
    let e = w
        .element_ns(XmlName::qualified("urn:x", "e"))
        .attr(XmlName::local("z"), "1".to_string())
        .attr(XmlName::local("a"), "2".to_string())
        .attr(XmlName::local("z"), "3".to_string());
    assert_eq!(e.attributes.len(), 2);
    w.empty_element(e).unwrap();
    assert_eq!(finish(w), "<?xml version=\"1.0\" encoding=\"UTF-8\"?>\n<e xmlns=\"urn:x\" a=\"2\" z=\"3\" />\n");
}

#[test]
fn closing_needs_an_open_element() {
    let mut w = XmlWriter::new().unwrap();
    assert!(w.end(Prefixes::new()).is_err());
    let b = w.element_ns(XmlName::qualified("urn:x", "a"));
    let previous = w.start(b).unwrap();
    assert!(w.text("hi").is_ok());
    assert!(w.end(previous).is_ok());
    assert!(w.end(Prefixes::new()).is_err());
    let text = finish(w);
    assert!(text.starts_with("<?xml version=\"1.0\" encoding=\"UTF-8\"?>"));
    assert!(text.contains("<a xmlns=\"urn:x\">hi</a>"));
}

#[test]
fn text_is_written_escaped() {
    let mut w = XmlWriter::new().unwrap();
    let b = w.element_ns(XmlName::qualified("urn:x", "a"));
    let previous = w.start(b).unwrap();
    w.text("1 < 2 & 3").unwrap();
    w.end(previous).unwrap();
    let text = finish(w);
    assert!(text.contains("<a xmlns=\"urn:x\">1 &lt; 2 &amp; 3</a>"));
    assert!(!text.contains("1 < 2"));
}
