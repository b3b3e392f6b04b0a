use flick_sync::xml::XmlName;
use flick_sync::xml_read::{read_document, read_soap_action, ClientXmlError, XmlReader, SOAP_ENVELOPE};

fn custom(m: &str) -> ClientXmlError {
    ClientXmlError::Custom { message: m.to_string() }
}

#[test]
fn reads_elements_and_text() {
    let body = br#"<?xml version="1.0"?>
<root xmlns="urn:a" b="2" a="1"><child>hello</child><empty/>  <other> </other></root>"#;
    let (root, mut reader) = read_document("text/xml", body, &XmlName::qualified("urn:a", "root")).unwrap();
    assert_eq!(root.attributes.len(), 2);
    assert_eq!(root.attributes[0].0.local_name, "a");
    assert_eq!(root.attributes[0].1, "1");
    assert_eq!(root.attributes[1].0.local_name, "b");
    let child = reader.next_element().unwrap().unwrap();
    assert_eq!(child.name.as_ref(), (Some("urn:a"), "child"));
    assert_eq!(reader.text().unwrap(), Some("hello".to_string()));
    let empty = reader.next_element().unwrap().unwrap();
    assert_eq!(empty.name.local_name, "empty");
    assert_eq!(reader.text().unwrap(), None);
    let other = reader.next_element().unwrap().unwrap();
    assert_eq!(other.name.local_name, "other");
    assert_eq!(reader.text().unwrap(), None);
    assert!(reader.next_element().unwrap().is_none());
    assert_eq!(reader.next_element().unwrap_err(), custom("Unexpected end of XML document"));
}

#[test]
fn refuses_unexpected_documents() {
    let body = b"<root/>";
    assert_eq!(
        read_document("text/plain", body, &XmlName::qualified("urn:a", "root")).err(),
        Some(custom("Unexpected content-type: text/plain"))
    );
    let body = br#"<other xmlns="urn:a"/>"#;
    assert_eq!(
        read_document("application/xml", body, &XmlName::qualified("urn:a", "root")).err(),
        Some(custom("Unexpected document element urn:a#other"))
    );
    let body = b"<a><b></a>";
    let (_, mut reader) = read_document("text/xml", body, &XmlName { namespace: None, local_name: "a".to_string() }).unwrap();
    let b = reader.next_element().unwrap().unwrap();
    assert_eq!(b.name.local_name, "b");
    assert!(matches!(reader.next_element(), Err(ClientXmlError::Xml { .. })));
    let mut reader = XmlReader::new(b"<a>x<b/></a>");
    reader.next_element().unwrap();
    assert_eq!(reader.text(), Err(custom("Unexpected element b when expecting text")));
    let mut reader = XmlReader::new(b"<a>x<b/></a>");
    reader.next_element().unwrap();
    assert_eq!(reader.next_element().err(), Some(custom("Unexpected text in element")));
}

#[test]
fn reads_soap_actions() {
    let body = br#"<s:Envelope xmlns:s="http://schemas.xmlsoap.org/soap/envelope/"><s:Body><u:Browse xmlns:u="urn:schemas-upnp-org:service:ContentDirectory:1"><ObjectID>0</ObjectID></u:Browse></s:Body></s:Envelope>"#;
    let (_, mut reader) =
        read_document("text/xml", body, &XmlName::qualified(SOAP_ENVELOPE, "Envelope")).unwrap();
    let action = read_soap_action(&mut reader, "urn:schemas-upnp-org:service:ContentDirectory:1", "Browse").unwrap();
    assert_eq!(action.name.local_name, "Browse");
    let arg = reader.next_element().unwrap().unwrap();
    assert_eq!(arg.name.as_ref(), (None, "ObjectID"));
    assert_eq!(reader.text().unwrap(), Some("0".to_string()));

    let (_, mut reader) =
        read_document("text/xml", body, &XmlName::qualified(SOAP_ENVELOPE, "Envelope")).unwrap();
    assert_eq!(
        read_soap_action(&mut reader, "urn:schemas-upnp-org:service:ContentDirectory:1", "Search").err(),
        Some(custom("Unexpected body element"))
    );
    let body = br#"<s:Envelope xmlns:s="http://schemas.xmlsoap.org/soap/envelope/"><s:Header/></s:Envelope>"#;
    let (_, mut reader) =
        read_document("text/xml", body, &XmlName::qualified(SOAP_ENVELOPE, "Envelope")).unwrap();
    assert_eq!(read_soap_action(&mut reader, "urn:x", "Browse").err(), Some(custom("Missing body element")));
}

// The document is read element by element with the reader: serde's
// `Deserializer` is an outside trait, so the library offers no serde bridge for
// it, and the last field is checked as the text the reader gives.
#[test]
fn test_deserialization() {
    let mut reader = XmlReader::new(
        r#"<?xml version="1.0" encoding="UTF-8"?>
<root xmlns="urn:schemas-upnp-org:device-1-0" xmlns:a="urn:schemas-dlna-org:device-1-0" a:other="45" test="56">
    <A>hello</A>
    <B>23</B>
    <C>0</C>
</root>
"#
        .as_bytes(),
    );

    let element = reader.next_element().unwrap().unwrap();
    assert_eq!(element.name.namespace.as_deref(), Some("urn:schemas-upnp-org:device-1-0"));
    assert_eq!(element.name.local_name, "root");

    let mut attrs = element.attributes.iter();
    let (attr_name, value) = attrs.next().unwrap();
    assert_eq!(attr_name.namespace, None);
    assert_eq!(attr_name.local_name, "test");
    assert_eq!(value, "56");

    let (attr_name, value) = attrs.next().unwrap();
    assert_eq!(attr_name.namespace.as_deref(), Some("urn:schemas-dlna-org:device-1-0"));
    assert_eq!(attr_name.local_name, "other");
    assert_eq!(value, "45");

    assert!(attrs.next().is_none());

    let a = reader.next_element().unwrap().unwrap();
    assert_eq!(a.name.local_name, "A");
    assert_eq!(reader.text().unwrap().as_deref(), Some("hello"));
    let b = reader.next_element().unwrap().unwrap();
    assert_eq!(b.name.local_name, "B");
    let b: u32 = reader.text().unwrap().unwrap().parse().unwrap();
    assert_eq!(b, 23);
    let c = reader.next_element().unwrap().unwrap();
    assert_eq!(c.name.local_name, "C");
    let c = reader.text().unwrap().unwrap();
    assert_eq!(c, "0");
    assert!(reader.next_element().unwrap().is_none());
}
