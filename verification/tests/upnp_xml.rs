use flick_sync::upnp::{Container, Item, Object, Resource, SoapActionKind, UpnpError};
use flick_sync::upnp_xml::{
    device_description, didl_document, resource_url, service_description, write_fault,
};
use flick_sync::xml::XmlName;
use flick_sync::xml_write::XmlWriter;

fn text(bytes: Vec<u8>) -> String {
    String::from_utf8(bytes).unwrap()
}

#[test]
fn device_description_lists_services() {
    let doc = text(device_description(0x0123_4567_89ab_cdef_0123_4567_89ab_cdef).unwrap());
    assert!(doc.starts_with("<?xml version=\"1.0\" encoding=\"UTF-8\"?>\n<root xmlns=\"urn:schemas-upnp-org:device-1-0\">"));
    assert!(doc.contains("<UDN>uuid:01234567-89ab-cdef-0123-456789abcdef</UDN>"));
    assert!(doc.contains("<friendlyName>Synced Flicks</friendlyName>"));
    assert!(doc.contains("<serviceType>urn:schemas-upnp-org:service:ConnectionManager:1</serviceType>"));
    assert!(doc.contains("<SCPDURL>/service/ContentDirectory.xml</SCPDURL>"));
    assert!(doc.contains("<eventSubURL />"));
    assert!(doc.contains("<major>1</major>"));
}

#[test]
fn service_description_lists_actions() {
    let doc = text(service_description(&vec![SoapActionKind::GetSortCapabilities, SoapActionKind::Browse]).unwrap());
    assert!(doc.contains("<scpd xmlns=\"urn:schemas-upnp-org:service-1-0\">"));
    assert!(doc.contains("<name>GetSortCapabilities</name>"));
    assert!(doc.contains("<name>SortCaps</name>"));
    assert!(doc.contains("<direction>out</direction>"));
    assert!(doc.contains("<name>ObjectID</name>"));
    assert!(doc.contains("<direction>in</direction>"));
    assert!(doc.contains("<serviceStateTable />"));
    let sort = doc.find("GetSortCapabilities").unwrap();
    let browse = doc.find("<name>Browse</name>").unwrap();
    assert!(sort < browse);
}

#[test]
fn didl_listing() {
    let objects = vec![
        Object::Container(Container {
            id: "c1".to_string(),
            parent_id: "0".to_string(),
            child_count: Some(3),
            title: "Movies".to_string(),
        }),
        Object::Item(Item {
            id: "i1".to_string(),
            parent_id: "c1".to_string(),
            title: "Film".to_string(),
            resources: vec![Resource {
                id: "r1".to_string(),
                mime_type: "video/mp4".to_string(),
                size: Some(1000),
                seekable: true,
                duration: None,
            }],
        }),
    ];
    let doc = text(didl_document("http://10.0.0.1:1980/soap", &objects).unwrap().unwrap());
    assert!(doc.contains("<DIDL-Lite xmlns=\"urn:schemas-upnp-org:metadata-1-0/DIDL-Lite/\""));
    assert!(doc.contains("xmlns:dc=\"http://purl.org/dc/elements/1.1/\""));
    assert!(doc.contains("<container childCount=\"3\" id=\"c1\" parentID=\"0\" restricted=\"1\" searchable=\"0\">"));
    assert!(doc.contains("<dc:title>Movies</dc:title>"));
    assert!(doc.contains("<upnp:class>object.container</upnp:class>"));
    assert!(doc.contains("<item id=\"i1\" parentID=\"c1\" restricted=\"1\">"));
    assert!(doc.contains("<upnp:class>object.item.videoItem</upnp:class>"));
    assert!(doc.contains("<res protocolInfo=\"http-get:*:video/mp4:*\" size=\"1000\">http://10.0.0.1:1980/resource/r1</res>"));
    assert_eq!(resource_url("http://h:1/a/b", "x").as_deref(), Some("http://h:1/resource/x"));
    assert_eq!(resource_url("not a url", "x"), None);
    assert!(didl_document("not a url", &objects).is_none());
    assert!(didl_document("not a url", &vec![]).is_some());
}

#[test]
fn faults_name_who_is_at_fault() {
    let mut w = XmlWriter::new().unwrap();
    let envelope = w.element_ns(XmlName::qualified("urn:outer", "Envelope"));
    let previous = w.start(envelope).unwrap();
    write_fault(&mut w, &UpnpError::InvalidArgs).unwrap();
    w.end(previous).unwrap();
    let doc = text(w.finish());
    assert!(doc.contains("<faultcode>s:Client</faultcode>"));
    assert!(doc.contains("<faultstring>UPnPError</faultstring>"));
    assert!(doc.contains("<errorCode>402</errorCode>"));
    let mut w = XmlWriter::new().unwrap();
    let envelope = w.element_ns(XmlName::qualified("urn:outer", "Envelope"));
    let previous = w.start(envelope).unwrap();
    write_fault(&mut w, &UpnpError::ActionFailed).unwrap();
    w.end(previous).unwrap();
    let doc = text(w.finish());
    assert!(doc.contains("<faultcode>s:Server</faultcode>"));
    assert!(doc.contains("<errorCode>501</errorCode>"));
}
