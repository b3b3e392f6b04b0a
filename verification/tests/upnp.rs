use flick_sync::upnp::{
    action_for, browse_counts, browse_page, route_parsed, route_soap_request, ArgDirection,
    SoapActionKind, SoapRoute, Sort, UpnpError,
};

#[test]
fn error_codes() {
    assert_eq!(UpnpError::InvalidAction.status(), 401);
    assert_eq!(UpnpError::InvalidArgs.status(), 402);
    assert_eq!(UpnpError::ActionFailed.status(), 501);
    assert_eq!(UpnpError::ArgumentInvalid.status(), 600);
    assert_eq!(UpnpError::ActionFailed.status_code(), 500);
    assert_eq!(UpnpError::InvalidArgs.status_code(), 400);
    assert_eq!(UpnpError::ActionFailed.resource_failure_status(), 400);
    assert_eq!(UpnpError::ArgumentInvalid.resource_failure_status(), 404);
    assert_eq!(UpnpError::unknown_object(), UpnpError::ArgumentInvalid);
}

#[test]
fn fault_codes_blame_client_or_server() {
    assert_eq!(UpnpError::InvalidAction.fault_code(), "Client");
    assert_eq!(UpnpError::InvalidArgs.fault_code(), "Client");
    assert_eq!(UpnpError::ActionFailed.fault_code(), "Server");
    assert_eq!(UpnpError::ArgumentInvalid.fault_code(), "Server");
}

#[test]
fn soap_action_names() {
    assert_eq!(
        SoapActionKind::Browse.soap_action(),
        "urn:schemas-upnp-org:service:ContentDirectory:1#Browse"
    );
    assert_eq!(
        SoapActionKind::GetProtocolInfo.soap_action(),
        "urn:schemas-upnp-org:service:ConnectionManager:1#GetProtocolInfo"
    );
    let args = SoapActionKind::Browse.arguments();
    assert_eq!(args.len(), 10);
    assert_eq!(args[0].0, "ObjectID");
    assert_eq!(args[0].1, ArgDirection::In);
    assert_eq!(args[9].0, "UpdateID");
    assert_eq!(args[9].1.as_str(), "out");
}

#[test]
fn actions_are_found_with_or_without_quotes() {
    assert_eq!(
        action_for("\"urn:schemas-upnp-org:service:ContentDirectory:1#Search\""),
        Some(SoapActionKind::Search)
    );
    assert_eq!(
        action_for("urn:schemas-upnp-org:service:ConnectionManager:1#GetCurrentConnectionIDs"),
        Some(SoapActionKind::GetCurrentConnectionIDs)
    );
    assert_eq!(action_for("urn:schemas-upnp-org:service:ConnectionManager:1#Browse"), None);
}

#[test]
fn routes_control_requests() {
    let browse = "\"urn:schemas-upnp-org:service:ContentDirectory:1#Browse\"";
    assert_eq!(
        route_soap_request(Some("text/xml; charset=\"utf-8\""), Some(browse)),
        SoapRoute::Action(SoapActionKind::Browse)
    );
    assert_eq!(
        route_soap_request(Some("APPLICATION/XML"), Some(browse)),
        SoapRoute::Action(SoapActionKind::Browse)
    );
    assert_eq!(route_soap_request(Some("text/plain"), Some(browse)), SoapRoute::BadRequest);
    assert_eq!(route_soap_request(Some("not a type"), Some(browse)), SoapRoute::BadRequest);
    assert_eq!(route_soap_request(None, Some(browse)), SoapRoute::BadRequest);
    assert_eq!(route_soap_request(Some("text/xml"), None), SoapRoute::BadRequest);
    assert_eq!(route_soap_request(Some("text/xml"), Some("x#y")), SoapRoute::InvalidAction);
}

#[test]
fn routes_from_parsed_media_types() {
    let browse = "urn:schemas-upnp-org:service:ContentDirectory:1#Browse";
    assert_eq!(
        route_parsed(Some(("application".to_string(), "xml".to_string())), Some(browse)),
        SoapRoute::Action(SoapActionKind::Browse)
    );
    assert_eq!(
        route_parsed(Some(("image".to_string(), "xml".to_string())), Some(browse)),
        SoapRoute::BadRequest
    );
}

#[test]
fn sort_criteria() {
    assert_eq!(Sort::parse("+dc:title"), Sort::Ascending("dc:title".to_string()));
    assert_eq!(Sort::parse("-dc:date"), Sort::Descending("dc:date".to_string()));
    assert_eq!(Sort::parse("dc:title"), Sort::Ascending("dc:title".to_string()));
}

#[test]
fn browse_pages() {
    let (page, total) = browse_page(vec![1, 2, 3, 4, 5], 1, 2);
    assert_eq!(page, vec![2, 3]);
    assert_eq!(total, 5);
    let (page, total) = browse_page(vec![1, 2, 3], 2, 10);
    assert_eq!(page, vec![3]);
    assert_eq!(total, 3);
    let (page, _) = browse_page(vec![1, 2, 3], 0, 0);
    assert!(page.is_empty());
    let (page, _) = browse_page(vec![1, 2, 3], 3, 1);
    assert!(page.is_empty());
    let counts = browse_counts(2, 5);
    assert_eq!((counts.number_returned, counts.total_matches, counts.update_id), (2, 5, 1));
}
