use channel_relay::endpoints::endpoint_display_name;
use channel_relay::endpoints::select_endpoint;
use channel_relay::endpoints::DeliveryEndpoint;
use channel_relay::endpoints::EndpointInfo;
use channel_relay::routing::assemble_table;
use channel_relay::routing::ChannelMaps;
use channel_relay::routing::RefreshError;

fn endpoint(channel: u64, id: u64, token: &str) -> DeliveryEndpoint {
    DeliveryEndpoint { channel, endpoint: id, token: String::from(token) }
}

#[test]
fn select_first_tokened_endpoint() {
    let list = vec![
        EndpointInfo { id: 1, token: None },
        EndpointInfo { id: 2, token: Some(String::from("first-usable")) },
        EndpointInfo { id: 3, token: Some(String::from("later")) },
    ];
    let e = select_endpoint(77, &list).expect("an endpoint with a token exists");
    assert_eq!(e.channel, 77);
    assert_eq!(e.endpoint, 2);
    assert_eq!(e.token, "first-usable");
}

#[test]
fn select_none_when_no_token() {
    let list = vec![
        EndpointInfo { id: 1, token: None },
        EndpointInfo { id: 2, token: None },
    ];
    assert!(select_endpoint(77, &list).is_none());
}

#[test]
fn created_endpoints_carry_fixed_name() {
    assert_eq!(endpoint_display_name(), "Forward Bot");
}

#[test]
fn assembled_table_is_complete() {
    let pairs = vec![(42u64, 901u64), (7u64, 555u64)];
    let endpoints = vec![endpoint(901, 1, "a"), endpoint(555, 2, "b")];
    let table = assemble_table(&pairs, &endpoints).expect("every destination is covered");
    let d42 = table.destinations(42).expect("source 42 is mapped");
    assert_eq!(*d42, vec![901u64]);
    let d7 = table.destinations(7).expect("source 7 is mapped");
    assert_eq!(*d7, vec![555u64]);
    assert!(table.destinations(999).is_none());
    let e901 = table.endpoint_for(901).expect("destination 901 has an endpoint");
    assert_eq!(e901.endpoint, 1);
    assert_eq!(e901.token, "a");
    let e555 = table.endpoint_for(555).expect("destination 555 has an endpoint");
    assert_eq!(e555.endpoint, 2);
}

#[test]
fn assembly_fails_on_missing_endpoint() {
    let pairs = vec![(42u64, 901u64), (7u64, 555u64)];
    let endpoints = vec![endpoint(901, 1, "a")];
    match assemble_table(&pairs, &endpoints) {
        Ok(_) => panic!("destination 555 has no endpoint"),
        Err(e) => assert_eq!(e, RefreshError::MissingEndpoint { channel: 555 }),
    }
}

#[test]
fn failed_refresh_keeps_previous_table() {
    let pairs = vec![(42u64, 901u64)];
    let endpoints = vec![endpoint(901, 1, "a")];
    let mut installed = ChannelMaps::empty();
    let first = assemble_table(&pairs, &endpoints);
    assert!(installed.install_refresh(first).is_ok());
    assert!(installed.destinations(42).is_some());

    // a later refresh aborts: the installed table stays fully queryable
    let outcome = installed.install_refresh(Err(RefreshError::Platform));
    assert_eq!(outcome, Err(RefreshError::Platform));
    let d42 = installed.destinations(42).expect("previous mapping still served");
    assert_eq!(*d42, vec![901u64]);
    assert_eq!(installed.endpoint_for(901).expect("endpoint kept").endpoint, 1);

    // a configuration error (missing permission) aborts the same way
    let outcome = installed.install_refresh(Err(RefreshError::Configuration));
    assert_eq!(outcome, Err(RefreshError::Configuration));
    assert!(installed.destinations(42).is_some());
}

#[test]
fn empty_table_serves_nothing() {
    let table = ChannelMaps::empty();
    assert!(table.destinations(1).is_none());
    assert!(table.endpoint_for(1).is_none());
}
