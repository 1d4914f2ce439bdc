use catalyst_ibc_interface::channel::{
    validate_ibc_channel_config, ChannelRegistry, IbcChannel, IbcEndpoint,
    CATALYST_V1_CHANNEL_VERSION,
};
use catalyst_ibc_interface::error::ContractError;
use catalyst_ibc_interface::ibc::{ibc_channel_close, ibc_channel_connect, ibc_channel_open};

fn channel(id: &str, version: &str) -> IbcChannel {
    IbcChannel {
        endpoint: IbcEndpoint { port_id: "wasm.local".to_string(), channel_id: id.to_string() },
        counterparty_endpoint: IbcEndpoint {
            port_id: "wasm.remote".to_string(),
            channel_id: "channel-9".to_string(),
        },
        version: version.to_string(),
        connection_id: "connection-0".to_string(),
    }
}

fn refused_version(r: Result<(), ContractError>) -> String {
    match r {
        Err(ContractError::InvalidIbcChannelVersion { version }) => version,
        other => panic!("expected a version error, got {:?}", other),
    }
}

#[test]
fn matching_versions_open() {
    assert_eq!(CATALYST_V1_CHANNEL_VERSION, "catalyst-v1");
    let v = "catalyst-v1".to_string();
    assert!(ibc_channel_open(&channel("channel-0", "catalyst-v1"), Some(&v)).is_ok());
    assert!(ibc_channel_open(&channel("channel-0", "catalyst-v1"), None).is_ok());
}

#[test]
fn wrong_local_version_is_refused() {
    let r = validate_ibc_channel_config(&channel("channel-0", "ics20-1"), None);
    assert_eq!(refused_version(r), "ics20-1");
}

#[test]
fn wrong_counterparty_version_is_refused() {
    let v = "catalyst-v2".to_string();
    let r = ibc_channel_open(&channel("channel-0", "catalyst-v1"), Some(&v));
    assert_eq!(refused_version(r), "catalyst-v2");
}

#[test]
fn connect_records_and_close_forgets() {
    let mut registry = ChannelRegistry::new();
    let v = "catalyst-v1".to_string();
    ibc_channel_connect(&mut registry, channel("channel-0", "catalyst-v1"), Some(&v)).unwrap();
    let info = registry.lookup(&"channel-0".to_string()).unwrap();
    assert_eq!(info.connection_id, "connection-0");
    assert_eq!(info.counterparty_endpoint.channel_id, "channel-9");
    ibc_channel_close(&mut registry, channel("channel-0", "catalyst-v1"));
    assert!(registry.lookup(&"channel-0".to_string()).is_none());
    // closing again is no error
    ibc_channel_close(&mut registry, channel("channel-0", "catalyst-v1"));
    assert!(registry.lookup(&"channel-0".to_string()).is_none());
}

#[test]
fn refused_connect_leaves_registry_unchanged() {
    let mut registry = ChannelRegistry::new();
    ibc_channel_connect(&mut registry, channel("channel-0", "catalyst-v1"), None).unwrap();
    let bad = "other".to_string();
    let r = ibc_channel_connect(&mut registry, channel("channel-1", "catalyst-v1"), Some(&bad));
    assert_eq!(refused_version(r), "other");
    assert!(registry.lookup(&"channel-1".to_string()).is_none());
    assert!(registry.lookup(&"channel-0".to_string()).is_some());
}

#[test]
fn save_replaces_entry() {
    let mut registry = ChannelRegistry::new();
    ibc_channel_connect(&mut registry, channel("channel-0", "catalyst-v1"), None).unwrap();
    let mut again = channel("channel-0", "catalyst-v1");
    again.connection_id = "connection-5".to_string();
    ibc_channel_connect(&mut registry, again, None).unwrap();
    let info = registry.lookup(&"channel-0".to_string()).unwrap();
    assert_eq!(info.connection_id, "connection-5");
}
