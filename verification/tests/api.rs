use std::collections::HashMap;

use nanopulse_core::api::{
    database_error_description, region_list, status_code, ErrorKind, ListParams, ListRequest,
};
use nanopulse_core::region::{Region, Regions};

fn region(name: &str) -> Region {
    Region {
        name: name.to_string(),
        description: String::new(),
        version: "1".to_string(),
        timing_multiplier_ms: 1000,
        tx_delay_key_response: 5,
        tx_delay_join_accept: 5,
        tx_delay_data: 1,
        uplink_channels: HashMap::new(),
        downlink_channels: HashMap::new(),
        downlink_tx_power_eirp: 14,
        uplink_downlink_channel_mapping: HashMap::new(),
        data_rates: HashMap::new(),
        uplink_downlink_data_rate_mapping: HashMap::new(),
    }
}

#[test]
fn list_paging_defaults() {
    assert_eq!((0, 10), ListRequest { offset: None, limit: None }.window());
    assert_eq!((20, 5), ListRequest { offset: Some(20), limit: Some(5) }.window());
    assert_eq!((0, 10), ListParams { offset: None, limit: None }.window());
    assert_eq!((3, 7), ListParams { offset: Some(3), limit: Some(7) }.window());
}

#[test]
fn regions_are_listed_by_module() {
    let mut regions = Regions::new();
    regions.insert("regions.lora.us915".to_string(), region("US915"));
    regions.insert("regions.lora.eu868".to_string(), region("EU868"));
    let list = region_list(&regions);
    assert_eq!(2, list.len());
    assert_eq!("regions.lora.eu868", list[0].module);
    assert_eq!("EU868", list[0].name);
    assert_eq!("regions.lora.us915", list[1].module);
    assert_eq!("US915", list[1].name);
}

#[test]
fn error_answers() {
    assert_eq!(404, status_code(ErrorKind::NotFound));
    assert_eq!(404, status_code(ErrorKind::RowNotFound));
    assert_eq!(422, status_code(ErrorKind::InvalidPin));
    assert_eq!(422, status_code(ErrorKind::Database));
    assert_eq!(500, status_code(ErrorKind::Abort));
    assert_eq!(500, status_code(ErrorKind::Other));
    // invalid parameters
    assert_eq!(400, status_code(ErrorKind::Validation));
    assert_eq!(
        "Object already exist by the same identifier",
        database_error_description("UNIQUE constraint failed: device.name")
    );
    assert_eq!("disk I/O error", database_error_description("disk I/O error"));
}
