use yeelight_ctl::bulb::Bulb;
use yeelight_ctl::discovery::{collect_devices, multicast_addr, remove_duplicates, search_message};

fn payload(id: &str, name: &str) -> String {
    format!(
        "Location: yeelight://192.168.1.239:55443\r\nid: {id}\r\nmodel: color\r\nfw_ver: 18\r\nsupport: get_prop toggle\r\npower: on\r\nbright: 80\r\ncolor_mode: 2\r\nct: 3500\r\nname: {name}"
    )
}

#[test]
fn no_responses_yield_empty_set() {
    let found = collect_devices(&vec![]);
    assert!(found.is_empty());
}

#[test]
fn same_id_keeps_first_record_only() {
    let payloads = vec![
        payload("0x1", "first"),
        payload("0x1", "second"),
        payload("0x1", "third"),
    ];
    let found = collect_devices(&payloads);
    assert_eq!(found.len(), 1);
    assert_eq!(found[0].id, "0x1");
    assert_eq!(found[0].name, "first");
}

#[test]
fn distinct_ids_kept_in_arrival_order() {
    let payloads = vec![
        payload("0xb", "lamp"),
        payload("0xa", "strip"),
        payload("0xb", "lamp-again"),
        payload("0xc", "ceiling"),
    ];
    let found = collect_devices(&payloads);
    let ids: Vec<&str> = found.iter().map(|b| b.id.as_str()).collect();
    assert_eq!(ids, vec!["0xb", "0xa", "0xc"]);
    assert_eq!(found[0].name, "lamp");
}

#[test]
fn malformed_payloads_are_dropped_not_fatal() {
    let payloads = vec![
        "not an advertisement at all".to_string(),
        payload("0x9", "good"),
        payload("0x9", "dup").replace("power: on", "power: broken"),
    ];
    let found = collect_devices(&payloads);
    assert_eq!(found.len(), 1);
    assert_eq!(found[0].name, "good");
}

#[test]
fn remove_duplicates_direct() {
    let a = Bulb::parse(&payload("0x1", "one")).unwrap();
    let b = Bulb::parse(&payload("0x2", "two")).unwrap();
    let c = Bulb::parse(&payload("0x1", "shadow")).unwrap();
    let out = remove_duplicates(vec![a, b, c]);
    assert_eq!(out.len(), 2);
    assert_eq!(out[0].name, "one");
    assert_eq!(out[1].name, "two");
}

#[test]
fn search_request_wire_form() {
    let msg = search_message();
    assert_eq!(
        msg,
        "M-SEARCH * HTTP/1.1\r\nHOST: 239.255.255.250:1982\r\nMAN: \"ssdp:discover\"\r\nST: wifi_bulb\r\n"
    );
    assert_eq!(multicast_addr(), "239.255.255.250:1982");
}
