use yeelight_ctl::bulb::{Bulb, LightMode, Method, Power, RGB};
use yeelight_ctl::safebulb::SafeBulb;

fn full_payload() -> String {
    [
        "HTTP/1.1 200 OK",
        "Cache-Control: max-age=3600",
        "Location: yeelight://192.168.1.239:55443",
        "id: 0x000000000015243f",
        "model: color",
        "fw_ver: 18",
        "support: get_prop set_default set_power toggle set_bright start_cf stop_cf set_scene cron_add cron_get cron_del set_ct_abx set_rgb",
        "power: on",
        "bright: 100",
        "color_mode: 2",
        "ct: 4000",
        "rgb: 16711680",
        "hue: 100",
        "sat: 35",
        "name: my_bulb",
    ]
    .join("\r\n")
}

#[test]
fn parses_full_payload() {
    let b = Bulb::parse(&full_payload()).expect("well-formed payload must parse");
    assert_eq!(b.id, "0x000000000015243f");
    assert_eq!(b.model, "color");
    assert_eq!(b.fw_ver, "18");
    assert_eq!(b.power, Power::On);
    assert_eq!(b.bright, 100);
    assert!(matches!(b.color_mode, LightMode::ColorTemperature(4000)));
    assert_eq!(b.name, "my_bulb");
    assert_eq!(b.ip_address, "192.168.1.239:55443");
    assert_eq!(b.support.len(), 13);
    assert!(b.support.contains(&Method::GetProp));
    assert!(b.support.contains(&Method::SetRgb));
}

#[test]
fn missing_required_field_fails() {
    let keys = [
        "id: ", "model: ", "fw_ver: ", "support: ", "power: on", "bright: ", "color_mode: ",
        "name: ", "Location: ",
    ];
    for dropped in keys {
        let key = dropped.split(':').next().unwrap();
        let payload: Vec<String> = full_payload()
            .split("\r\n")
            .filter(|line| !line.starts_with(key))
            .map(|line| line.to_string())
            .collect();
        let payload = payload.join("\r\n");
        assert!(
            Bulb::parse(&payload).is_none(),
            "payload without {key} must not parse"
        );
    }
}

#[test]
fn color_mode_one_unpacks_rgb() {
    let payload = full_payload().replace("color_mode: 2", "color_mode: 1");
    let b = Bulb::parse(&payload).unwrap();
    // 16711680 is 0xFF0000: pure red
    match b.color_mode {
        LightMode::Color(c) => {
            assert_eq!(c.r, 255);
            assert_eq!(c.g, 0);
            assert_eq!(c.b, 0);
            assert_eq!(c.packed(), 16711680);
        },
        other => panic!("expected a color, got {other:?}"),
    }
}

#[test]
fn rgb_round_trips_through_parse() {
    let payload = full_payload()
        .replace("color_mode: 2", "color_mode: 1")
        .replace("rgb: 16711680", "rgb: 1193046");
    let b = Bulb::parse(&payload).unwrap();
    match b.color_mode {
        LightMode::Color(c) => assert_eq!(c.packed(), 1193046),
        other => panic!("expected a color, got {other:?}"),
    }
}

#[test]
fn rgb_upper_bits_ignored() {
    let c = RGB::new(0xAB_12_34_56);
    assert_eq!(c.r, 0x12);
    assert_eq!(c.g, 0x34);
    assert_eq!(c.b, 0x56);
    assert_eq!(c.packed(), 0x12_34_56);
}

#[test]
fn color_mode_three_requires_hue_and_sat() {
    let payload = full_payload().replace("color_mode: 2", "color_mode: 3");
    let b = Bulb::parse(&payload).unwrap();
    match b.color_mode {
        LightMode::Hsv(h) => {
            assert_eq!(h.hue, 100);
            assert_eq!(h.saturation, 35);
        },
        other => panic!("expected hue and saturation, got {other:?}"),
    }
    let without_sat: Vec<&str> = payload
        .split("\r\n")
        .filter(|line| !line.starts_with("sat"))
        .collect();
    assert!(Bulb::parse(&without_sat.join("\r\n")).is_none());
}

#[test]
fn unknown_discriminator_fails() {
    for bad in ["color_mode: 4", "color_mode: 0", "color_mode: x", "color_mode: 256"] {
        let payload = full_payload().replace("color_mode: 2", bad);
        assert!(Bulb::parse(&payload).is_none(), "{bad} must not parse");
    }
}

#[test]
fn unselected_variant_fields_are_ignored() {
    // color mode 2 only needs ct; a malformed rgb value must not matter
    let payload = full_payload().replace("rgb: 16711680", "rgb: junk");
    let b = Bulb::parse(&payload).unwrap();
    assert!(matches!(b.color_mode, LightMode::ColorTemperature(4000)));
}

#[test]
fn brightness_above_hundred_is_rejected() {
    let payload = full_payload().replace("bright: 100", "bright: 101");
    assert!(Bulb::parse(&payload).is_none());
    let payload = full_payload().replace("bright: 100", "bright: 255");
    assert!(Bulb::parse(&payload).is_none());
}

#[test]
fn brightness_edge_values() {
    let b = Bulb::parse(&full_payload().replace("bright: 100", "bright: 0")).unwrap();
    assert_eq!(b.bright, 0);
    let b = Bulb::parse(&full_payload().replace("bright: 100", "bright: 007")).unwrap();
    assert_eq!(b.bright, 7);
    let b = Bulb::parse(&full_payload().replace("bright: 100", "bright: +5")).unwrap();
    assert_eq!(b.bright, 5);
    assert!(Bulb::parse(&full_payload().replace("bright: 100", "bright: -1")).is_none());
    assert!(Bulb::parse(&full_payload().replace("bright: 100", "bright: ")).is_none());
}

#[test]
fn unrecognized_capability_tokens_are_dropped() {
    let payload = full_payload().replace(
        "support: get_prop set_default set_power toggle set_bright start_cf stop_cf set_scene cron_add cron_get cron_del set_ct_abx set_rgb",
        "support: get_prop shine_brighter set_power warp_drive",
    );
    let b = Bulb::parse(&payload).unwrap();
    assert_eq!(b.support, vec![Method::GetProp, Method::SetPower]);
}

#[test]
fn repeated_capability_kept_once() {
    let payload = full_payload().replace(
        "support: get_prop set_default set_power toggle set_bright start_cf stop_cf set_scene cron_add cron_get cron_del set_ct_abx set_rgb",
        "support: toggle toggle toggle",
    );
    let b = Bulb::parse(&payload).unwrap();
    assert_eq!(b.support, vec![Method::Toggle]);
}

#[test]
fn later_duplicate_key_shadows_earlier() {
    let payload = format!("{}\r\nbright: 42", full_payload());
    let b = Bulb::parse(&payload).unwrap();
    assert_eq!(b.bright, 42);
}

#[test]
fn location_without_scheme_separator_fails() {
    let payload = full_payload().replace(
        "Location: yeelight://192.168.1.239:55443",
        "Location: 192.168.1.239:55443",
    );
    assert!(Bulb::parse(&payload).is_none());
}

#[test]
fn power_must_be_on_or_off() {
    let b = Bulb::parse(&full_payload().replace("power: on", "power: off")).unwrap();
    assert_eq!(b.power, Power::Off);
    assert!(Bulb::parse(&full_payload().replace("power: on", "power: dim")).is_none());
}

#[test]
fn method_from_string_recognizes_known_tokens() {
    assert_eq!(Method::from_string("get_prop"), Some(Method::GetProp));
    assert_eq!(Method::from_string("set_ct_abx"), Some(Method::SetCtAbx));
    assert_eq!(Method::from_string("cron_del"), Some(Method::CronDel));
    assert_eq!(Method::from_string("set_prop"), None);
    assert_eq!(Method::from_string(""), None);
}

#[test]
fn power_from_string_recognizes_states() {
    assert_eq!(Power::from_string("on"), Some(Power::On));
    assert_eq!(Power::from_string("off"), Some(Power::Off));
    assert_eq!(Power::from_string("ON"), None);
}

fn safe_payload() -> String {
    [
        "id: 1385031",
        "model: color",
        "fw_ver: 18",
        "support: get_prop toggle",
        "power: off",
        "bright: 55",
        "color_mode: 1",
        "rgb: 65280",
        "name: desk",
    ]
    .join("\r\n")
}

#[test]
fn safe_bulb_parses_numeric_id() {
    let b = SafeBulb::parse(&safe_payload()).expect("numeric-id payload must parse");
    assert_eq!(b.id, 1385031);
    assert_eq!(b.model, "color");
    assert_eq!(b.power, Power::Off);
    assert_eq!(b.bright, 55);
    match b.color_mode {
        LightMode::Color(c) => {
            assert_eq!(c.r, 0);
            assert_eq!(c.g, 255);
            assert_eq!(c.b, 0);
        },
        other => panic!("expected a color, got {other:?}"),
    }
    assert_eq!(b.name, "desk");
}

#[test]
fn safe_bulb_rejects_non_numeric_id() {
    let payload = safe_payload().replace("id: 1385031", "id: 0x15243f");
    assert!(SafeBulb::parse(&payload).is_none());
    let negative = safe_payload().replace("id: 1385031", "id: -7");
    assert_eq!(SafeBulb::parse(&negative).unwrap().id, -7);
}
