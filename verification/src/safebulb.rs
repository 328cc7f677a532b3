//! A stricter device record for transports that advertise a numeric
//! identifier and no location header: the identifier must read as a signed
//! 32-bit integer, and no network address is recorded.
use vstd::prelude::*;

pub use crate::bulb::{LightMode, Method, Power, HSV, RGB};

use crate::bulb::{parse_support, spec_light_mode, spec_methods};
use crate::kv::{entries_of, field_of, parse_to_hashmap};
use crate::text::{parse_i32_str, parse_uint_str, parsed_i32, parsed_uint};

verus! {

/// A device record whose identifier is numeric.
#[derive(Debug)]
pub struct SafeBulb {
    /// Identifier that uniquely names the physical device.
    pub id: i32,
    /// Product model of the device.
    pub model: String,
    /// Firmware version, as advertised.
    pub fw_ver: String,
    /// The supported control methods, each held once.
    pub support: Vec<Method>,
    /// Current software power state.
    pub power: Power,
    /// Current brightness, a percentage of the maximum.
    pub bright: u8,
    /// Current light mode.
    pub color_mode: LightMode,
    /// User-assigned device name; may be empty.
    pub name: String,
}

/// The mathematical content of a numeric-id device record.
pub struct SafeBulbData {
    pub id: i32,
    pub model: Seq<char>,
    pub fw_ver: Seq<char>,
    pub support: Set<Method>,
    pub power: Power,
    pub bright: u8,
    pub color_mode: LightMode,
    pub name: Seq<char>,
}

impl View for SafeBulb {
    type V = SafeBulbData;

    open spec fn view(&self) -> SafeBulbData {
        SafeBulbData {
            id: self.id,
            model: self.model@,
            fw_ver: self.fw_ver@,
            support: self.support@.to_set(),
            power: self.power,
            bright: self.bright,
            color_mode: self.color_mode,
            name: self.name@,
        }
    }
}

impl SafeBulb {
    /// A record is well formed when its capability list holds each
    /// capability once and its brightness is a valid percentage.
    pub open spec fn wf(&self) -> bool {
        &&& self.support@.no_duplicates()
        &&& self.bright <= 100
    }
}

/// Whether a payload carries everything a numeric-id record needs.
pub open spec fn spec_parse_safe_ok(s: Seq<char>) -> bool {
    &&& field_of(s, "id"@) is Some
    &&& parsed_i32(field_of(s, "id"@)->0) is Some
    &&& field_of(s, "model"@) is Some
    &&& field_of(s, "fw_ver"@) is Some
    &&& field_of(s, "support"@) is Some
    &&& field_of(s, "power"@) is Some
    &&& Power::spec_from_string(field_of(s, "power"@)->0) is Some
    &&& field_of(s, "bright"@) is Some
    &&& parsed_uint(field_of(s, "bright"@)->0, 255) is Some
    &&& parsed_uint(field_of(s, "bright"@)->0, 255)->0 <= 100
    &&& spec_light_mode(entries_of(s)) is Some
    &&& field_of(s, "name"@) is Some
}

/// The numeric-id record a payload denotes, if it denotes one.
pub open spec fn spec_parse_safe_bulb(s: Seq<char>) -> Option<SafeBulbData> {
    if spec_parse_safe_ok(s) {
        Some(
            SafeBulbData {
                id: parsed_i32(field_of(s, "id"@)->0)->0 as i32,
                model: field_of(s, "model"@)->0,
                fw_ver: field_of(s, "fw_ver"@)->0,
                support: spec_methods(field_of(s, "support"@)->0),
                power: Power::spec_from_string(field_of(s, "power"@)->0)->0,
                bright: parsed_uint(field_of(s, "bright"@)->0, 255)->0 as u8,
                color_mode: spec_light_mode(entries_of(s))->0,
                name: field_of(s, "name"@)->0,
            },
        )
    } else {
        None
    }
}

impl SafeBulb {
    /// Parses one advertisement payload into a numeric-id record.
    /// Succeeds if and only if every required field is present and valid;
    /// no partial record is ever produced.
    pub fn parse(search_response: &str) -> (r: Option<SafeBulb>)
        ensures
            match r {
                Some(b) => spec_parse_safe_bulb(search_response@) == Some(b@) && b.wf(),
                None => spec_parse_safe_bulb(search_response@) is None,
            },
    {
        let response_map = parse_to_hashmap(search_response);
        let id = match response_map.get("id") {
            Some(v) => match parse_i32_str(v.as_str()) {
                Some(n) => n,
                None => {
                    return None;
                },
            },
            None => {
                return None;
            },
        };
        let model = match response_map.get("model") {
            Some(v) => v.clone(),
            None => {
                return None;
            },
        };
        let fw_ver = match response_map.get("fw_ver") {
            Some(v) => v.clone(),
            None => {
                return None;
            },
        };
        let support = match response_map.get("support") {
            Some(v) => parse_support(v.as_str()),
            None => {
                return None;
            },
        };
        let power = match response_map.get("power") {
            Some(v) => match Power::from_string(v.as_str()) {
                Some(p) => p,
                None => {
                    return None;
                },
            },
            None => {
                return None;
            },
        };
        let bright = match response_map.get("bright") {
            Some(v) => match parse_uint_str(v.as_str(), 255) {
                Some(b) => {
                    if b > 100 {
                        return None;
                    }
                    b as u8
                },
                None => {
                    return None;
                },
            },
            None => {
                return None;
            },
        };
        let color_mode = match LightMode::parse(&response_map) {
            Some(m) => m,
            None => {
                return None;
            },
        };
        let name = match response_map.get("name") {
            Some(v) => v.clone(),
            None => {
                return None;
            },
        };
        Some(SafeBulb { id, model, fw_ver, support, power, bright, color_mode, name })
    }
}

} // verus!
