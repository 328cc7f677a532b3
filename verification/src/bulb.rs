//! The device record parsed out of one advertisement payload, and the
//! parsing of its pieces: capability tags, power state, color mode.
use vstd::prelude::*;

use crate::kv::{entries_of, field_of, lookup, parse_to_hashmap, ResponseMap};
use crate::text::{parse_uint_str, parsed_uint, split_on, split_str, str_eq};

verus! {

/// One control operation a device may declare support for.
#[derive(Debug, Clone, Copy, PartialEq, Eq, Hash, Structural)]
pub enum Method {
    GetProp,
    SetDefault,
    SetPower,
    Toggle,
    SetBright,
    StartCf,
    StopCf,
    SetScene,
    CronAdd,
    CronGet,
    CronDel,
    SetCtAbx,
    SetRgb,
}

impl Method {
    /// The capability a token names; unrecognized tokens name none.
    pub open spec fn spec_from_string(s: Seq<char>) -> Option<Method> {
        if s == "get_prop"@ {
            Some(Method::GetProp)
        } else if s == "set_default"@ {
            Some(Method::SetDefault)
        } else if s == "set_power"@ {
            Some(Method::SetPower)
        } else if s == "toggle"@ {
            Some(Method::Toggle)
        } else if s == "set_bright"@ {
            Some(Method::SetBright)
        } else if s == "start_cf"@ {
            Some(Method::StartCf)
        } else if s == "stop_cf"@ {
            Some(Method::StopCf)
        } else if s == "set_scene"@ {
            Some(Method::SetScene)
        } else if s == "cron_add"@ {
            Some(Method::CronAdd)
        } else if s == "cron_get"@ {
            Some(Method::CronGet)
        } else if s == "cron_del"@ {
            Some(Method::CronDel)
        } else if s == "set_ct_abx"@ {
            Some(Method::SetCtAbx)
        } else if s == "set_rgb"@ {
            Some(Method::SetRgb)
        } else {
            None
        }
    }

    pub fn from_string(str: &str) -> (r: Option<Method>)
        ensures
            r == Method::spec_from_string(str@),
    {
        if str_eq(str, "get_prop") {
            Some(Method::GetProp)
        } else if str_eq(str, "set_default") {
            Some(Method::SetDefault)
        } else if str_eq(str, "set_power") {
            Some(Method::SetPower)
        } else if str_eq(str, "toggle") {
            Some(Method::Toggle)
        } else if str_eq(str, "set_bright") {
            Some(Method::SetBright)
        } else if str_eq(str, "start_cf") {
            Some(Method::StartCf)
        } else if str_eq(str, "stop_cf") {
            Some(Method::StopCf)
        } else if str_eq(str, "set_scene") {
            Some(Method::SetScene)
        } else if str_eq(str, "cron_add") {
            Some(Method::CronAdd)
        } else if str_eq(str, "cron_get") {
            Some(Method::CronGet)
        } else if str_eq(str, "cron_del") {
            Some(Method::CronDel)
        } else if str_eq(str, "set_ct_abx") {
            Some(Method::SetCtAbx)
        } else if str_eq(str, "set_rgb") {
            Some(Method::SetRgb)
        } else {
            None
        }
    }
}

/// The software power state a device advertises.
#[derive(Debug, Clone, Copy, PartialEq, Eq, Structural)]
pub enum Power {
    On,
    Off,
}

impl Power {
    /// The power state a token names, if any.
    pub open spec fn spec_from_string(s: Seq<char>) -> Option<Power> {
        if s == "on"@ {
            Some(Power::On)
        } else if s == "off"@ {
            Some(Power::Off)
        } else {
            None
        }
    }

    pub fn from_string(str: &str) -> (r: Option<Power>)
        ensures
            r == Power::spec_from_string(str@),
    {
        if str_eq(str, "on") {
            Some(Power::On)
        } else if str_eq(str, "off") {
            Some(Power::Off)
        } else {
            None
        }
    }
}

/// A color unpacked from the 24-bit wire form `0xRRGGBB`.
#[derive(Debug, Clone, Copy, PartialEq, Eq, Structural)]
pub struct RGB {
    pub r: u8,
    pub g: u8,
    pub b: u8,
}

/// The color the 24-bit wire value denotes: red in bits 16..24, green in
/// 8..16, blue in 0..8; higher bits are ignored.
pub open spec fn spec_rgb_of(v: u32) -> RGB {
    RGB { r: ((v >> 16) & 0xFF) as u8, g: ((v >> 8) & 0xFF) as u8, b: (v & 0xFF) as u8 }
}

impl RGB {
    pub fn new(value: u32) -> (r: RGB)
        ensures
            r == spec_rgb_of(value),
    {
        RGB {
            r: ((value >> 16) & 0xFF) as u8,
            g: ((value >> 8) & 0xFF) as u8,
            b: (value & 0xFF) as u8,
        }
    }

    /// The 24-bit wire value this color packs back into.
    pub open spec fn spec_packed(self) -> u32 {
        ((self.r as u32) << 16) | ((self.g as u32) << 8) | (self.b as u32)
    }

    pub fn packed(&self) -> (v: u32)
        ensures
            v == self.spec_packed(),
    {
        ((self.r as u32) << 16) | ((self.g as u32) << 8) | (self.b as u32)
    }
}

/// Unpacking a wire value and packing the result again reproduces the
/// original value's low 24 bits exactly.
pub proof fn lemma_rgb_round_trip(v: u32)
    ensures
        spec_rgb_of(v).spec_packed() == v & 0xFFFFFF,
{
    assert((((((v >> 16) & 0xFF) as u8) as u32) << 16) | (((((v >> 8) & 0xFF) as u8) as u32)
        << 8) | (((v & 0xFF) as u8) as u32) == v & 0xFFFFFF) by (bit_vector);
}

/// A color described by hue and saturation.
#[derive(Debug, Clone, Copy, PartialEq, Eq, Structural)]
pub struct HSV {
    /// Hue, degrees on the color wheel.
    pub hue: u16,
    /// Saturation, a percentage.
    pub saturation: u8,
}

/// The current light mode: exactly one of the three color representations.
#[derive(Debug, Clone, Copy, PartialEq, Eq, Structural)]
pub enum LightMode {
    Color(RGB),
    ColorTemperature(u32),
    Hsv(HSV),
}

/// The light mode the payload's entries describe: the `color_mode`
/// discriminator (1 color, 2 color temperature, 3 HSV) selects which
/// dependent fields are required; any other discriminator fails.
pub open spec fn spec_light_mode(entries: Seq<(Seq<char>, Seq<char>)>) -> Option<LightMode> {
    match lookup(entries, "color_mode"@) {
        None => None,
        Some(cms) => match parsed_uint(cms, 255) {
            None => None,
            Some(cm) => if cm == 1 {
                match lookup(entries, "rgb"@) {
                    None => None,
                    Some(rs) => match parsed_uint(rs, 0xFFFF_FFFF) {
                        None => None,
                        Some(rv) => Some(LightMode::Color(spec_rgb_of(rv as u32))),
                    },
                }
            } else if cm == 2 {
                match lookup(entries, "ct"@) {
                    None => None,
                    Some(cs) => match parsed_uint(cs, 0xFFFF_FFFF) {
                        None => None,
                        Some(cv) => Some(LightMode::ColorTemperature(cv as u32)),
                    },
                }
            } else if cm == 3 {
                match lookup(entries, "hue"@) {
                    None => None,
                    Some(hs) => match parsed_uint(hs, 0xFFFF) {
                        None => None,
                        Some(hv) => match lookup(entries, "sat"@) {
                            None => None,
                            Some(ss) => match parsed_uint(ss, 255) {
                                None => None,
                                Some(sv) => Some(
                                    LightMode::Hsv(
                                        HSV { hue: hv as u16, saturation: sv as u8 },
                                    ),
                                ),
                            },
                        },
                    },
                }
            } else {
                None
            },
        },
    }
}

impl LightMode {
    pub fn parse(response_map: &ResponseMap) -> (r: Option<LightMode>)
        ensures
            r == spec_light_mode(response_map@),
    {
        let cms = match response_map.get("color_mode") {
            Some(v) => v,
            None => {
                return None;
            },
        };
        let cm = match parse_uint_str(cms.as_str(), 255) {
            Some(v) => v,
            None => {
                return None;
            },
        };
        if cm == 1 {
            let rs = match response_map.get("rgb") {
                Some(v) => v,
                None => {
                    return None;
                },
            };
            match parse_uint_str(rs.as_str(), 0xFFFF_FFFF) {
                Some(rv) => Some(LightMode::Color(RGB::new(rv))),
                None => None,
            }
        } else if cm == 2 {
            let cs = match response_map.get("ct") {
                Some(v) => v,
                None => {
                    return None;
                },
            };
            match parse_uint_str(cs.as_str(), 0xFFFF_FFFF) {
                Some(cv) => Some(LightMode::ColorTemperature(cv)),
                None => None,
            }
        } else if cm == 3 {
            let hs = match response_map.get("hue") {
                Some(v) => v,
                None => {
                    return None;
                },
            };
            let hv = match parse_uint_str(hs.as_str(), 0xFFFF) {
                Some(v) => v,
                None => {
                    return None;
                },
            };
            let ss = match response_map.get("sat") {
                Some(v) => v,
                None => {
                    return None;
                },
            };
            match parse_uint_str(ss.as_str(), 255) {
                Some(sv) => Some(LightMode::Hsv(HSV { hue: hv as u16, saturation: sv as u8 })),
                None => None,
            }
        } else {
            None
        }
    }
}

/// The capabilities named by a whitespace-split token list: recognized
/// tokens are collected, unrecognized ones are dropped without failing.
pub open spec fn methods_of_tokens(ts: Seq<Seq<char>>) -> Set<Method>
    decreases ts.len(),
{
    if ts.len() == 0 {
        Set::empty()
    } else {
        let rest = methods_of_tokens(ts.drop_last());
        match Method::spec_from_string(ts.last()) {
            Some(m) => rest.insert(m),
            None => rest,
        }
    }
}

/// The capability set a `support` field value denotes.
pub open spec fn spec_methods(v: Seq<char>) -> Set<Method> {
    methods_of_tokens(split_on(v, " "@))
}

fn contains_method(v: &Vec<Method>, m: Method) -> (r: bool)
    ensures
        r == v@.contains(m),
{
    let mut i: usize = 0;
    while i < v.len()
        invariant
            0 <= i <= v@.len(),
            forall|k: int| 0 <= k < i ==> v@[k] != m,
        decreases v@.len() - i,
    {
        if v[i] == m {
            return true;
        }
        i = i + 1;
    }
    false
}

/// Splits a `support` value on spaces and keeps each recognized capability
/// once, in first-seen order.
pub fn parse_support(v: &str) -> (r: Vec<Method>)
    ensures
        r@.no_duplicates(),
        r@.to_set() == spec_methods(v@),
{
    proof {
        reveal_strlit(" ");
    }
    let toks = split_str(v, " ");
    let ghost tok_views = toks@.map_values(|p: String| p@);
    let mut res: Vec<Method> = Vec::new();
    let mut k: usize = 0;
    proof {
        assert(tok_views.subrange(0, 0) =~= Seq::<Seq<char>>::empty());
        assert(res@.to_set() =~= Set::<Method>::empty());
    }
    while k < toks.len()
        invariant
            0 <= k <= toks@.len(),
            tok_views == toks@.map_values(|p: String| p@),
            res@.no_duplicates(),
            res@.to_set() == methods_of_tokens(tok_views.subrange(0, k as int)),
        decreases toks@.len() - k,
    {
        proof {
            let pref = tok_views.subrange(0, k + 1);
            assert(pref.drop_last() =~= tok_views.subrange(0, k as int));
            assert(pref.last() == tok_views[k as int]);
            assert(toks@[k as int]@ == tok_views[k as int]);
        }
        match Method::from_string(toks[k].as_str()) {
            Some(m) => {
                if !contains_method(&res, m) {
                    let ghost prev = res@;
                    res.push(m);
                    proof {
                        lemma_to_set_push(prev, m);
                        assert(methods_of_tokens(tok_views.subrange(0, k + 1))
                            == methods_of_tokens(tok_views.subrange(0, k as int)).insert(m));
                        assert(res@.no_duplicates()) by {
                            assert(forall|i: int|
                                0 <= i < prev.len() ==> #[trigger] prev[i] != m) by {
                                assert(!prev.contains(m));
                            }
                            assert(forall|i: int|
                                0 <= i < prev.len() ==> #[trigger] res@[i] == prev[i]);
                            assert(res@[prev.len() as int] == m);
                        }
                    }
                } else {
                    proof {
                        assert(res@.to_set().contains(m)) by {
                            let i = choose|i: int| 0 <= i < res@.len() && res@[i] == m;
                            assert(res@.to_set().contains(res@[i]));
                        }
                        assert(res@.to_set() =~= methods_of_tokens(tok_views.subrange(0, k + 1)));
                    }
                }
            },
            None => {
                proof {
                    assert(res@.to_set() =~= methods_of_tokens(tok_views.subrange(0, k + 1)));
                }
            },
        }
        k = k + 1;
    }
    proof {
        assert(tok_views.subrange(0, tok_views.len() as int) =~= tok_views);
    }
    res
}

/// Pushing an element adds exactly it to the set of a sequence's elements.
proof fn lemma_to_set_push(s: Seq<Method>, m: Method)
    ensures
        s.push(m).to_set() == s.to_set().insert(m),
{
    assert forall|x: Method| s.push(m).to_set().contains(x) implies s.to_set().insert(
        m,
    ).contains(x) by {
        let i = choose|i: int| 0 <= i < s.push(m).len() && s.push(m)[i] == x;
        if i < s.len() {
            assert(s.to_set().contains(s[i]));
        }
    }
    assert forall|x: Method| s.to_set().insert(m).contains(x) implies s.push(m).to_set().contains(
        x,
    ) by {
        if x == m {
            assert(s.push(m)[s.len() as int] == m);
        } else {
            let i = choose|i: int| 0 <= i < s.len() && s[i] == x;
            assert(s.push(m)[i] == x);
        }
    }
    assert(s.push(m).to_set() =~= s.to_set().insert(m));
}

/// The host part of a location-style URI: the text after the scheme
/// separator `//`, if the separator occurs.
pub open spec fn spec_ip_of(loc: Seq<char>) -> Option<Seq<char>> {
    let ps = split_on(loc, "//"@);
    if ps.len() >= 2 {
        Some(ps[1])
    } else {
        None
    }
}

/// Extracts the host part after `//` from a location value.
fn parse_ip(loc: &str) -> (r: Option<String>)
    ensures
        match r {
            Some(v) => spec_ip_of(loc@) == Some(v@),
            None => spec_ip_of(loc@) is None,
        },
{
    proof {
        reveal_strlit("//");
    }
    let parts = split_str(loc, "//");
    if parts.len() >= 2 {
        let v = parts[1].clone();
        proof {
            assert(parts@.map_values(|p: String| p@)[1] == parts@[1]@);
        }
        Some(v)
    } else {
        None
    }
}

/// The parsed representation of one discovered device.
#[derive(Debug)]
pub struct Bulb {
    /// Identifier that uniquely names the physical device; the
    /// deduplication key.
    pub id: String,
    /// Product model of the device.
    pub model: String,
    /// Firmware version, as advertised.
    pub fw_ver: String,
    /// The supported control methods, each held once.
    pub support: Vec<Method>,
    /// Current software power state.
    pub power: Power,
    /// Current brightness, a percentage of the maximum.
    pub bright: u8,
    /// Current light mode.
    pub color_mode: LightMode,
    /// User-assigned device name; may be empty.
    pub name: String,
    /// Host address taken from the payload's location header.
    pub ip_address: String,
}

/// The mathematical content of a device record.
pub struct BulbData {
    pub id: Seq<char>,
    pub model: Seq<char>,
    pub fw_ver: Seq<char>,
    pub support: Set<Method>,
    pub power: Power,
    pub bright: u8,
    pub color_mode: LightMode,
    pub name: Seq<char>,
    pub ip_address: Seq<char>,
}

impl View for Bulb {
    type V = BulbData;

    open spec fn view(&self) -> BulbData {
        BulbData {
            id: self.id@,
            model: self.model@,
            fw_ver: self.fw_ver@,
            support: self.support@.to_set(),
            power: self.power,
            bright: self.bright,
            color_mode: self.color_mode,
            name: self.name@,
            ip_address: self.ip_address@,
        }
    }
}

impl Bulb {
    /// A record is well formed when its capability list holds each
    /// capability once and its brightness is a valid percentage.
    pub open spec fn wf(&self) -> bool {
        &&& self.support@.no_duplicates()
        &&& self.bright <= 100
    }
}

/// Whether a payload carries everything a complete record needs: every
/// required field present and numerically valid, the brightness within the
/// percentage domain, and the color-mode fields selected by a valid
/// discriminator.
pub open spec fn spec_parse_ok(s: Seq<char>) -> bool {
    &&& field_of(s, "id"@) is Some
    &&& field_of(s, "model"@) is Some
    &&& field_of(s, "fw_ver"@) is Some
    &&& field_of(s, "support"@) is Some
    &&& field_of(s, "power"@) is Some
    &&& Power::spec_from_string(field_of(s, "power"@)->0) is Some
    &&& field_of(s, "bright"@) is Some
    &&& parsed_uint(field_of(s, "bright"@)->0, 255) is Some
    &&& parsed_uint(field_of(s, "bright"@)->0, 255)->0 <= 100
    &&& spec_light_mode(entries_of(s)) is Some
    &&& field_of(s, "name"@) is Some
    &&& field_of(s, "Location"@) is Some
    &&& spec_ip_of(field_of(s, "Location"@)->0) is Some
}

/// The record a payload denotes, if it denotes one.
pub open spec fn spec_parse_bulb(s: Seq<char>) -> Option<BulbData> {
    if spec_parse_ok(s) {
        Some(
            BulbData {
                id: field_of(s, "id"@)->0,
                model: field_of(s, "model"@)->0,
                fw_ver: field_of(s, "fw_ver"@)->0,
                support: spec_methods(field_of(s, "support"@)->0),
                power: Power::spec_from_string(field_of(s, "power"@)->0)->0,
                bright: parsed_uint(field_of(s, "bright"@)->0, 255)->0 as u8,
                color_mode: spec_light_mode(entries_of(s))->0,
                name: field_of(s, "name"@)->0,
                ip_address: spec_ip_of(field_of(s, "Location"@)->0)->0,
            },
        )
    } else {
        None
    }
}

impl Bulb {
    /// Parses one advertisement payload into a device record. Succeeds if
    /// and only if the payload carries every required field in valid form;
    /// a missing or malformed field yields `None`, never a partial record.
    pub fn parse(search_response: &str) -> (r: Option<Bulb>)
        ensures
            match r {
                Some(b) => spec_parse_bulb(search_response@) == Some(b@) && b.wf(),
                None => spec_parse_bulb(search_response@) is None,
            },
    {
        let response_map = parse_to_hashmap(search_response);
        let id = match response_map.get("id") {
            Some(v) => v.clone(),
            None => {
                return None;
            },
        };
        let model = match response_map.get("model") {
            Some(v) => v.clone(),
            None => {
                return None;
            },
        };
        let fw_ver = match response_map.get("fw_ver") {
            Some(v) => v.clone(),
            None => {
                return None;
            },
        };
        let support = match response_map.get("support") {
            Some(v) => parse_support(v.as_str()),
            None => {
                return None;
            },
        };
        let power = match response_map.get("power") {
            Some(v) => match Power::from_string(v.as_str()) {
                Some(p) => p,
                None => {
                    return None;
                },
            },
            None => {
                return None;
            },
        };
        let bright = match response_map.get("bright") {
            Some(v) => match parse_uint_str(v.as_str(), 255) {
                Some(b) => {
                    if b > 100 {
                        return None;
                    }
                    b as u8
                },
                None => {
                    return None;
                },
            },
            None => {
                return None;
            },
        };
        let color_mode = match LightMode::parse(&response_map) {
            Some(m) => m,
            None => {
                return None;
            },
        };
        let name = match response_map.get("name") {
            Some(v) => v.clone(),
            None => {
                return None;
            },
        };
        let ip_address = match response_map.get("Location") {
            Some(v) => match parse_ip(v.as_str()) {
                Some(ip) => ip,
                None => {
                    return None;
                },
            },
            None => {
                return None;
            },
        };
        Some(
            Bulb {
                id,
                model,
                fw_ver,
                support,
                power,
                bright,
                color_mode,
                name,
                ip_address,
            },
        )
    }
}

/// A payload that carries every required field in valid form parses to a
/// complete record.
pub proof fn lemma_complete_payload_parses(s: Seq<char>)
    requires
        spec_parse_ok(s),
    ensures
        spec_parse_bulb(s) is Some,
{
}

/// A payload missing any required field fails to parse: no partial record
/// is ever produced.
pub proof fn lemma_missing_field_fails(s: Seq<char>)
    requires
        field_of(s, "id"@) is None || field_of(s, "model"@) is None || field_of(
            s,
            "fw_ver"@,
        ) is None || field_of(s, "support"@) is None || field_of(s, "power"@) is None
            || field_of(s, "bright"@) is None || field_of(s, "color_mode"@) is None || field_of(
            s,
            "name"@,
        ) is None || field_of(s, "Location"@) is None,
    ensures
        spec_parse_bulb(s) is None,
{
    if field_of(s, "color_mode"@) is None {
        assert(spec_light_mode(entries_of(s)) is None);
    }
}

/// Exactly one color-mode variant is populated, the one the discriminator
/// selects: 1 yields a color, 2 a color temperature, 3 hue and
/// saturation. A discriminator outside 1..=3, or one that does not read
/// as a number, fails the parse.
pub proof fn lemma_color_mode_discriminator(s: Seq<char>)
    ensures
        spec_parse_bulb(s) is Some ==> {
            let b = spec_parse_bulb(s)->0;
            let cm = parsed_uint(field_of(s, "color_mode"@)->0, 255);
            &&& field_of(s, "color_mode"@) is Some
            &&& cm is Some
            &&& (b.color_mode is Color <==> cm->0 == 1)
            &&& (b.color_mode is ColorTemperature <==> cm->0 == 2)
            &&& (b.color_mode is Hsv <==> cm->0 == 3)
        },
        field_of(s, "color_mode"@) is Some && parsed_uint(field_of(s, "color_mode"@)->0, 255)
            is None ==> spec_parse_bulb(s) is None,
        (field_of(s, "color_mode"@) is Some && (parsed_uint(
            field_of(s, "color_mode"@)->0,
            255,
        ) matches Some(cm) && cm != 1 && cm != 2 && cm != 3)) ==> spec_parse_bulb(s) is None,
{
}

/// Parsing in color mode 1 round-trips: packing the record's color back
/// into wire form reproduces the advertised value's 24 low bits, which
/// are all the wire value's significant bits.
pub proof fn lemma_parsed_rgb_round_trip(s: Seq<char>)
    requires
        spec_parse_bulb(s) is Some,
        spec_parse_bulb(s)->0.color_mode is Color,
    ensures
        field_of(s, "rgb"@) is Some,
        parsed_uint(field_of(s, "rgb"@)->0, 0xFFFF_FFFF) is Some,
        (spec_parse_bulb(s)->0.color_mode->Color_0).spec_packed() == (parsed_uint(
            field_of(s, "rgb"@)->0,
            0xFFFF_FFFF,
        )->0 as u32) & 0xFFFFFF,
{
    let rv = parsed_uint(field_of(s, "rgb"@)->0, 0xFFFF_FFFF)->0;
    lemma_rgb_round_trip(rv as u32);
}

} // verus!
