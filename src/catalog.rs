use vstd::prelude::*;

use crate::json::{json_string, parse_json, parsed_json, quote_json, Json};

verus! {

/// What a device entry of the catalog holds.
pub struct DeviceModel {
    pub model_id: Seq<char>,
    pub name: Seq<char>,
    pub chipset: Seq<char>,
    pub drivers: Seq<Seq<char>>,
}

/// What a catalog holds: its version text and its devices in stored order.
pub struct CatalogModel {
    pub version: Seq<char>,
    pub devices: Seq<DeviceModel>,
}

/// One hardware model and the driver packages it needs, in installation order.
#[derive(Debug)]
pub struct Device {
    pub model_id: String,
    pub name: String,
    pub chipset: String,
    pub drivers: Vec<String>,
}

/// The hardware catalog: a version string for display and the known devices.
#[derive(Debug)]
pub struct Catalog {
    pub version: String,
    pub devices: Vec<Device>,
}

pub open spec fn texts_view(v: Seq<String>) -> Seq<Seq<char>> {
    v.map_values(|s: String| s@)
}

impl View for Device {
    type V = DeviceModel;

    open spec fn view(&self) -> DeviceModel {
        DeviceModel {
            model_id: self.model_id@,
            name: self.name@,
            chipset: self.chipset@,
            drivers: texts_view(self.drivers@),
        }
    }
}

pub open spec fn devices_view(v: Seq<Device>) -> Seq<DeviceModel> {
    v.map_values(|d: Device| d@)
}

impl View for Catalog {
    type V = CatalogModel;

    open spec fn view(&self) -> CatalogModel {
        CatalogModel { version: self.version@, devices: devices_view(self.devices@) }
    }
}

/// Why a catalog could not be loaded.
#[derive(Debug, Clone, Copy, PartialEq, Eq, Structural)]
pub enum LoadError {
    /// The catalog file could not be opened or read.
    FileUnreadable,
    /// The text is not JSON, or not a catalog in shape.
    MalformedData,
}

/// The value of the first member of an object named `key`.
pub open spec fn member(fields: Seq<(String, Json)>, key: Seq<char>) -> Option<Json>
    decreases fields.len(),
{
    if fields.len() == 0 {
        None
    } else if fields[0].0@ == key {
        Some(fields[0].1)
    } else {
        member(fields.drop_first(), key)
    }
}

pub open spec fn str_of(j: Json) -> Option<Seq<char>> {
    match j {
        Json::Str(s) => Some(s@),
        _ => None,
    }
}

pub open spec fn str_view(j: Json) -> Seq<char> {
    match j {
        Json::Str(s) => s@,
        _ => Seq::empty(),
    }
}

/// An array of strings, read as the sequence of their texts.
pub open spec fn strs_of(j: Json) -> Option<Seq<Seq<char>>> {
    match j {
        Json::Array(items) => if forall|i: int| 0 <= i < items@.len() ==> #[trigger] items@[i] is Str {
            Some(items@.map_values(|x: Json| str_view(x)))
        } else {
            None
        },
        _ => None,
    }
}

pub open spec fn text_member(fields: Seq<(String, Json)>, key: Seq<char>) -> Option<Seq<char>> {
    match member(fields, key) {
        Some(v) => str_of(v),
        None => None,
    }
}

pub open spec fn texts_member(fields: Seq<(String, Json)>, key: Seq<char>) -> Option<Seq<Seq<char>>> {
    match member(fields, key) {
        Some(v) => strs_of(v),
        None => None,
    }
}

/// A device entry: an object with string members `model_id`, `name` and
/// `chipset` and a member `drivers` that is an array of strings; other members
/// are ignored.
pub open spec fn device_of(j: Json) -> Option<DeviceModel> {
    match j {
        Json::Object(fields) => match (
            text_member(fields@, "model_id"@),
            text_member(fields@, "name"@),
            text_member(fields@, "chipset"@),
            texts_member(fields@, "drivers"@),
        ) {
            (Some(model_id), Some(name), Some(chipset), Some(drivers)) => Some(
                DeviceModel { model_id, name, chipset, drivers },
            ),
            _ => None,
        },
        _ => None,
    }
}

pub open spec fn device_view(j: Json) -> DeviceModel {
    match device_of(j) {
        Some(d) => d,
        None => DeviceModel {
            model_id: Seq::empty(),
            name: Seq::empty(),
            chipset: Seq::empty(),
            drivers: Seq::empty(),
        },
    }
}

/// An array of device entries, read in order.
pub open spec fn devices_of(j: Json) -> Option<Seq<DeviceModel>> {
    match j {
        Json::Array(items) => if forall|i: int|
            0 <= i < items@.len() ==> #[trigger] device_of(items@[i]) is Some {
            Some(items@.map_values(|x: Json| device_view(x)))
        } else {
            None
        },
        _ => None,
    }
}

/// A catalog: an object with a string member `version` and a member `devices`
/// that is an array of device entries; other members are ignored.
pub open spec fn catalog_of(j: Json) -> Option<CatalogModel> {
    match j {
        Json::Object(fields) => match member(fields@, "devices"@) {
            Some(ds) => match (text_member(fields@, "version"@), devices_of(ds)) {
                (Some(version), Some(devices)) => Some(CatalogModel { version, devices }),
                _ => None,
            },
            None => None,
        },
        _ => None,
    }
}

/// The catalog that a text holds, if it is JSON of a catalog's shape.
pub open spec fn catalog_of_text(text: Seq<char>) -> Option<CatalogModel> {
    match parsed_json(text) {
        Some(j) => catalog_of(j),
        None => None,
    }
}

/// Finds the first member of an object named `key`.
pub fn find_member<'a>(fields: &'a Vec<(String, Json)>, key: &String) -> (r: Option<&'a Json>)
    ensures
        match r {
            Some(v) => member(fields@, key@) == Some(*v),
            None => member(fields@, key@) is None,
        },
{
    let n = fields.len();
    let mut i: usize = 0;
    assert(fields@.subrange(0, n as int) =~= fields@);
    while i < n
        invariant
            n == fields@.len(),
            i <= n,
            member(fields@, key@) == member(fields@.subrange(i as int, n as int), key@),
        decreases n - i,
    {
        let entry = &fields[i];
        proof {
            let rest = fields@.subrange(i as int, n as int);
            assert(rest[0] == fields@[i as int]);
            assert(rest.drop_first() =~= fields@.subrange(i + 1, n as int));
        }
        if entry.0 == *key {
            return Some(&entry.1);
        }
        i = i + 1;
    }
    None
}


/// The string member `key` of an object, if it is there and is a string.
fn text_field(fields: &Vec<(String, Json)>, key: &str) -> (r: Option<String>)
    ensures
        match r {
            Some(s) => text_member(fields@, key@) == Some(s@),
            None => text_member(fields@, key@) is None,
        },
{
    let k = String::from_str(key);
    match find_member(fields, &k) {
        Some(Json::Str(s)) => Some(s.clone()),
        _ => None,
    }
}

/// Reads an array of strings.
fn strs_from_json(j: &Json) -> (r: Option<Vec<String>>)
    ensures
        match r {
            Some(v) => strs_of(*j) == Some(texts_view(v@)),
            None => strs_of(*j) is None,
        },
{
    match j {
        Json::Array(items) => {
            let mut out: Vec<String> = Vec::new();
            let mut i: usize = 0;
            while i < items.len()
                invariant
                    *j == Json::Array(*items),
                    i <= items@.len(),
                    out@.len() == i,
                    forall|k: int| 0 <= k < i ==> #[trigger] items@[k] is Str,
                    forall|k: int| 0 <= k < i ==> #[trigger] out@[k]@ == str_view(items@[k]),
                decreases items@.len() - i,
            {
                match &items[i] {
                    Json::Str(s) => out.push(s.clone()),
                    _ => {
                        assert(!(items@[i as int] is Str));
                        return None;
                    },
                }
                i = i + 1;
            }
            assert(texts_view(out@) =~= items@.map_values(|x: Json| str_view(x)));
            Some(out)
        },
        _ => None,
    }
}

/// The member `key` of an object, read as an array of strings.
fn texts_field(fields: &Vec<(String, Json)>, key: &str) -> (r: Option<Vec<String>>)
    ensures
        match r {
            Some(v) => texts_member(fields@, key@) == Some(texts_view(v@)),
            None => texts_member(fields@, key@) is None,
        },
{
    let k = String::from_str(key);
    match find_member(fields, &k) {
        Some(v) => strs_from_json(v),
        None => None,
    }
}

/// Reads one device entry.
pub fn device_from_json(j: &Json) -> (r: Option<Device>)
    ensures
        match r {
            Some(d) => device_of(*j) == Some(d@),
            None => device_of(*j) is None,
        },
{
    match j {
        Json::Object(fields) => {
            let model_id = text_field(fields, "model_id");
            let name = text_field(fields, "name");
            let chipset = text_field(fields, "chipset");
            let drivers = texts_field(fields, "drivers");
            match (model_id, name, chipset, drivers) {
                (Some(model_id), Some(name), Some(chipset), Some(drivers)) => Some(
                    Device { model_id, name, chipset, drivers },
                ),
                _ => None,
            }
        },
        _ => None,
    }
}

/// Reads an array of device entries, keeping their order.
fn devices_from_json(j: &Json) -> (r: Option<Vec<Device>>)
    ensures
        match r {
            Some(v) => devices_of(*j) == Some(devices_view(v@)),
            None => devices_of(*j) is None,
        },
{
    match j {
        Json::Array(items) => {
            let mut out: Vec<Device> = Vec::new();
            let mut i: usize = 0;
            while i < items.len()
                invariant
                    *j == Json::Array(*items),
                    i <= items@.len(),
                    out@.len() == i,
                    forall|k: int| 0 <= k < i ==> #[trigger] device_of(items@[k]) == Some(out@[k]@),
                decreases items@.len() - i,
            {
                match device_from_json(&items[i]) {
                    Some(d) => out.push(d),
                    None => {
                        assert(device_of(items@[i as int]) is None);
                        return None;
                    },
                }
                i = i + 1;
            }
            assert forall|k: int| 0 <= k < items@.len() implies #[trigger] device_of(items@[k]) is Some by {
                assert(device_of(items@[k]) == Some(out@[k]@));
            }
            assert(devices_view(out@) =~= items@.map_values(|x: Json| device_view(x)));
            Some(out)
        },
        _ => None,
    }
}

/// Reads a catalog from a JSON tree.
pub fn catalog_from_json(j: &Json) -> (r: Option<Catalog>)
    ensures
        match r {
            Some(c) => catalog_of(*j) == Some(c@),
            None => catalog_of(*j) is None,
        },
{
    match j {
        Json::Object(fields) => {
            let k = String::from_str("devices");
            match find_member(fields, &k) {
                Some(ds) => match (text_field(fields, "version"), devices_from_json(ds)) {
                    (Some(version), Some(devices)) => Some(Catalog { version, devices }),
                    _ => None,
                },
                None => None,
            }
        },
        _ => None,
    }
}

/// Decodes catalog text; fails with `MalformedData` exactly where the text is
/// not JSON or not of a catalog's shape.
pub fn decode_catalog(text: &str) -> (r: Result<Catalog, LoadError>)
    ensures
        match r {
            Ok(c) => catalog_of_text(text@) == Some(c@),
            Err(e) => e == LoadError::MalformedData && catalog_of_text(text@) is None,
        },
{
    match parse_json(text) {
        Some(j) => match catalog_from_json(&j) {
            Some(c) => Ok(c),
            None => Err(LoadError::MalformedData),
        },
        None => Err(LoadError::MalformedData),
    }
}

/// Loads a catalog from what reading its file gave: `None` where the file
/// could not be read.
pub fn load_catalog(contents: Option<String>) -> (r: Result<Catalog, LoadError>)
    ensures
        match contents {
            None => r == Err::<Catalog, LoadError>(LoadError::FileUnreadable),
            Some(text) => match r {
                Ok(c) => catalog_of_text(text@) == Some(c@),
                Err(e) => e == LoadError::MalformedData && catalog_of_text(text@) is None,
            },
        },
{
    match contents {
        None => Err(LoadError::FileUnreadable),
        Some(text) => decode_catalog(text.as_str()),
    }
}


/// `j` is a JSON string holding `s`.
pub open spec fn encodes_text(j: Json, s: Seq<char>) -> bool {
    j is Str && str_view(j) == s
}

/// `j` is a JSON array of the strings `ss`, in order.
pub open spec fn encodes_texts(j: Json, ss: Seq<Seq<char>>) -> bool {
    match j {
        Json::Array(items) => items@.len() == ss.len() && forall|i: int|
            0 <= i < ss.len() ==> encodes_text(#[trigger] items@[i], ss[i]),
        _ => false,
    }
}

/// `j` is the object that encodes device `d`: members `model_id`, `name`,
/// `chipset` and `drivers`, in that order.
pub open spec fn encodes_device(j: Json, d: DeviceModel) -> bool {
    match j {
        Json::Object(fields) => {
            &&& fields@.len() == 4
            &&& fields@[0].0@ == "model_id"@ && encodes_text(fields@[0].1, d.model_id)
            &&& fields@[1].0@ == "name"@ && encodes_text(fields@[1].1, d.name)
            &&& fields@[2].0@ == "chipset"@ && encodes_text(fields@[2].1, d.chipset)
            &&& fields@[3].0@ == "drivers"@ && encodes_texts(fields@[3].1, d.drivers)
        },
        _ => false,
    }
}

/// `j` is the object that encodes catalog `c`: members `version` and
/// `devices`, in that order, the devices in catalog order.
pub open spec fn encodes_catalog(j: Json, c: CatalogModel) -> bool {
    match j {
        Json::Object(fields) => {
            &&& fields@.len() == 2
            &&& fields@[0].0@ == "version"@ && encodes_text(fields@[0].1, c.version)
            &&& fields@[1].0@ == "devices"@
            &&& match fields@[1].1 {
                Json::Array(items) => items@.len() == c.devices.len() && forall|i: int|
                    0 <= i < c.devices.len() ==> encodes_device(#[trigger] items@[i], c.devices[i]),
                _ => false,
            }
        },
        _ => false,
    }
}

/// A JSON array of copies of `v`.
fn texts_to_json(v: &Vec<String>) -> (r: Json)
    ensures
        encodes_texts(r, texts_view(v@)),
{
    let mut items: Vec<Json> = Vec::new();
    let mut i: usize = 0;
    while i < v.len()
        invariant
            i <= v@.len(),
            items@.len() == i,
            forall|k: int| 0 <= k < i ==> encodes_text(#[trigger] items@[k], v@[k]@),
        decreases v@.len() - i,
    {
        items.push(Json::Str(v[i].clone()));
        i = i + 1;
    }
    Json::Array(items)
}

/// Encodes a device as a JSON object.
pub fn device_to_json(d: &Device) -> (r: Json)
    ensures
        encodes_device(r, d@),
{
    let fields = vec![
        (String::from_str("model_id"), Json::Str(d.model_id.clone())),
        (String::from_str("name"), Json::Str(d.name.clone())),
        (String::from_str("chipset"), Json::Str(d.chipset.clone())),
        (String::from_str("drivers"), texts_to_json(&d.drivers)),
    ];
    Json::Object(fields)
}

/// Encodes a catalog as a JSON object, devices and drivers in stored order.
pub fn catalog_to_json(c: &Catalog) -> (r: Json)
    ensures
        encodes_catalog(r, c@),
{
    let mut items: Vec<Json> = Vec::new();
    let mut i: usize = 0;
    while i < c.devices.len()
        invariant
            i <= c.devices@.len(),
            items@.len() == i,
            forall|k: int| 0 <= k < i ==> encodes_device(#[trigger] items@[k], c.devices@[k]@),
        decreases c.devices@.len() - i,
    {
        items.push(device_to_json(&c.devices[i]));
        i = i + 1;
    }
    let fields = vec![
        (String::from_str("version"), Json::Str(c.version.clone())),
        (String::from_str("devices"), Json::Array(items)),
    ];
    Json::Object(fields)
}

/// Decoding what encoding a device gave yields that device.
pub proof fn lemma_device_round_trip(j: Json, d: DeviceModel)
    requires
        encodes_device(j, d),
    ensures
        device_of(j) == Some(d),
{
    reveal_strlit("model_id");
    reveal_strlit("name");
    reveal_strlit("chipset");
    reveal_strlit("drivers");
    reveal_with_fuel(member, 5);
    if let Json::Object(fields) = j {
        let f = fields@;
        assert(f.drop_first().drop_first().drop_first()[0] == f[3]);
        assert(f.drop_first().drop_first()[0] == f[2]);
        assert(f.drop_first()[0] == f[1]);
        assert("model_id"@.len() == 8 && "name"@.len() == 4);
        assert("chipset"@.len() == 7 && "drivers"@.len() == 7);
        assert("chipset"@[0] != "drivers"@[0]);
        if let Json::Array(items) = f[3].1 {
            assert(items@.map_values(|x: Json| str_view(x)) =~= d.drivers);
        }
    }
}

/// Decoding the encoding of any catalog yields that catalog, with its devices
/// and their drivers in the same order.
pub proof fn lemma_catalog_round_trip(j: Json, c: CatalogModel)
    requires
        encodes_catalog(j, c),
    ensures
        catalog_of(j) == Some(c),
{
    reveal_strlit("version");
    reveal_strlit("devices");
    reveal_with_fuel(member, 3);
    if let Json::Object(fields) = j {
        let f = fields@;
        assert(f.drop_first()[0] == f[1]);
        assert("version"@[0] != "devices"@[0]);
        if let Json::Array(items) = f[1].1 {
            assert forall|i: int| 0 <= i < items@.len() implies #[trigger] device_of(items@[i]) == Some(c.devices[i]) by {
                lemma_device_round_trip(items@[i], c.devices[i]);
            }
            assert(items@.map_values(|x: Json| device_view(x)) =~= c.devices);
        }
    }
}


/// Texts joined by commas.
pub open spec fn join_commas(parts: Seq<Seq<char>>) -> Seq<char>
    decreases parts.len(),
{
    if parts.len() == 0 {
        Seq::empty()
    } else if parts.len() == 1 {
        parts[0]
    } else {
        join_commas(parts.drop_last()) + ","@ + parts.last()
    }
}

/// A JSON array of already encoded elements, written compactly.
pub open spec fn array_text(parts: Seq<Seq<char>>) -> Seq<char> {
    "["@ + join_commas(parts) + "]"@
}

pub open spec fn strings_text(ss: Seq<Seq<char>>) -> Seq<char> {
    array_text(ss.map_values(|s: Seq<char>| json_string(s)))
}

/// The compact JSON text of a device: its members in declaration order.
pub open spec fn device_text(d: DeviceModel) -> Seq<char> {
    "{\"model_id\":"@ + json_string(d.model_id) + ",\"name\":"@ + json_string(d.name)
        + ",\"chipset\":"@ + json_string(d.chipset) + ",\"drivers\":"@ + strings_text(d.drivers)
        + "}"@
}

/// The compact JSON text of a catalog: `version`, then `devices` in order.
pub open spec fn catalog_text(c: CatalogModel) -> Seq<char> {
    "{\"version\":"@ + json_string(c.version) + ",\"devices\":"@ + array_text(
        c.devices.map_values(|d: DeviceModel| device_text(d)),
    ) + "}"@
}

/// Writes already encoded elements as a JSON array.
fn array_of(parts: &Vec<String>) -> (r: String)
    ensures
        r@ == array_text(texts_view(parts@)),
{
    let ghost ps = texts_view(parts@);
    let mut s = String::from_str("[");
    let mut i: usize = 0;
    while i < parts.len()
        invariant
            ps == texts_view(parts@),
            i <= parts@.len(),
            s@ == "["@ + join_commas(ps.take(i as int)),
        decreases parts@.len() - i,
    {
        if i > 0 {
            s.append(",");
        }
        s.append(parts[i].as_str());
        proof {
            assert(ps[i as int] == parts@[i as int]@);
            assert(ps.take(i + 1).drop_last() =~= ps.take(i as int));
            if i == 0 {
                reveal_with_fuel(join_commas, 2);
                assert(ps.take(0).len() == 0);
                assert(s@ =~= "["@ + join_commas(ps.take(i + 1)));
            } else {
                assert(s@ =~= "["@ + join_commas(ps.take(i + 1)));
            }
        }
        i = i + 1;
    }
    s.append("]");
    assert(ps.take(i as int) =~= ps);
    s
}

/// Writes a list of strings as a JSON array.
fn strings_to_text(ss: &Vec<String>) -> (r: String)
    ensures
        r@ == strings_text(texts_view(ss@)),
{
    let mut parts: Vec<String> = Vec::new();
    let mut i: usize = 0;
    while i < ss.len()
        invariant
            i <= ss@.len(),
            parts@.len() == i,
            forall|k: int| 0 <= k < i ==> #[trigger] parts@[k]@ == json_string(ss@[k]@),
        decreases ss@.len() - i,
    {
        parts.push(quote_json(ss[i].as_str()));
        i = i + 1;
    }
    assert(texts_view(parts@) =~= texts_view(ss@).map_values(|s: Seq<char>| json_string(s)));
    array_of(&parts)
}

/// Writes a device as compact JSON text.
pub fn encode_device(d: &Device) -> (r: String)
    ensures
        r@ == device_text(d@),
{
    let mut s = String::from_str("{\"model_id\":");
    s.append(quote_json(d.model_id.as_str()).as_str());
    s.append(",\"name\":");
    s.append(quote_json(d.name.as_str()).as_str());
    s.append(",\"chipset\":");
    s.append(quote_json(d.chipset.as_str()).as_str());
    s.append(",\"drivers\":");
    s.append(strings_to_text(&d.drivers).as_str());
    s.append("}");
    s
}

/// Writes a catalog as compact JSON text, in the shape that
/// [`decode_catalog`] reads.
pub fn encode_catalog(c: &Catalog) -> (r: String)
    ensures
        r@ == catalog_text(c@),
{
    let mut parts: Vec<String> = Vec::new();
    let mut i: usize = 0;
    while i < c.devices.len()
        invariant
            i <= c.devices@.len(),
            parts@.len() == i,
            forall|k: int| 0 <= k < i ==> #[trigger] parts@[k]@ == device_text(c.devices@[k]@),
        decreases c.devices@.len() - i,
    {
        parts.push(encode_device(&c.devices[i]));
        i = i + 1;
    }
    assert(texts_view(parts@) =~= c@.devices.map_values(|d: DeviceModel| device_text(d)));
    let mut s = String::from_str("{\"version\":");
    s.append(quote_json(c.version.as_str()).as_str());
    s.append(",\"devices\":");
    s.append(array_of(&parts).as_str());
    s.append("}");
    s
}

} // verus!
