use cros_driver_installer::catalog::{
    catalog_from_json, catalog_to_json, decode_catalog, device_from_json, device_to_json,
    encode_catalog, load_catalog, Catalog, Device, LoadError,
};
use cros_driver_installer::json::Json;

fn device(model_id: &str, name: &str, chipset: &str, drivers: &[&str]) -> Device {
    Device {
        model_id: model_id.to_string(),
        name: name.to_string(),
        chipset: chipset.to_string(),
        drivers: drivers.iter().map(|d| d.to_string()).collect(),
    }
}

fn sample() -> Catalog {
    Catalog {
        version: "2.1".to_string(),
        devices: vec![
            device("ACME-1", "Acme Board", "X1", &["wifi-driver", "gpu-driver"]),
            device("ZETA-9", "Zeta \"Pro\" \\ Ñandú", "Z9", &[]),
        ],
    }
}

fn assert_same(a: &Catalog, b: &Catalog) {
    assert_eq!(a.version, b.version);
    assert_eq!(a.devices.len(), b.devices.len());
    for (x, y) in a.devices.iter().zip(b.devices.iter()) {
        assert_eq!(x.model_id, y.model_id);
        assert_eq!(x.name, y.name);
        assert_eq!(x.chipset, y.chipset);
        assert_eq!(x.drivers, y.drivers);
    }
}

#[test]
fn decodes_catalog_text() {
    let text = r#"{
        "version": "2.1",
        "devices": [
            {"model_id": "ACME-1", "name": "Acme Board", "chipset": "X1",
             "drivers": ["wifi-driver", "gpu-driver"]},
            {"model_id": "B-2", "name": "Bee", "chipset": "Y", "drivers": []}
        ]
    }"#;
    let c = decode_catalog(text).unwrap();
    assert_eq!(c.version, "2.1");
    assert_eq!(c.devices.len(), 2);
    assert_eq!(c.devices[0].model_id, "ACME-1");
    assert_eq!(c.devices[0].name, "Acme Board");
    assert_eq!(c.devices[0].chipset, "X1");
    assert_eq!(c.devices[0].drivers, vec!["wifi-driver", "gpu-driver"]);
    assert_eq!(c.devices[1].model_id, "B-2");
    assert!(c.devices[1].drivers.is_empty());
}

#[test]
fn decodes_empty_device_list() {
    let c = decode_catalog(r#"{"version":"0","devices":[]}"#).unwrap();
    assert_eq!(c.version, "0");
    assert!(c.devices.is_empty());
}

#[test]
fn tolerates_unknown_fields_and_member_order() {
    let text = r#"{"extra": 5, "devices": [{"drivers": ["a"], "chipset": "C", "vendor": null,
        "name": "N", "model_id": "M"}], "version": "v"}"#;
    let c = decode_catalog(text).unwrap();
    assert_eq!(c.version, "v");
    assert_eq!(c.devices[0].model_id, "M");
    assert_eq!(c.devices[0].name, "N");
    assert_eq!(c.devices[0].chipset, "C");
    assert_eq!(c.devices[0].drivers, vec!["a"]);
}

#[test]
fn decodes_escaped_strings() {
    let c = decode_catalog(r#"{"version":"a\"b\\cé","devices":[]}"#).unwrap();
    assert_eq!(c.version, "a\"b\\cé");
}

#[test]
fn encodes_compact_text() {
    let c = Catalog {
        version: "2.1".to_string(),
        devices: vec![device("ACME-1", "Acme Board", "X1", &["wifi-driver", "gpu-driver"])],
    };
    assert_eq!(
        encode_catalog(&c),
        r#"{"version":"2.1","devices":[{"model_id":"ACME-1","name":"Acme Board","chipset":"X1","drivers":["wifi-driver","gpu-driver"]}]}"#
    );
}

#[test]
fn encodes_empty_catalog() {
    let c = Catalog { version: String::new(), devices: vec![] };
    assert_eq!(encode_catalog(&c), r#"{"version":"","devices":[]}"#);
}

#[test]
fn encoding_escapes_strings() {
    let c = Catalog { version: "q\"\n".to_string(), devices: vec![] };
    assert_eq!(encode_catalog(&c), r#"{"version":"q\"\n","devices":[]}"#);
}

#[test]
fn round_trip_through_text() {
    let c = sample();
    let back = decode_catalog(&encode_catalog(&c)).unwrap();
    assert_same(&c, &back);
}

#[test]
fn missing_file_is_unreadable() {
    assert!(matches!(load_catalog(None), Err(LoadError::FileUnreadable)));
}

#[test]
fn load_reads_contents() {
    let c = load_catalog(Some(r#"{"version":"3","devices":[]}"#.to_string())).unwrap();
    assert_eq!(c.version, "3");
}

#[test]
fn invalid_json_is_malformed() {
    assert_eq!(decode_catalog("{not json").unwrap_err(), LoadError::MalformedData);
    assert_eq!(decode_catalog("").unwrap_err(), LoadError::MalformedData);
    assert_eq!(
        load_catalog(Some("[1, 2".to_string())).unwrap_err(),
        LoadError::MalformedData
    );
}

#[test]
fn missing_drivers_is_malformed() {
    let text = r#"{"version":"1","devices":[{"model_id":"M","name":"N","chipset":"C"}]}"#;
    assert_eq!(decode_catalog(text).unwrap_err(), LoadError::MalformedData);
}

#[test]
fn missing_version_or_devices_is_malformed() {
    assert_eq!(decode_catalog(r#"{"devices":[]}"#).unwrap_err(), LoadError::MalformedData);
    assert_eq!(decode_catalog(r#"{"version":"1"}"#).unwrap_err(), LoadError::MalformedData);
}

#[test]
fn wrong_types_are_malformed() {
    assert_eq!(
        decode_catalog(r#"{"version":1,"devices":[]}"#).unwrap_err(),
        LoadError::MalformedData
    );
    assert_eq!(
        decode_catalog(r#"{"version":"1","devices":{}}"#).unwrap_err(),
        LoadError::MalformedData
    );
    let bad_driver = r#"{"version":"1","devices":[{"model_id":"M","name":"N","chipset":"C","drivers":[7]}]}"#;
    assert_eq!(decode_catalog(bad_driver).unwrap_err(), LoadError::MalformedData);
    assert_eq!(decode_catalog(r#"["version"]"#).unwrap_err(), LoadError::MalformedData);
}

#[test]
fn load_error_messages() {
    assert_eq!(LoadError::FileUnreadable.message(), "Unable to read the catalog file");
    assert_eq!(
        LoadError::MalformedData.message(),
        "The catalog file is not well-formed JSON of a catalog"
    );
}

#[test]
fn tree_round_trip() {
    let c = sample();
    let back = catalog_from_json(&catalog_to_json(&c)).unwrap();
    assert_same(&c, &back);
    let d = device("D", "Dev", "Chip", &["x", "y", "z"]);
    let e = device_from_json(&device_to_json(&d)).unwrap();
    assert_eq!(e.model_id, "D");
    assert_eq!(e.name, "Dev");
    assert_eq!(e.chipset, "Chip");
    assert_eq!(e.drivers, vec!["x", "y", "z"]);
}

#[test]
fn tree_shape_is_checked() {
    assert!(catalog_from_json(&Json::Null).is_none());
    assert!(catalog_from_json(&Json::Array(vec![])).is_none());
    let d = Json::Object(vec![
        ("model_id".to_string(), Json::Str("M".to_string())),
        ("name".to_string(), Json::Str("N".to_string())),
        ("chipset".to_string(), Json::Number("3".to_string())),
        ("drivers".to_string(), Json::Array(vec![])),
    ]);
    assert!(device_from_json(&d).is_none());
    let c = Json::Object(vec![
        ("version".to_string(), Json::Str("1".to_string())),
        ("version".to_string(), Json::Bool(true)),
        ("devices".to_string(), Json::Array(vec![])),
    ]);
    assert_eq!(catalog_from_json(&c).unwrap().version, "1");
}
