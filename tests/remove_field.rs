use pro_serde_versioned::{
    deserialize_json, serialize_json, upgrade_to_latest, Registry, Upgrade, VariantDecl,
    VersionedEnvelope,
};
use serde_json::Value;

#[derive(Debug, PartialEq, Clone)]
struct MyStructV1 {
    field1: String,
    field2: String,
}

#[derive(Debug, PartialEq, Clone)]
struct MyStructV2 {
    field1: String,
}

impl Upgrade<MyStructV2> for MyStructV1 {
    fn upgrade(self: MyStructV1) -> MyStructV2 {
        MyStructV2 { field1: self.field1 }
    }
}

#[derive(Debug, PartialEq, Clone)]
enum MyStructVersion {
    V1(MyStructV1),
    V2(MyStructV2),
}

fn registry() -> Registry {
    let decls = vec![
        VariantDecl { ident: "V1".to_string(), arity: 1 },
        VariantDecl { ident: "V2".to_string(), arity: 1 },
    ];
    Registry::build(&decls).unwrap()
}

fn to_json(_version: usize, value: MyStructVersion) -> Result<Value, String> {
    let mut map = serde_json::Map::new();
    match value {
        MyStructVersion::V1(v) => {
            map.insert("field1".to_string(), Value::from(v.field1));
            map.insert("field2".to_string(), Value::from(v.field2));
        },
        MyStructVersion::V2(v) => {
            map.insert("field1".to_string(), Value::from(v.field1));
        },
    }
    Ok(Value::Object(map))
}

fn text(data: &Value, key: &str) -> Result<String, String> {
    data.get(key).and_then(Value::as_str).map(str::to_string).ok_or(format!("missing {}", key))
}

fn from_json(version: usize, data: Value) -> Result<MyStructVersion, String> {
    match version {
        1 => Ok(MyStructVersion::V1(MyStructV1 {
            field1: text(&data, "field1")?,
            field2: text(&data, "field2")?,
        })),
        2 => Ok(MyStructVersion::V2(MyStructV2 { field1: text(&data, "field1")? })),
        other => Err(format!("no shape for {}", other)),
    }
}

fn step(_version: usize, value: MyStructVersion) -> MyStructVersion {
    match value {
        MyStructVersion::V1(v) => MyStructVersion::V2(v.upgrade()),
        latest => latest,
    }
}

#[test]
fn test_remove_field() {
    let reg = registry();
    let v1_struct = MyStructVersion::V1(MyStructV1 {
        field1: "value1".to_string(),
        field2: "value2".to_string(),
    });
    let serialized_wrapper =
        serialize_json(&reg, VersionedEnvelope { version_number: 1, data: v1_struct }, to_json)
            .unwrap();
    let expected: Value = serde_json::from_str(
        r#"{"version_number": 1, "data": {"field1": "value1", "field2": "value2"}}"#,
    )
    .unwrap();
    assert_eq!(serialized_wrapper, expected);

    let decoded = deserialize_json(&reg, &serialized_wrapper, from_json).unwrap();
    let v2_struct = upgrade_to_latest(&reg, decoded, step);
    let v2_serialized = serialize_json(&reg, v2_struct, to_json).unwrap();
    let expected: Value =
        serde_json::from_str(r#"{"version_number": 2, "data": {"field1": "value1"}}"#).unwrap();
    assert_eq!(v2_serialized, expected);
}
