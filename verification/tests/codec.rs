use cantata::cbor::{decode_bundle, encode_bundle};
use cantata::err::ErrorKind;
use cantata::gen::{Bundle, BundleEdge};
use cantata::raw::Run;
use ciborium::value::Value;

fn sample_bundle() -> Bundle {
    Bundle {
        morphology: vec![b"cellA.swc".to_vec(), b"cellB.swc".to_vec()],
        decoration: vec![b"paramsA.acc".to_vec()],
        edges: vec![BundleEdge { source: b"popA".to_vec(), target: b"popB".to_vec(), weight: 42 }],
        run: Run { t_end: 1000, dt: 25 },
    }
}

#[test]
fn snapshot_round_trips_to_an_equal_bundle() {
    let b = sample_bundle();
    let bytes = encode_bundle(&b);
    let d = decode_bundle(&bytes).unwrap();
    assert_eq!(d.morphology, b.morphology);
    assert_eq!(d.decoration, b.decoration);
    assert_eq!(d.edges.len(), 1);
    assert_eq!(d.edges[0].source, b.edges[0].source);
    assert_eq!(d.edges[0].target, b.edges[0].target);
    assert_eq!(d.edges[0].weight, b.edges[0].weight);
    assert_eq!(d.run, b.run);
}

#[test]
fn truncated_or_garbled_snapshots_are_rejected() {
    let b = sample_bundle();
    let mut bytes = encode_bundle(&b);
    bytes.pop();
    let e = decode_bundle(&bytes).unwrap_err();
    assert_eq!(e.kind, ErrorKind::Structure);
    let e2 = decode_bundle(&vec![0u8, 1, 2]).unwrap_err();
    assert_eq!(e2.kind, ErrorKind::Structure);
}

#[test]
fn snapshot_is_well_formed_cbor_with_stable_field_names() {
    let b = sample_bundle();
    let bytes = encode_bundle(&b);
    let v: Value = ciborium::de::from_reader(&bytes[..]).unwrap();
    let entries = match v {
        Value::Map(entries) => entries,
        _ => panic!("snapshot is not a map"),
    };
    assert_eq!(entries.len(), 4);
    assert_eq!(entries[0].0, Value::Text(String::from("morphology")));
    assert_eq!(entries[1].0, Value::Text(String::from("decoration")));
    assert_eq!(entries[2].0, Value::Text(String::from("edges")));
    assert_eq!(entries[3].0, Value::Text(String::from("run")));
    match &entries[0].1 {
        Value::Array(items) => {
            assert_eq!(items[0], Value::Text(String::from("cellA.swc")));
            assert_eq!(items[1], Value::Text(String::from("cellB.swc")));
        },
        _ => panic!("morphology is not an array"),
    }
    match &entries[1].1 {
        Value::Array(items) => {
            assert_eq!(items[0], Value::Text(String::from("paramsA.acc")));
        },
        _ => panic!("decoration is not an array"),
    }
    match &entries[3].1 {
        Value::Map(run) => {
            assert_eq!(run[0].0, Value::Text(String::from("t_end")));
            assert_eq!(i128::from(match &run[0].1 {
                Value::Integer(i) => *i,
                _ => panic!("t_end is not an integer"),
            }), 1000);
            assert_eq!(run[1].0, Value::Text(String::from("dt")));
        },
        _ => panic!("run is not a map"),
    }
}

#[test]
fn snapshot_of_the_empty_bundle_round_trips() {
    let b = Bundle {
        morphology: Vec::new(),
        decoration: Vec::new(),
        edges: Vec::new(),
        run: Run { t_end: 0, dt: 0 },
    };
    let bytes = encode_bundle(&b);
    let d = decode_bundle(&bytes).unwrap();
    assert_eq!(d.morphology, b.morphology);
    assert_eq!(d.decoration, b.decoration);
    assert_eq!(d.edges.len(), 0);
    assert_eq!(d.run, b.run);
}
