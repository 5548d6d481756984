use gatestream_core::arb::ArbData;
use gatestream_core::errors::ErrorKind;
use gatestream_core::measurement::QubitMeasurementResultSet;
use gatestream_core::protocol::QubitMeasurement;
use gatestream_core::qubit::QubitRef;
use gatestream_core::qubit::QubitRefGenerator;

fn qref(v: u64) -> QubitRef {
    QubitRef::from_foreign(v).expect("nonzero reference")
}

fn meas(q: QubitRef, value: bool) -> QubitMeasurement {
    QubitMeasurement { qubit: q, value, data: ArbData::default() }
}

#[test]
fn allocate_returns_distinct_increasing_refs() {
    let mut gen = QubitRefGenerator::new();
    let mut seen: Vec<u64> = Vec::new();
    for _ in 0..100 {
        let q = gen.allocate();
        let v = q.to_foreign();
        assert!(v >= 1, "the invalid sentinel must never be issued");
        if let Some(&last) = seen.last() {
            assert!(v > last, "issuance order must be strictly increasing");
        }
        assert!(!seen.contains(&v), "references must be pairwise distinct");
        seen.push(v);
    }
}

#[test]
fn sentinel_is_rejected() {
    assert!(QubitRef::from_foreign(0).is_none());
    assert_eq!(QubitRef::from_foreign(7).unwrap().to_foreign(), 7);
}

#[test]
fn insert_then_get_and_take() {
    let mut set = QubitMeasurementResultSet::new();
    let q = qref(3);
    set.insert(meas(q, true));
    let got = set.get(q).expect("present after insert");
    assert_eq!(got.qubit, q);
    assert!(got.value);
    let taken = set.take(q).expect("take returns the stored value");
    assert_eq!(taken.qubit, q);
    assert!(taken.value);
    assert!(!set.contains(q), "take removes the entry");
}

#[test]
fn insert_overwrites_last_write_wins() {
    let mut set = QubitMeasurementResultSet::new();
    let q = qref(5);
    set.insert(meas(q, true));
    set.insert(meas(q, false));
    assert_eq!(set.len(), 1);
    let got = set.get(q).expect("present");
    assert!(!got.value, "the second insert must win");
}

#[test]
fn remove_then_get_fails_not_found() {
    let mut set = QubitMeasurementResultSet::new();
    let q = qref(9);
    set.insert(meas(q, true));
    set.remove(q).expect("present");
    assert_eq!(set.get(q).unwrap_err(), ErrorKind::NotFound);
    assert_eq!(set.take(q).unwrap_err(), ErrorKind::NotFound);
    assert_eq!(set.remove(q).unwrap_err(), ErrorKind::NotFound);
}

#[test]
fn take_any_drains_each_key_once() {
    let mut set = QubitMeasurementResultSet::new();
    let keys = [2u64, 4, 8, 16, 32];
    for &k in keys.iter() {
        set.insert(meas(qref(k), k % 3 == 0));
    }
    assert_eq!(set.len(), keys.len());
    let mut visited: Vec<u64> = Vec::new();
    loop {
        match set.take_any() {
            Ok(m) => {
                let v = m.qubit.to_foreign();
                assert!(!visited.contains(&v), "no key is returned twice");
                assert!(keys.contains(&v));
                visited.push(v);
            }
            Err(e) => {
                assert_eq!(e, ErrorKind::Empty);
                break;
            }
        }
    }
    assert_eq!(visited.len(), keys.len(), "exactly len elements are drained");
    assert_eq!(set.len(), 0);
}

#[test]
fn take_any_on_empty_fails_empty() {
    let mut set = QubitMeasurementResultSet::new();
    assert_eq!(set.take_any().unwrap_err(), ErrorKind::Empty);
}

#[test]
fn generator_and_set_scenario() {
    let mut gen = QubitRefGenerator::new();
    let q0 = gen.allocate();
    let q1 = gen.allocate();
    let q2 = gen.allocate();
    let mut set = QubitMeasurementResultSet::new();
    set.insert(meas(q0, true));
    set.insert(meas(q2, false));
    assert_eq!(set.len(), 2);
    assert!(!set.contains(q1));
    let taken = set.take(q0).expect("q0 is present");
    assert_eq!(taken.qubit, q0);
    assert!(taken.value);
    assert_eq!(set.len(), 1);
}
