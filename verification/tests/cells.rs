use gas_cells::cell::{CellRequest, Role, Unavailable, ValueCell};

const R: f64 = 8.31;

fn reciprocal(raw: u64) -> u64 {
    (1.0 / (f64::from_bits(raw) * R)).to_bits()
}

#[test]
fn only_the_temperature_role_reads_transformed() {
    assert!(!Role::Pressure.is_transformed());
    assert!(!Role::Volume.is_transformed());
    assert!(Role::Temperature.is_transformed());
}

#[test]
fn new_cell_runs_in_its_role() {
    let cell = ValueCell::new(Role::Volume, 10.0f64.to_bits());
    assert_eq!(cell.role(), Role::Volume);
    assert!(cell.is_running());
}

#[test]
fn pressure_cell_reads_verbatim() {
    let cell = ValueCell::new(Role::Pressure, 10.0f64.to_bits());
    assert_eq!(cell.get(&reciprocal), Ok(0x4024000000000000));
}

#[test]
fn volume_cell_reads_verbatim() {
    let cell = ValueCell::new(Role::Volume, 2.5f64.to_bits());
    assert_eq!(cell.get(&reciprocal), Ok(2.5f64.to_bits()));
}

#[test]
fn temperature_cell_reads_transformed() {
    let cell = ValueCell::new(Role::Temperature, 10.0f64.to_bits());
    let read = cell.get(&reciprocal).unwrap();
    assert_eq!(read, 0x3f88a51f1d4414f2);
    assert_eq!(f64::from_bits(read), 0.012033694344163657);
    assert_ne!(read, 10.0f64.to_bits());
}

#[test]
fn temperature_set_stores_raw_and_acknowledges_raw() {
    let mut cell = ValueCell::new(Role::Temperature, 10.0f64.to_bits());
    assert_eq!(cell.set(5.0f64.to_bits()), Ok(5.0f64.to_bits()));
    assert_eq!(cell.get(&reciprocal), Ok(0x3f98a51f1d4414f2));
    assert_eq!(f64::from_bits(cell.get(&reciprocal).unwrap()), 1.0 / (5.0 * 8.31));
}

#[test]
fn temperature_zero_reads_infinite() {
    let cell = ValueCell::new(Role::Temperature, 0.0f64.to_bits());
    let read = f64::from_bits(cell.get(&reciprocal).unwrap());
    assert!(read.is_infinite() && read > 0.0);
}

#[test]
fn set_replaces_and_returns_the_new_value() {
    let mut cell = ValueCell::new(Role::Pressure, 10.0f64.to_bits());
    assert_eq!(cell.set(20.0f64.to_bits()), Ok(0x4034000000000000));
    assert_eq!(cell.get(&reciprocal), Ok(0x4034000000000000));
}

#[test]
fn get_has_no_side_effect() {
    let cell = ValueCell::new(Role::Temperature, 300.0f64.to_bits());
    let first = cell.get(&reciprocal);
    let second = cell.get(&reciprocal);
    assert_eq!(first, second);
    assert_eq!(first, Ok(0x3f3a49bac9e2387a));
}

#[test]
fn set_accepts_non_finite_and_negative_values() {
    let mut cell = ValueCell::new(Role::Volume, 1.0f64.to_bits());
    assert_eq!(cell.set(f64::NAN.to_bits()), Ok(f64::NAN.to_bits()));
    assert!(f64::from_bits(cell.get(&reciprocal).unwrap()).is_nan());
    assert_eq!(cell.set(f64::INFINITY.to_bits()), Ok(f64::INFINITY.to_bits()));
    assert_eq!(cell.get(&reciprocal), Ok(f64::INFINITY.to_bits()));
    assert_eq!(cell.set((-3.0f64).to_bits()), Ok((-3.0f64).to_bits()));
    assert_eq!(f64::from_bits(cell.get(&reciprocal).unwrap()), -3.0);
}

#[test]
fn stopped_cell_is_unavailable_for_get() {
    let mut cell = ValueCell::new(Role::Pressure, 10.0f64.to_bits());
    cell.stop();
    assert!(!cell.is_running());
    assert_eq!(cell.get(&reciprocal), Err(Unavailable));
}

#[test]
fn stopped_cell_is_unavailable_for_set_and_keeps_its_role() {
    let mut cell = ValueCell::new(Role::Temperature, 10.0f64.to_bits());
    cell.stop();
    assert_eq!(cell.set(5.0f64.to_bits()), Err(Unavailable));
    assert_eq!(cell.role(), Role::Temperature);
    assert!(!cell.is_running());
}

#[test]
fn stop_twice_is_stop_once() {
    let mut cell = ValueCell::new(Role::Volume, 10.0f64.to_bits());
    cell.stop();
    cell.stop();
    assert!(!cell.is_running());
    assert_eq!(cell.handle(CellRequest::Get, &reciprocal), Err(Unavailable));
}

#[test]
fn handle_serves_reads_and_writes() {
    let mut cell = ValueCell::new(Role::Temperature, 10.0f64.to_bits());
    assert_eq!(cell.handle(CellRequest::Get, &reciprocal), Ok(0x3f88a51f1d4414f2));
    assert_eq!(
        cell.handle(CellRequest::Store(5.0f64.to_bits()), &reciprocal),
        Ok(5.0f64.to_bits())
    );
    assert_eq!(cell.handle(CellRequest::Get, &reciprocal), Ok(0x3f98a51f1d4414f2));
}

#[test]
fn handle_on_a_stopped_cell_fails_for_both_requests() {
    let mut cell = ValueCell::new(Role::Pressure, 10.0f64.to_bits());
    cell.stop();
    assert_eq!(cell.handle(CellRequest::Get, &reciprocal), Err(Unavailable));
    assert_eq!(cell.handle(CellRequest::Store(1), &reciprocal), Err(Unavailable));
}

#[test]
fn stored_value_is_always_one_that_was_given() {
    let given: [u64; 5] = [
        0x0123456789abcdef,
        0xfedcba9876543210,
        0xffffffff00000000,
        0x00000000ffffffff,
        0xaaaaaaaa55555555,
    ];
    let identity = |raw: u64| raw;
    let mut cell = ValueCell::new(Role::Pressure, given[0]);
    for round in 0..20usize {
        let value = given[(round * 3 + 1) % 5];
        assert_eq!(cell.handle(CellRequest::Store(value), &identity), Ok(value));
        let read = cell.handle(CellRequest::Get, &identity).unwrap();
        assert_eq!(read, value);
        assert!(given.contains(&read));
    }
}

#[test]
fn last_write_wins() {
    let mut cell = ValueCell::new(Role::Volume, 1.0f64.to_bits());
    let requests = [
        CellRequest::Store(2.0f64.to_bits()),
        CellRequest::Get,
        CellRequest::Store(3.0f64.to_bits()),
        CellRequest::Get,
        CellRequest::Get,
    ];
    for request in requests {
        let _ = cell.handle(request, &reciprocal);
    }
    assert_eq!(cell.get(&reciprocal), Ok(3.0f64.to_bits()));
}

#[test]
fn cells_are_independent() {
    let mut pressure = ValueCell::new(Role::Pressure, 10.0f64.to_bits());
    let volume = ValueCell::new(Role::Volume, 11.0f64.to_bits());
    let _ = pressure.set(20.0f64.to_bits());
    assert_eq!(volume.get(&reciprocal), Ok(11.0f64.to_bits()));
    assert_eq!(pressure.get(&reciprocal), Ok(20.0f64.to_bits()));
}

#[test]
fn a_copy_of_a_cell_is_a_snapshot() {
    let mut cell = ValueCell::new(Role::Pressure, 10.0f64.to_bits());
    let snapshot = cell;
    let _ = cell.set(20.0f64.to_bits());
    assert_eq!(snapshot.get(&reciprocal), Ok(10.0f64.to_bits()));
    assert_eq!(cell.get(&reciprocal), Ok(20.0f64.to_bits()));
}

#[test]
fn serve_answers_each_request_in_order() {
    let mut cell = ValueCell::new(Role::Temperature, 10.0f64.to_bits());
    let queue = vec![
        CellRequest::Get,
        CellRequest::Store(5.0f64.to_bits()),
        CellRequest::Get,
        CellRequest::Store(300.0f64.to_bits()),
        CellRequest::Get,
    ];
    assert_eq!(
        cell.serve(&queue, &reciprocal),
        vec![
            Ok(0x3f88a51f1d4414f2),
            Ok(5.0f64.to_bits()),
            Ok(0x3f98a51f1d4414f2),
            Ok(300.0f64.to_bits()),
            Ok(0x3f3a49bac9e2387a),
        ]
    );
    assert_eq!(cell.get(&reciprocal), Ok(0x3f3a49bac9e2387a));
}

#[test]
fn serve_of_an_empty_queue_changes_nothing() {
    let mut cell = ValueCell::new(Role::Pressure, 10.0f64.to_bits());
    assert_eq!(cell.serve(&Vec::new(), &reciprocal), Vec::new());
    assert_eq!(cell.get(&reciprocal), Ok(10.0f64.to_bits()));
}

#[test]
fn serve_on_a_stopped_cell_answers_unavailable_throughout() {
    let mut cell = ValueCell::new(Role::Volume, 10.0f64.to_bits());
    cell.stop();
    let queue = vec![CellRequest::Store(1), CellRequest::Get];
    assert_eq!(cell.serve(&queue, &reciprocal), vec![Err(Unavailable), Err(Unavailable)]);
}

#[test]
fn interleaved_writes_to_other_cells_never_show() {
    let identity = |raw: u64| raw;
    let mut pressure = ValueCell::new(Role::Pressure, 0x1111111111111111);
    let mut volume = ValueCell::new(Role::Volume, 0x2222222222222222);
    let mut temperature = ValueCell::new(Role::Temperature, 0x3333333333333333);
    for round in 0..16u64 {
        let _ = pressure.set(0x1000000000000000 | round);
        assert_eq!(volume.get(&identity).unwrap() >> 60, 2);
        let _ = volume.set(0x2000000000000000 | round);
        assert_eq!(temperature.get(&identity).unwrap() >> 60, 3);
        let _ = temperature.set(0x3000000000000000 | round);
        assert_eq!(pressure.get(&identity), Ok(0x1000000000000000 | round));
    }
}
