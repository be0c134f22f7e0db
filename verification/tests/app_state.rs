use mqtt_client::app_state::{AppState, PrintState, Temperature};

#[test]
fn print_state_mapping() {
    assert_eq!(PrintState::from_klipper("standby").code(), 0);
    assert_eq!(PrintState::from_klipper("printing").code(), 1);
    assert_eq!(PrintState::from_klipper("complete").code(), 2);
    assert_eq!(PrintState::from_klipper("paused").code(), 3);
    assert_eq!(PrintState::from_klipper("error").code(), 4);
    assert_eq!(PrintState::from_klipper("cancelled").code(), 5);
    assert_eq!(PrintState::from_klipper("??").code(), 0);
}

#[test]
fn busy_detection() {
    let s = AppState::default();
    assert!(!s.is_busy());
    let s2 = AppState { nozzle_target: Temperature::degrees(200), ..Default::default() };
    assert!(s2.is_busy());
    let s3 = AppState { print_state: 1, ..Default::default() };
    assert!(s3.is_busy());
}

#[test]
fn busy_limits_are_exclusive() {
    let at = AppState { nozzle_actual: Temperature::degrees(40), ..Default::default() };
    assert!(!at.is_busy());
    let above =
        AppState { nozzle_actual: Temperature { whole: 40, above: true }, ..Default::default() };
    assert!(above.is_busy());
    let bed = AppState { bed_target: Temperature { whole: 1, above: true }, ..Default::default() };
    assert!(bed.is_busy());
    let cold = AppState { bed_target: Temperature { whole: 0, above: true }, ..Default::default() };
    assert!(!cold.is_busy());
}
