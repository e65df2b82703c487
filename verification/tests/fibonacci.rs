use mqtt_adls_bridge::fibonacci::{fibonacci, LARGEST_POSITION};

#[test]
fn fibonacci_follows_the_sequence() {
    let expected = [0, 1, 1, 2, 3, 5, 8, 13, 21, 34, 55];
    for (n, value) in expected.iter().enumerate() {
        assert_eq!(fibonacci(n as i64), *value);
    }
    assert_eq!(fibonacci(50), 12586269025);
    assert_eq!(fibonacci(LARGEST_POSITION), 7540113804746346429);
    assert_eq!(LARGEST_POSITION, 92);
}

#[test]
fn fibonacci_hands_back_positions_below_one() {
    assert_eq!(fibonacci(0), 0);
    assert_eq!(fibonacci(-1), -1);
    assert_eq!(fibonacci(-40), -40);
    assert_eq!(fibonacci(i64::MIN), i64::MIN);
}
