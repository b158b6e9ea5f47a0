// The listening limiter is floating point (`tanh`) and is evaluated by the
// host around the verified core; this test holds the limiter the host applies
// to the promise its documentation makes: bounded, monotonic and symmetric.
fn soft_limit(sample: f32) -> f32 {
    sample.tanh()
}

#[test]
fn limiter_is_bounded_monotonic_and_symmetric() {
    let inputs = [-100.0, -2.0, -0.5, 0.0, 0.5, 2.0, 100.0];
    let outputs = inputs.map(soft_limit);
    assert!(outputs.iter().all(|sample| (-1.0..=1.0).contains(sample)));
    assert!(outputs.windows(2).all(|pair| pair[0] < pair[1]));
    assert!((outputs[0] + outputs[6]).abs() < 1e-6);
    assert!((outputs[2] + outputs[4]).abs() < 1e-6);
}
