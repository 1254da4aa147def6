use resonance::single_instance::{acquire, mutex_name, Instance};
use resonance::wide::wide_nul;

const ERROR_ALREADY_EXISTS: u32 = 183;

#[test]
fn wide_nul_terminates_and_preserves_the_name() {
    let wide = wide_nul(mutex_name());
    assert_eq!(wide.last(), Some(&0));
    assert_eq!(String::from_utf16_lossy(&wide[..wide.len() - 1]), mutex_name());
}

#[test]
fn a_name_that_exists_already_means_another_instance_runs() {
    assert!(matches!(acquire(true, 0), Instance::Only { holds_name: true }));
    assert!(matches!(acquire(true, ERROR_ALREADY_EXISTS), Instance::AlreadyRunning));
    // Without a mutex the program runs unguarded rather than not at all.
    assert!(matches!(acquire(false, 5), Instance::Only { holds_name: false }));
}
