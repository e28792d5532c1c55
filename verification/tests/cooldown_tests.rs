use ship_core::id_types::{DatabaseId, Module};
use ship_core::modules::cooldowns::CooldownEngine;

fn module(seed: &str) -> Module {
    Module::Sensor(DatabaseId::from_string(seed).unwrap())
}

#[test]
fn timer_expires_once_elapsed_time_reaches_the_duration() {
    let mut engine = CooldownEngine::init(16);
    let m = module("sensor01");
    engine.add_or_update_component(&m, 5000);
    assert!(!engine.is_active(&m));
    engine.start_timer(&m);
    assert!(engine.is_active(&m));
    engine.update_timers(3000);
    assert!(engine.is_active(&m));
    engine.update_timers(1999);
    // 4999 ms elapsed: still strictly below the configured 5000.
    assert!(engine.is_active(&m));
    engine.update_timers(1);
    // 5000 ms elapsed: the timer is gone, for good.
    assert!(!engine.is_active(&m));
    engine.update_timers(1000);
    assert!(!engine.is_active(&m));
}

#[test]
fn starting_an_unconfigured_module_is_a_no_op() {
    let mut engine = CooldownEngine::init(16);
    let m = module("sensor01");
    engine.start_timer(&m);
    assert!(!engine.is_active(&m));
}

#[test]
fn removing_the_configuration_does_not_cancel_a_running_timer() {
    let mut engine = CooldownEngine::init(16);
    let m = module("sensor01");
    engine.add_or_update_component(&m, 1000);
    engine.start_timer(&m);
    engine.remove_component(&m);
    assert!(engine.is_active(&m));
    engine.update_timers(999);
    assert!(engine.is_active(&m));
    engine.update_timers(1);
    assert!(!engine.is_active(&m));
    // With the configuration gone, a new start is a no-op again.
    engine.start_timer(&m);
    assert!(!engine.is_active(&m));
}

#[test]
fn reconfiguring_does_not_touch_a_running_timer() {
    let mut engine = CooldownEngine::init(16);
    let m = module("sensor01");
    engine.add_or_update_component(&m, 5000);
    engine.start_timer(&m);
    engine.add_or_update_component(&m, 1);
    engine.update_timers(100);
    // The running timer still counts down from 5000, not from 1.
    assert!(engine.is_active(&m));
    engine.update_timers(4900);
    assert!(!engine.is_active(&m));
    // The next start uses the new configuration.
    engine.start_timer(&m);
    engine.update_timers(1);
    assert!(!engine.is_active(&m));
}

#[test]
fn timers_count_down_independently() {
    let mut engine = CooldownEngine::init(16);
    let short = module("sensor01");
    let long = Module::Scanner(DatabaseId::from_string("scanner1").unwrap());
    engine.add_or_update_component(&short, 100);
    engine.add_or_update_component(&long, 900);
    engine.start_timer(&short);
    engine.start_timer(&long);
    engine.update_timers(100);
    assert!(!engine.is_active(&short));
    assert!(engine.is_active(&long));
    engine.update_timers(800);
    assert!(!engine.is_active(&long));
}
