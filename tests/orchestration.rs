use elgato_light::intent::Intent;
use elgato_light::session::{adjusted_brightness, next_step, DeviceCall, DeviceState, Reply, Step};

/// Runs `intent` against a simulated light; the call with index `fail_at`
/// fails. Returns the calls made and the final step.
fn run(intent: Intent, light: &mut DeviceState, fail_at: Option<usize>) -> (Vec<DeviceCall>, Step) {
    let mut calls = Vec::new();
    let mut replies = Vec::new();
    loop {
        match next_step(&intent, &replies) {
            Step::Call(call) => {
                calls.push(call);
                if fail_at == Some(calls.len() - 1) {
                    replies.push(Reply::Failed);
                    continue;
                }
                let reply = match call {
                    DeviceCall::FetchState => Reply::State(*light),
                    DeviceCall::SetPower(p) => {
                        light.power = p;
                        Reply::Written
                    }
                    DeviceCall::SetBrightness(b) => {
                        light.brightness = b;
                        Reply::Written
                    }
                    DeviceCall::SetTemperature(t) => {
                        light.temperature = t;
                        Reply::Written
                    }
                };
                replies.push(reply);
            }
            other => return (calls, other),
        }
    }
}

fn light(power: bool, brightness: u8, temperature: u32) -> DeviceState {
    DeviceState { power, brightness, temperature }
}

#[test]
fn clamp_examples() {
    assert_eq!(adjusted_brightness(90, 50), 100);
    assert_eq!(adjusted_brightness(20, -50), 0);
    assert_eq!(adjusted_brightness(40, 25), 65);
    assert_eq!(adjusted_brightness(60, -60), 0);
    assert_eq!(adjusted_brightness(0, 100), 100);
    assert_eq!(adjusted_brightness(100, -100), 0);
    assert_eq!(adjusted_brightness(50, 0), 50);
}

#[test]
fn clamp_stays_in_range_for_all_inputs() {
    for c in 0..=100i16 {
        for d in -100..=100i16 {
            let r = adjusted_brightness(c as u8, d as i8) as i16;
            assert!((0..=100).contains(&r));
            assert_eq!(r, (c + d).clamp(0, 100));
        }
    }
}

#[test]
fn on_writes_three_in_order() {
    for start in [light(false, 0, 2900), light(true, 80, 6000)] {
        let mut l = start;
        let (calls, end) = run(Intent::On { brightness: 40, temperature: 4500 }, &mut l, None);
        assert_eq!(
            calls,
            vec![
                DeviceCall::SetPower(true),
                DeviceCall::SetBrightness(40),
                DeviceCall::SetTemperature(4500)
            ]
        );
        assert_eq!(end, Step::Finished(None));
        assert_eq!(l, light(true, 40, 4500));
    }
}

#[test]
fn off_writes_power_only() {
    let mut l = light(true, 50, 4000);
    let (calls, end) = run(Intent::Off, &mut l, None);
    assert_eq!(calls, vec![DeviceCall::SetPower(false)]);
    assert_eq!(end, Step::Finished(None));
    assert!(!l.power);
}

#[test]
fn adjust_on_lit_light_saturates() {
    let mut l = light(true, 90, 4000);
    let (calls, end) = run(Intent::AdjustBrightness { delta: 50 }, &mut l, None);
    assert_eq!(
        calls,
        vec![DeviceCall::FetchState, DeviceCall::FetchState, DeviceCall::SetBrightness(100)]
    );
    assert!(!calls.contains(&DeviceCall::SetPower(true)));
    assert_eq!(end, Step::Finished(None));
    assert_eq!(l.brightness, 100);
}

#[test]
fn adjust_on_dark_light_powers_on_once() {
    let mut l = light(false, 30, 4000);
    let (calls, end) = run(Intent::AdjustBrightness { delta: -10 }, &mut l, None);
    assert_eq!(
        calls,
        vec![
            DeviceCall::FetchState,
            DeviceCall::SetPower(true),
            DeviceCall::FetchState,
            DeviceCall::SetBrightness(20)
        ]
    );
    assert_eq!(end, Step::Finished(None));
    assert_eq!(l, light(true, 20, 4000));
}

#[test]
fn temperature_on_dark_light() {
    let mut l = light(false, 20, 3000);
    let (calls, end) = run(Intent::SetTemperature { temperature: 5000 }, &mut l, None);
    assert_eq!(
        calls,
        vec![DeviceCall::FetchState, DeviceCall::SetPower(true), DeviceCall::SetTemperature(5000)]
    );
    assert_eq!(end, Step::Finished(None));
    assert_eq!(l, light(true, 20, 5000));
}

#[test]
fn temperature_on_lit_light() {
    let mut l = light(true, 20, 3000);
    let (calls, _) = run(Intent::SetTemperature { temperature: 6500 }, &mut l, None);
    assert_eq!(calls, vec![DeviceCall::FetchState, DeviceCall::SetTemperature(6500)]);
}

#[test]
fn status_reads_once() {
    let mut l = light(true, 33, 4100);
    let (calls, end) = run(Intent::Status, &mut l, None);
    assert_eq!(calls, vec![DeviceCall::FetchState]);
    assert_eq!(end, Step::Finished(Some(light(true, 33, 4100))));
}

#[test]
fn failure_stops_the_sequence() {
    let mut l = light(false, 0, 2900);
    let (calls, end) = run(Intent::On { brightness: 60, temperature: 5000 }, &mut l, Some(1));
    assert_eq!(calls, vec![DeviceCall::SetPower(true), DeviceCall::SetBrightness(60)]);
    assert_eq!(end, Step::Failed);
    assert_eq!(l.temperature, 2900);
}

#[test]
fn failed_read_stops_adjustment() {
    let mut l = light(true, 50, 4000);
    let (calls, end) = run(Intent::AdjustBrightness { delta: 10 }, &mut l, Some(0));
    assert_eq!(calls, vec![DeviceCall::FetchState]);
    assert_eq!(end, Step::Failed);
}

#[test]
fn earlier_failure_in_history_fails() {
    let intent = Intent::On { brightness: 1, temperature: 3000 };
    let replies = vec![Reply::Failed, Reply::Written, Reply::Written];
    assert_eq!(next_step(&intent, &replies), Step::Failed);
}

#[test]
fn write_reply_where_state_expected_fails() {
    assert_eq!(next_step(&Intent::Status, &vec![Reply::Written]), Step::Failed);
    let adjust = Intent::AdjustBrightness { delta: 5 };
    assert_eq!(next_step(&adjust, &vec![Reply::Written]), Step::Failed);
}
