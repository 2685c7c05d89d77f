//! The device operations an intent implies, decided one at a time from the
//! replies the device has given so far.
//!
//! The caller performs each requested call and appends the device's reply;
//! the sequence ends at the first failure. Reads and writes are separate
//! round trips: the device offers no compare-and-swap, so a change made by
//! another client between a read and the following write is not detected.
use vstd::prelude::*;
use crate::intent::Intent;

verus! {

/// A snapshot of the light.
#[derive(Clone, Copy, Debug, PartialEq, Eq, Structural)]
pub struct DeviceState {
    pub power: bool,
    pub brightness: u8,
    pub temperature: u32,
}

/// One round trip to the device.
#[derive(Clone, Copy, Debug, PartialEq, Eq, Structural)]
pub enum DeviceCall {
    FetchState,
    SetPower(bool),
    SetBrightness(u8),
    SetTemperature(u32),
}

/// The device's answer to a call.
#[derive(Clone, Copy, Debug, PartialEq, Eq, Structural)]
pub enum Reply {
    /// A write went through.
    Written,
    /// A read returned this state.
    State(DeviceState),
    /// The call failed.
    Failed,
}

/// What to do next.
#[derive(Clone, Copy, Debug, PartialEq, Eq, Structural)]
pub enum Step {
    Call(DeviceCall),
    /// The sequence is complete; `Status` reports the state it read.
    Finished(Option<DeviceState>),
    /// A call failed, or a read returned no state; nothing more is sent.
    Failed,
}

/// Where the power-on precondition stands after the replies `h`.
pub enum PowerCheck {
    /// Still checking: this is the next step.
    Pending(Step),
    /// The light is on; the adjustment's own replies start at this index.
    Ready(usize),
}

/// `clamp(current + delta, 0, 100)`.
pub open spec fn adjusted(current: u8, delta: i8) -> u8 {
    let v = current + delta;
    if v < 0 {
        0
    } else if v > 100 {
        100
    } else {
        v as u8
    }
}

pub open spec fn any_failed(h: Seq<Reply>) -> bool {
    exists|i: int| 0 <= i < h.len() && h[i] is Failed
}

/// The power-on precondition: read the state, and switch the light on if it
/// is off.
pub open spec fn power_check(h: Seq<Reply>) -> PowerCheck {
    if h.len() == 0 {
        PowerCheck::Pending(Step::Call(DeviceCall::FetchState))
    } else {
        match h[0] {
            Reply::State(s) => if s.power {
                PowerCheck::Ready(1)
            } else if h.len() == 1 {
                PowerCheck::Pending(Step::Call(DeviceCall::SetPower(true)))
            } else {
                PowerCheck::Ready(2)
            },
            _ => PowerCheck::Pending(Step::Failed),
        }
    }
}

/// The step after the replies `h` (no failure among them) to `intent`'s calls.
pub open spec fn protocol(intent: Intent, h: Seq<Reply>) -> Step {
    match intent {
        Intent::On { brightness, temperature } => if h.len() == 0 {
            Step::Call(DeviceCall::SetPower(true))
        } else if h.len() == 1 {
            Step::Call(DeviceCall::SetBrightness(brightness))
        } else if h.len() == 2 {
            Step::Call(DeviceCall::SetTemperature(temperature))
        } else {
            Step::Finished(None)
        },
        Intent::Off => if h.len() == 0 {
            Step::Call(DeviceCall::SetPower(false))
        } else {
            Step::Finished(None)
        },
        Intent::AdjustBrightness { delta } => match power_check(h) {
            PowerCheck::Pending(step) => step,
            PowerCheck::Ready(k) => {
                let rest = h.skip(k as int);
                if rest.len() == 0 {
                    Step::Call(DeviceCall::FetchState)
                } else {
                    match rest[0] {
                        Reply::State(s) => if rest.len() == 1 {
                            Step::Call(DeviceCall::SetBrightness(adjusted(s.brightness, delta)))
                        } else {
                            Step::Finished(None)
                        },
                        _ => Step::Failed,
                    }
                }
            },
        },
        Intent::SetTemperature { temperature } => match power_check(h) {
            PowerCheck::Pending(step) => step,
            PowerCheck::Ready(k) => if h.len() == k {
                Step::Call(DeviceCall::SetTemperature(temperature))
            } else {
                Step::Finished(None)
            },
        },
        Intent::Status => if h.len() == 0 {
            Step::Call(DeviceCall::FetchState)
        } else {
            match h[0] {
                Reply::State(s) => Step::Finished(Some(s)),
                _ => Step::Failed,
            }
        },
    }
}

/// The step after the replies `h`: the first failure ends the sequence.
pub open spec fn next_step_of(intent: Intent, h: Seq<Reply>) -> Step {
    if any_failed(h) {
        Step::Failed
    } else {
        protocol(intent, h)
    }
}

/// The calls made while the device answers with the replies `h`, the one
/// made after the last of them included.
pub open spec fn calls_made(intent: Intent, h: Seq<Reply>) -> Seq<DeviceCall>
    decreases h.len(),
{
    let before = if h.len() == 0 {
        Seq::empty()
    } else {
        calls_made(intent, h.drop_last())
    };
    match next_step_of(intent, h) {
        Step::Call(c) => before.push(c),
        _ => before,
    }
}

/// The brightness after applying `delta` to `current`, saturated to 0..=100.
pub fn adjusted_brightness(current: u8, delta: i8) -> (r: u8)
    ensures
        r == adjusted(current, delta),
        0 <= r <= 100,
        current + delta < 0 ==> r == 0,
        current + delta > 100 ==> r == 100,
        0 <= current + delta <= 100 ==> r == current + delta,
{
    let v = current as i16 + delta as i16;
    if v < 0 {
        0
    } else if v > 100 {
        100
    } else {
        v as u8
    }
}

fn check_power(h: &Vec<Reply>) -> (r: PowerCheck)
    ensures
        r == power_check(h@),
{
    if h.len() == 0 {
        PowerCheck::Pending(Step::Call(DeviceCall::FetchState))
    } else {
        match h[0] {
            Reply::State(s) => if s.power {
                PowerCheck::Ready(1)
            } else if h.len() == 1 {
                PowerCheck::Pending(Step::Call(DeviceCall::SetPower(true)))
            } else {
                PowerCheck::Ready(2)
            },
            _ => PowerCheck::Pending(Step::Failed),
        }
    }
}

/// Decides the next step for `intent` after the device's replies `h`.
pub fn next_step(intent: &Intent, h: &Vec<Reply>) -> (r: Step)
    ensures
        r == next_step_of(*intent, h@),
{
    let mut i: usize = 0;
    while i < h.len()
        invariant
            i <= h.len(),
            forall|j: int| 0 <= j < i ==> !(#[trigger] h@[j] is Failed),
        decreases h.len() - i,
    {
        if let Reply::Failed = h[i] {
            return Step::Failed;
        }
        i = i + 1;
    }
    let n = h.len();
    match *intent {
        Intent::On { brightness, temperature } => if n == 0 {
            Step::Call(DeviceCall::SetPower(true))
        } else if n == 1 {
            Step::Call(DeviceCall::SetBrightness(brightness))
        } else if n == 2 {
            Step::Call(DeviceCall::SetTemperature(temperature))
        } else {
            Step::Finished(None)
        },
        Intent::Off => if n == 0 {
            Step::Call(DeviceCall::SetPower(false))
        } else {
            Step::Finished(None)
        },
        Intent::AdjustBrightness { delta } => match check_power(h) {
            PowerCheck::Pending(step) => step,
            PowerCheck::Ready(k) => {
                if n == k {
                    Step::Call(DeviceCall::FetchState)
                } else {
                    assert(h@.skip(k as int)[0] == h@[k as int]);
                    match h[k] {
                        Reply::State(s) => if n == k + 1 {
                            Step::Call(DeviceCall::SetBrightness(adjusted_brightness(s.brightness, delta)))
                        } else {
                            Step::Finished(None)
                        },
                        _ => Step::Failed,
                    }
                }
            },
        },
        Intent::SetTemperature { temperature } => match check_power(h) {
            PowerCheck::Pending(step) => step,
            PowerCheck::Ready(k) => if n == k {
                Step::Call(DeviceCall::SetTemperature(temperature))
            } else {
                Step::Finished(None)
            },
        },
        Intent::Status => if n == 0 {
            Step::Call(DeviceCall::FetchState)
        } else {
            match h[0] {
                Reply::State(s) => Step::Finished(Some(s)),
                _ => Step::Failed,
            }
        },
    }
}


proof fn lemma_no_failure_in_prefix(h: Seq<Reply>)
    requires
        h.len() > 0,
        !any_failed(h),
    ensures
        !any_failed(h.drop_last()),
{
    assert forall|i: int| 0 <= i < h.len() - 1 implies !(#[trigger] h.drop_last()[i] is Failed) by {
        assert(h.drop_last()[i] == h[i]);
    }
}

/// `On` makes exactly three writes, power on, then brightness, then
/// temperature, whatever the device answers short of a failure, and never
/// reads the device first.
pub proof fn lemma_on_writes_three(brightness: u8, temperature: u32, h: Seq<Reply>)
    requires
        h.len() >= 2,
        !any_failed(h),
    ensures
        calls_made(Intent::On { brightness, temperature }, h) == seq![
            DeviceCall::SetPower(true),
            DeviceCall::SetBrightness(brightness),
            DeviceCall::SetTemperature(temperature),
        ],
        h.len() >= 3 ==> next_step_of(Intent::On { brightness, temperature }, h) == Step::Finished(
            None,
        ),
    decreases h.len(),
{
    let intent = Intent::On { brightness, temperature };
    lemma_no_failure_in_prefix(h);
    if h.len() > 2 {
        lemma_on_writes_three(brightness, temperature, h.drop_last());
    } else {
        let h1 = h.drop_last();
        lemma_no_failure_in_prefix(h1);
        assert(h1.drop_last() =~= Seq::<Reply>::empty());
        assert(calls_made(intent, h1.drop_last()) == seq![DeviceCall::SetPower(true)]);
        assert(calls_made(intent, h1) =~= seq![
            DeviceCall::SetPower(true),
            DeviceCall::SetBrightness(brightness),
        ]);
    }
}

/// A relative brightness change reads the state before any write, switches
/// the light on exactly once when it was off, reads again and writes the
/// clamped brightness computed from that second read.
pub proof fn lemma_adjust_when_off(delta: i8, first: DeviceState, r1: Reply, second: DeviceState, r3: Reply)
    requires
        !first.power,
        !(r1 is Failed),
        !(r3 is Failed),
    ensures
        ({
            let intent = Intent::AdjustBrightness { delta };
            let h = seq![Reply::State(first), r1, Reply::State(second), r3];
            &&& calls_made(intent, h) == seq![
                DeviceCall::FetchState,
                DeviceCall::SetPower(true),
                DeviceCall::FetchState,
                DeviceCall::SetBrightness(adjusted(second.brightness, delta)),
            ]
            &&& next_step_of(intent, h) == Step::Finished(None)
        }),
{
    let intent = Intent::AdjustBrightness { delta };
    let h = seq![Reply::State(first), r1, Reply::State(second), r3];
    let h3 = h.drop_last();
    let h2 = h3.drop_last();
    let h1 = h2.drop_last();
    let h0 = h1.drop_last();
    assert(h0 =~= Seq::<Reply>::empty());
    assert(h1 =~= seq![Reply::State(first)]);
    assert(h2 =~= seq![Reply::State(first), r1]);
    assert(h3 =~= seq![Reply::State(first), r1, Reply::State(second)]);
    assert(h2.skip(2) =~= Seq::<Reply>::empty());
    assert(h3.skip(2) =~= seq![Reply::State(second)]);
    assert(h.skip(2) =~= seq![Reply::State(second), r3]);
    assert(!any_failed(h0));
    assert(!any_failed(h1));
    assert(!any_failed(h2));
    assert(!any_failed(h3));
    assert(!any_failed(h));
    assert(calls_made(intent, h0) =~= seq![DeviceCall::FetchState]);
    assert(calls_made(intent, h1) =~= seq![DeviceCall::FetchState, DeviceCall::SetPower(true)]);
    assert(calls_made(intent, h2) =~= seq![
        DeviceCall::FetchState,
        DeviceCall::SetPower(true),
        DeviceCall::FetchState,
    ]);
    assert(calls_made(intent, h3) =~= seq![DeviceCall::FetchState, DeviceCall::SetPower(true), DeviceCall::FetchState, DeviceCall::SetBrightness(adjusted(second.brightness, delta))]);
    assert(next_step_of(intent, h) == Step::Finished(None));
    assert(calls_made(intent, h) =~= seq![DeviceCall::FetchState, DeviceCall::SetPower(true), DeviceCall::FetchState, DeviceCall::SetBrightness(adjusted(second.brightness, delta))]);
}

/// A relative brightness change on a light that is on reads twice and
/// writes the clamped brightness, with no power write.
pub proof fn lemma_adjust_when_on(delta: i8, first: DeviceState, second: DeviceState, r2: Reply)
    requires
        first.power,
        !(r2 is Failed),
    ensures
        ({
            let intent = Intent::AdjustBrightness { delta };
            let h = seq![Reply::State(first), Reply::State(second), r2];
            &&& calls_made(intent, h) == seq![
                DeviceCall::FetchState,
                DeviceCall::FetchState,
                DeviceCall::SetBrightness(adjusted(second.brightness, delta)),
            ]
            &&& next_step_of(intent, h) == Step::Finished(None)
        }),
{
    let intent = Intent::AdjustBrightness { delta };
    let h = seq![Reply::State(first), Reply::State(second), r2];
    let h2 = h.drop_last();
    let h1 = h2.drop_last();
    let h0 = h1.drop_last();
    assert(h0 =~= Seq::<Reply>::empty());
    assert(h1 =~= seq![Reply::State(first)]);
    assert(h2 =~= seq![Reply::State(first), Reply::State(second)]);
    assert(h1.skip(1) =~= Seq::<Reply>::empty());
    assert(h2.skip(1) =~= seq![Reply::State(second)]);
    assert(h.skip(1) =~= seq![Reply::State(second), r2]);
    assert(!any_failed(h0));
    assert(!any_failed(h1));
    assert(!any_failed(h2));
    assert(!any_failed(h));
    assert(calls_made(intent, h0) =~= seq![DeviceCall::FetchState]);
    assert(calls_made(intent, h1) =~= seq![DeviceCall::FetchState, DeviceCall::FetchState]);
    assert(calls_made(intent, h2) =~= seq![DeviceCall::FetchState, DeviceCall::FetchState, DeviceCall::SetBrightness(adjusted(second.brightness, delta))]);
    assert(next_step_of(intent, h) == Step::Finished(None));
    assert(calls_made(intent, h) =~= seq![DeviceCall::FetchState, DeviceCall::FetchState, DeviceCall::SetBrightness(adjusted(second.brightness, delta))]);
}

/// Setting the temperature of a light that is off reads the state, switches
/// the light on once, then writes the temperature.
pub proof fn lemma_temperature_when_off(temperature: u32, first: DeviceState, r1: Reply, r2: Reply)
    requires
        !first.power,
        !(r1 is Failed),
        !(r2 is Failed),
    ensures
        ({
            let intent = Intent::SetTemperature { temperature };
            let h = seq![Reply::State(first), r1, r2];
            &&& calls_made(intent, h) == seq![
                DeviceCall::FetchState,
                DeviceCall::SetPower(true),
                DeviceCall::SetTemperature(temperature),
            ]
            &&& next_step_of(intent, h) == Step::Finished(None)
        }),
{
    let intent = Intent::SetTemperature { temperature };
    let h = seq![Reply::State(first), r1, r2];
    let h2 = h.drop_last();
    let h1 = h2.drop_last();
    let h0 = h1.drop_last();
    assert(h0 =~= Seq::<Reply>::empty());
    assert(h1 =~= seq![Reply::State(first)]);
    assert(h2 =~= seq![Reply::State(first), r1]);
    assert(!any_failed(h0));
    assert(!any_failed(h1));
    assert(!any_failed(h2));
    assert(!any_failed(h));
    assert(calls_made(intent, h0) =~= seq![DeviceCall::FetchState]);
    assert(calls_made(intent, h1) =~= seq![DeviceCall::FetchState, DeviceCall::SetPower(true)]);
    assert(calls_made(intent, h2) =~= seq![DeviceCall::FetchState, DeviceCall::SetPower(true), DeviceCall::SetTemperature(temperature)]);
    assert(next_step_of(intent, h) == Step::Finished(None));
    assert(calls_made(intent, h) =~= seq![DeviceCall::FetchState, DeviceCall::SetPower(true), DeviceCall::SetTemperature(temperature)]);
}

/// Setting the temperature of a light that is on reads the state and writes
/// the temperature, with no power write.
pub proof fn lemma_temperature_when_on(temperature: u32, first: DeviceState, r1: Reply)
    requires
        first.power,
        !(r1 is Failed),
    ensures
        ({
            let intent = Intent::SetTemperature { temperature };
            let h = seq![Reply::State(first), r1];
            &&& calls_made(intent, h) == seq![
                DeviceCall::FetchState,
                DeviceCall::SetTemperature(temperature),
            ]
            &&& next_step_of(intent, h) == Step::Finished(None)
        }),
{
    let intent = Intent::SetTemperature { temperature };
    let h = seq![Reply::State(first), r1];
    let h1 = h.drop_last();
    let h0 = h1.drop_last();
    assert(h0 =~= Seq::<Reply>::empty());
    assert(h1 =~= seq![Reply::State(first)]);
    assert(!any_failed(h0));
    assert(!any_failed(h1));
    assert(!any_failed(h));
    assert(calls_made(intent, h0) =~= seq![DeviceCall::FetchState]);
    assert(calls_made(intent, h1) =~= seq![DeviceCall::FetchState, DeviceCall::SetTemperature(temperature)]);
    assert(next_step_of(intent, h) == Step::Finished(None));
    assert(calls_made(intent, h) =~= seq![DeviceCall::FetchState, DeviceCall::SetTemperature(temperature)]);
}

/// `Status` reads the device once and writes nothing, whatever it answers.
pub proof fn lemma_status_reads_once(h: Seq<Reply>)
    ensures
        calls_made(Intent::Status, h) == seq![DeviceCall::FetchState],
    decreases h.len(),
{
    if h.len() > 0 {
        lemma_status_reads_once(h.drop_last());
        assert(!(next_step_of(Intent::Status, h) is Call));
    }
}

/// After a failed call the sequence is over: whatever follows, no further
/// call is made and the step is `Failed`.
pub proof fn lemma_failure_ends_sequence(intent: Intent, h: Seq<Reply>, rest: Seq<Reply>)
    ensures
        next_step_of(intent, h.push(Reply::Failed) + rest) == Step::Failed,
        calls_made(intent, h.push(Reply::Failed) + rest) == calls_made(intent, h),
    decreases rest.len(),
{
    let g = h.push(Reply::Failed) + rest;
    assert(g[h.len() as int] is Failed);
    assert(any_failed(g));
    if rest.len() == 0 {
        assert(g.drop_last() =~= h);
    } else {
        lemma_failure_ends_sequence(intent, h, rest.drop_last());
        assert(g.drop_last() =~= h.push(Reply::Failed) + rest.drop_last());
    }
}

/// Every brightness sent to the device lies within 0..=100.
pub proof fn lemma_brightness_sent_in_range(intent: Intent, h: Seq<Reply>)
    requires
        intent.wf(),
    ensures
        forall|i: int|
            0 <= i < calls_made(intent, h).len() ==> (#[trigger] calls_made(intent, h)[i] matches DeviceCall::SetBrightness(b) ==> b <= 100),
    decreases h.len(),
{
    if h.len() > 0 {
        lemma_brightness_sent_in_range(intent, h.drop_last());
    }
    let before = if h.len() == 0 {
        Seq::<DeviceCall>::empty()
    } else {
        calls_made(intent, h.drop_last())
    };
    let c = calls_made(intent, h);
    assert forall|i: int| 0 <= i < c.len() implies (#[trigger] c[i] matches DeviceCall::SetBrightness(b) ==> b <= 100) by {
        if i < before.len() {
            assert(c[i] == before[i]);
        }
    }
}

} // verus!
