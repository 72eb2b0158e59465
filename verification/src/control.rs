//! The control loop, as a state machine.
//!
//! Once per interval the program that runs the loop reads the sensor and
//! hands the reading to [`Controller::tick`]. The controller evaluates the
//! curve, compares the duty cycle it wants with the one it applied last, and
//! answers with the action to take: write the new duty cycle to every fan
//! channel, or skip the write because nothing changed. The only state that
//! changes is the duty cycle applied last, which starts at zero.

use crate::curve::{bucket_of, Curve};
use vstd::prelude::*;

verus! {

/// What one tick learned from the sensor.
#[derive(Clone, Copy, Debug, PartialEq, Eq)]
pub enum Reading {
    /// The temperature in whole degrees Celsius.
    Temperature(u64),
    /// The sensor could not be read, or what it gave was no number.
    Failed,
}

/// What the caller has to do at the end of a tick, before it sleeps.
#[derive(Clone, Copy, Debug, PartialEq, Eq)]
pub enum Action {
    /// Write this duty cycle to every fan channel.
    Write(u8),
    /// Write nothing.
    Skip,
}

/// The duty cycle that the curve `duties` asks for at a reading, if the
/// reading is a temperature.
pub open spec fn desired_duty(duties: Seq<u8>, reading: Reading) -> Option<u8> {
    match reading {
        Reading::Temperature(temp) => Some(duties[bucket_of(temp as int)]),
        Reading::Failed => None,
    }
}

/// The action of one tick: a write if the duty cycle asked for differs from
/// the one applied last, nothing otherwise. A failed reading ends the tick.
pub open spec fn action_for(duties: Seq<u8>, last: u8, reading: Reading) -> Action {
    match desired_duty(duties, reading) {
        Some(duty) if duty != last => Action::Write(duty),
        _ => Action::Skip,
    }
}

/// The duty cycle applied last, as it stands after one tick.
pub open spec fn duty_after(duties: Seq<u8>, last: u8, reading: Reading) -> u8 {
    match action_for(duties, last, reading) {
        Action::Write(duty) => duty,
        Action::Skip => last,
    }
}

/// The actions of a run of ticks, one for each reading, starting with `last`
/// as the duty cycle applied last.
pub open spec fn actions_for(duties: Seq<u8>, last: u8, readings: Seq<Reading>) -> Seq<Action>
    decreases readings.len(),
{
    if readings.len() == 0 {
        Seq::empty()
    } else {
        seq![action_for(duties, last, readings[0])] + actions_for(
            duties,
            duty_after(duties, last, readings[0]),
            readings.drop_first(),
        )
    }
}

/// The duty cycle applied last, as it stands after a run of ticks.
pub open spec fn duty_after_all(duties: Seq<u8>, last: u8, readings: Seq<Reading>) -> u8
    decreases readings.len(),
{
    if readings.len() == 0 {
        last
    } else {
        duty_after_all(duties, duty_after(duties, last, readings[0]), readings.drop_first())
    }
}

/// The duty cycles that a run of actions writes, in order.
pub open spec fn written(actions: Seq<Action>) -> Seq<u8>
    decreases actions.len(),
{
    if actions.len() == 0 {
        Seq::empty()
    } else {
        match actions[0] {
            Action::Write(duty) => seq![duty] + written(actions.drop_first()),
            Action::Skip => written(actions.drop_first()),
        }
    }
}

/// The readings of a run in which every sensor read succeeds.
pub open spec fn temperatures(temps: Seq<u64>) -> Seq<Reading> {
    Seq::new(temps.len(), |i: int| Reading::Temperature(temps[i]))
}

/// The state of the control loop: the curve, which never changes, and the
/// duty cycle that was applied last.
#[derive(Clone, Copy, Debug)]
pub struct Controller {
    curve: Curve,
    last_applied_duty: u8,
}

impl Controller {
    /// The duty cycles of the controller's curve.
    pub closed spec fn duties(&self) -> Seq<u8> {
        self.curve@
    }

    /// The duty cycle applied last; zero while nothing has been written.
    pub closed spec fn last_applied(&self) -> u8 {
        self.last_applied_duty
    }

    /// A controller that has written nothing yet.
    pub fn new(curve: Curve) -> (controller: Self)
        ensures
            controller.duties() == curve@,
            controller.last_applied() == 0,
    {
        Controller { curve, last_applied_duty: 0 }
    }

    /// The curve that the controller evaluates.
    pub fn curve(&self) -> (curve: Curve)
        ensures
            curve@ == self.duties(),
    {
        self.curve
    }

    /// The duty cycle applied last; zero while nothing has been written.
    pub fn last_applied_duty(&self) -> (duty: u8)
        ensures
            duty == self.last_applied(),
    {
        self.last_applied_duty
    }

    /// Runs one tick on the reading that the caller took.
    ///
    /// The answer is a write exactly when the reading is a temperature and
    /// the curve asks for a duty cycle other than the one applied last. The
    /// caller then attempts the write on every channel; the duty cycle counts
    /// as applied whether or not every channel took it. A failed reading
    /// changes nothing.
    pub fn tick(&mut self, reading: Reading) -> (action: Action)
        ensures
            final(self).duties() == old(self).duties(),
            action == action_for(old(self).duties(), old(self).last_applied(), reading),
            final(self).last_applied() == duty_after(
                old(self).duties(),
                old(self).last_applied(),
                reading,
            ),
    {
        match reading {
            Reading::Temperature(temp) => {
                let desired = self.curve.apply(temp);
                if desired != self.last_applied_duty {
                    self.last_applied_duty = desired;
                    Action::Write(desired)
                } else {
                    Action::Skip
                }
            },
            Reading::Failed => Action::Skip,
        }
    }

    /// Runs one tick for each reading, in order, and gives the actions.
    pub fn replay(&mut self, readings: &[Reading]) -> (actions: Vec<Action>)
        ensures
            final(self).duties() == old(self).duties(),
            actions@ == actions_for(old(self).duties(), old(self).last_applied(), readings@),
            final(self).last_applied() == duty_after_all(
                old(self).duties(),
                old(self).last_applied(),
                readings@,
            ),
    {
        let n = readings.len();
        let ghost duties = self.duties();
        let ghost first = self.last_applied();
        let mut actions: Vec<Action> = Vec::new();
        let mut i: usize = 0;
        assert(readings@.skip(0) =~= readings@);
        while i < n
            invariant
                i <= n,
                n == readings@.len(),
                self.duties() == duties,
                actions_for(duties, first, readings@) == actions@ + actions_for(
                    duties,
                    self.last_applied(),
                    readings@.skip(i as int),
                ),
                duty_after_all(duties, first, readings@) == duty_after_all(
                    duties,
                    self.last_applied(),
                    readings@.skip(i as int),
                ),
            decreases n - i,
        {
            assert(readings@.skip(i as int).drop_first() =~= readings@.skip(i + 1));
            let action = self.tick(readings[i]);
            actions.push(action);
            i += 1;
        }
        actions
    }
}

/// A run of temperatures that all ask for the duty cycle applied last
/// writes nothing and leaves that duty cycle in place.
pub proof fn lemma_steady_run(duties: Seq<u8>, last: u8, temps: Seq<u64>)
    requires
        forall|i: int| 0 <= i < temps.len() ==> duties[bucket_of(#[trigger] temps[i] as int)] == last,
    ensures
        actions_for(duties, last, temperatures(temps)) == Seq::new(
            temps.len(),
            |i: int| Action::Skip,
        ),
        written(actions_for(duties, last, temperatures(temps))) == Seq::<u8>::empty(),
        duty_after_all(duties, last, temperatures(temps)) == last,
    decreases temps.len(),
{
    if temps.len() > 0 {
        let readings = temperatures(temps);
        let rest = temps.drop_first();
        assert(readings.drop_first() =~= temperatures(rest));
        lemma_steady_run(duties, last, rest);
        assert(actions_for(duties, last, readings).drop_first() =~= actions_for(
            duties,
            last,
            temperatures(rest),
        ));
    }
}

/// Change suppression: while the temperature stays in one bucket, the duty
/// cycle is written at most once. The first tick writes it if it differs from
/// the duty cycle applied last, which is zero for a new controller; no later
/// tick writes anything.
pub proof fn lemma_change_suppression(duties: Seq<u8>, last: u8, temps: Seq<u64>)
    requires
        temps.len() > 0,
        forall|i: int, j: int|
            0 <= i < temps.len() && 0 <= j < temps.len() ==> bucket_of(temps[i] as int)
                == bucket_of(temps[j] as int),
    ensures
        ({
            let duty = duties[bucket_of(temps[0] as int)];
            let actions = actions_for(duties, last, temperatures(temps));
            &&& actions.len() == temps.len()
            &&& actions[0] == if duty != last {
                Action::Write(duty)
            } else {
                Action::Skip
            }
            &&& forall|i: int| 1 <= i < actions.len() ==> actions[i] == Action::Skip
            &&& written(actions) == if duty != last {
                seq![duty]
            } else {
                Seq::empty()
            }
            &&& duty_after_all(duties, last, temperatures(temps)) == duty
        }),
{
    let duty = duties[bucket_of(temps[0] as int)];
    let readings = temperatures(temps);
    let rest = temps.drop_first();
    assert(readings.drop_first() =~= temperatures(rest));
    lemma_steady_run(duties, duty, rest);
    assert(actions_for(duties, last, readings).drop_first() =~= actions_for(
        duties,
        duty,
        temperatures(rest),
    ));
}

/// No write repeats the one before it: the first duty cycle that a run
/// writes differs from the one applied before the run, each later one differs
/// from the one written just before it, and the last one written is the duty
/// cycle that counts as applied when the run ends.
pub proof fn lemma_writes_differ(duties: Seq<u8>, last: u8, readings: Seq<Reading>)
    ensures
        ({
            let writes = written(actions_for(duties, last, readings));
            &&& actions_for(duties, last, readings).len() == readings.len()
            &&& writes.len() > 0 ==> writes[0] != last
            &&& forall|i: int|
                0 <= i < writes.len() - 1 ==> #[trigger] writes[i] != writes[i + 1]
            &&& duty_after_all(duties, last, readings) == if writes.len() > 0 {
                writes.last()
            } else {
                last
            }
        }),
    decreases readings.len(),
{
    if readings.len() > 0 {
        let next = duty_after(duties, last, readings[0]);
        let rest = readings.drop_first();
        lemma_writes_differ(duties, next, rest);
        assert(actions_for(duties, last, readings).drop_first() =~= actions_for(
            duties,
            next,
            rest,
        ));
    }
}

/// Every duty cycle that a run writes is one that the curve holds. With a
/// curve scaled from percentages no write exceeds 254, so 255 is never
/// written.
pub proof fn lemma_writes_from_curve(duties: Seq<u8>, last: u8, readings: Seq<Reading>)
    requires
        duties.len() == 10,
    ensures
        ({
            let writes = written(actions_for(duties, last, readings));
            &&& forall|i: int| 0 <= i < writes.len() ==> duties.contains(#[trigger] writes[i])
            &&& (forall|bucket: int| 0 <= bucket < 10 ==> #[trigger] duties[bucket] <= 254)
                ==> forall|i: int| 0 <= i < writes.len() ==> #[trigger] writes[i] <= 254
        }),
    decreases readings.len(),
{
    if readings.len() > 0 {
        let next = duty_after(duties, last, readings[0]);
        let rest = readings.drop_first();
        lemma_writes_from_curve(duties, next, rest);
        let actions = actions_for(duties, last, readings);
        let later = actions_for(duties, next, rest);
        assert(actions.drop_first() =~= later);
        if let Reading::Temperature(temp) = readings[0] {
            // The bucket of the reading is where the curve holds a write of this tick.
            let bucket = bucket_of(temp as int);
            assert(0 <= bucket < 10);
            let writes = written(actions);
            assert forall|i: int| 0 <= i < writes.len() implies duties.contains(
                #[trigger] writes[i],
            ) by {
                if actions[0] is Write && i > 0 {
                    assert(writes[i] == written(later)[i - 1]);
                }
            }
        }
    }
}

} // verus!
