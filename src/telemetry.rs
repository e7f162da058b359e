use vstd::prelude::*;
use crate::ultrasound::{UltrasoundResult, ULTRASOUND_CHANNELS};

verus! {

/// Period of the outbound telemetry cycle, in milliseconds.
pub const TELEMETRY_PERIOD_MS: u64 = 250;

/// An outbound telemetry message, ready for the CAN message catalog.
#[derive(Clone, Copy, Debug, PartialEq, Eq, Structural)]
pub enum Telemetry {
    /// Speed in centimetres per hour.
    Speed(i64),
    /// Front distances in millimetres, sensors 0, 1 and 2.
    FrontDist(u16, u16, u16),
    /// Rear distances in millimetres, sensors 3, 4 and 5.
    RearDist(u16, u16, u16),
}

/// Largest distance, in millimetres, that a distance field holds.
pub const MAX_DISTANCE_FIELD: u64 = 0xffff;

/// New value of a distance field that held `prev`: 0 for a failure, the
/// distance for a measurement the field can hold, and `prev` unchanged for a
/// distance beyond the field's range.
pub open spec fn distance_field(prev: u16, r: UltrasoundResult) -> u16 {
    match r {
        UltrasoundResult::Fail => 0,
        UltrasoundResult::Measurement(v) => if v <= MAX_DISTANCE_FIELD {
            v as u16
        } else {
            prev
        },
    }
}

pub fn to_distance_field(prev: u16, r: UltrasoundResult) -> (f: u16)
    ensures
        f == distance_field(prev, r),
{
    match r {
        UltrasoundResult::Fail => 0,
        UltrasoundResult::Measurement(v) => if v <= MAX_DISTANCE_FIELD {
            v as u16
        } else {
            prev
        },
    }
}

/// Last known telemetry values, kept between cycles.
#[derive(Clone, Copy, Debug)]
pub struct TelemetryState {
    pub speed: i64,
    pub front: (u16, u16, u16),
    pub rear: (u16, u16, u16),
}

impl TelemetryState {
    /// State after a cycle that took `speed` and `ultrasounds` from the bus;
    /// what was not published keeps its last value.
    pub open spec fn updated(self, speed: Option<i64>, ultrasounds: Option<Seq<UltrasoundResult>>) -> TelemetryState {
        let s = match speed {
            Some(v) => TelemetryState { speed: v, ..self },
            None => self,
        };
        match ultrasounds {
            Some(u) => TelemetryState {
                front: (
                    distance_field(self.front.0, u[0]),
                    distance_field(self.front.1, u[1]),
                    distance_field(self.front.2, u[2]),
                ),
                rear: (
                    distance_field(self.rear.0, u[3]),
                    distance_field(self.rear.1, u[4]),
                    distance_field(self.rear.2, u[5]),
                ),
                ..s
            },
            None => s,
        }
    }

    /// Messages sent for this state, in order: speed, front, rear.
    pub open spec fn messages(self) -> Seq<Telemetry> {
        seq![
            Telemetry::Speed(self.speed),
            Telemetry::FrontDist(self.front.0, self.front.1, self.front.2),
            Telemetry::RearDist(self.rear.0, self.rear.1, self.rear.2),
        ]
    }
}

/// Outbound half of the CAN gateway: the cached messages, refreshed from the
/// bus and sent again every cycle.
pub struct TelemetryCache {
    state: TelemetryState,
}

impl TelemetryCache {
    pub closed spec fn view(&self) -> TelemetryState {
        self.state
    }

    /// Speed 0 and distances 3, 2, 1 until the sensors publish.
    pub fn new() -> (r: Self)
        ensures
            r@ == (TelemetryState { speed: 0, front: (3, 2, 1), rear: (3, 2, 1) }),
    {
        TelemetryCache { state: TelemetryState { speed: 0, front: (3, 2, 1), rear: (3, 2, 1) } }
    }

    /// One transmit cycle: takes what was published since the last cycle and
    /// returns the three messages to send, whether or not anything changed.
    pub fn cycle(&mut self, speed: Option<i64>, ultrasounds: Option<&[UltrasoundResult]>) -> (r: Vec<Telemetry>)
        requires
            ultrasounds is Some ==> ultrasounds->Some_0@.len() == ULTRASOUND_CHANNELS,
        ensures
            final(self)@ == old(self)@.updated(
                speed,
                match ultrasounds {
                    Some(u) => Some(u@),
                    None => None,
                },
            ),
            r@ == final(self)@.messages(),
    {
        if let Some(v) = speed {
            self.state.speed = v;
        }
        if let Some(u) = ultrasounds {
            let (f, b) = (self.state.front, self.state.rear);
            self.state.front = (
                to_distance_field(f.0, u[0]),
                to_distance_field(f.1, u[1]),
                to_distance_field(f.2, u[2]),
            );
            self.state.rear = (
                to_distance_field(b.0, u[3]),
                to_distance_field(b.1, u[4]),
                to_distance_field(b.2, u[5]),
            );
        }
        let s = self.state;
        let mut r: Vec<Telemetry> = Vec::new();
        r.push(Telemetry::Speed(s.speed));
        r.push(Telemetry::FrontDist(s.front.0, s.front.1, s.front.2));
        r.push(Telemetry::RearDist(s.rear.0, s.rear.1, s.rear.2));
        assert(r@ =~= s.messages());
        r
    }
}

/// A cycle in which neither speed nor ultrasound values were published leaves
/// the cache as it was and sends the previous cycle's messages unchanged.
pub proof fn lemma_quiet_cycle_repeats(s: TelemetryState)
    ensures
        s.updated(None, None) == s,
        s.updated(None, None).messages() == s.messages(),
{
}

} // verus!
