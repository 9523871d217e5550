use vstd::prelude::*;
use crate::frame::{Frame, FrameModel, CHANNELS};

verus! {

/// The device's latest reported state. Voltages are kept as the IEEE-754 bit
/// pattern of the `f32` reading.
pub struct Telemetry {
    pub timestamp: u64,
    pub armed: bool,
    pub battery: u32,
    pub arming: u32,
    pub solenoids: Vec<bool>,
}

pub ghost struct TelemetryModel {
    pub timestamp: u64,
    pub armed: bool,
    pub battery: u32,
    pub arming: u32,
    pub solenoids: Seq<bool>,
}

impl View for Telemetry {
    type V = TelemetryModel;

    open spec fn view(&self) -> TelemetryModel {
        TelemetryModel {
            timestamp: self.timestamp,
            armed: self.armed,
            battery: self.battery,
            arming: self.arming,
            solenoids: self.solenoids@,
        }
    }
}

/// The record that stands before any device data arrives: everything zero, false
/// or off. (The bit pattern `0` is the `f32` value `0.0`.)
pub open spec fn initial_model() -> TelemetryModel {
    TelemetryModel {
        timestamp: 0,
        armed: false,
        battery: 0,
        arming: 0,
        solenoids: Seq::new(CHANNELS as nat, |k: int| false),
    }
}

/// The record that a frame gives, once its two readings are known.
pub open spec fn record_of(f: FrameModel, battery: u32, arming: u32) -> TelemetryModel {
    TelemetryModel {
        timestamp: f.timestamp,
        armed: f.armed,
        battery,
        arming,
        solenoids: f.solenoids,
    }
}

impl TelemetryModel {
    /// A record reports every channel, and no more.
    pub open spec fn wf(self) -> bool {
        self.solenoids.len() == CHANNELS
    }
}

impl Telemetry {
    pub open spec fn wf(&self) -> bool {
        self@.wf()
    }

    /// An independent copy of this record.
    pub fn copy(&self) -> (r: Telemetry)
        ensures
            r@ == self@,
    {
        let mut solenoids: Vec<bool> = Vec::new();
        let mut k: usize = 0;
        while k < self.solenoids.len()
            invariant
                k <= self.solenoids@.len(),
                solenoids@ == self.solenoids@.subrange(0, k as int),
            decreases self.solenoids@.len() - k,
        {
            solenoids.push(self.solenoids[k]);
            k = k + 1;
            assert(solenoids@ =~= self.solenoids@.subrange(0, k as int));
        }
        assert(solenoids@ =~= self.solenoids@);
        Telemetry {
            timestamp: self.timestamp,
            armed: self.armed,
            battery: self.battery,
            arming: self.arming,
            solenoids,
        }
    }

    /// Completes a decoded frame with its two readings, as bit patterns. Without
    /// both readings there is no record.
    pub fn from_frame(frame: Frame, battery: Option<u32>, arming: Option<u32>) -> (r: Option<
        Telemetry,
    >)
        requires
            frame@.solenoids.len() == CHANNELS,
        ensures
            r is Some <==> (battery is Some && arming is Some),
            r matches Some(t) ==> t@ == record_of(frame@, battery->0, arming->0) && t.wf(),
    {
        match (battery, arming) {
            (Some(b), Some(a)) => Some(
                Telemetry {
                    timestamp: frame.timestamp,
                    armed: frame.armed,
                    battery: b,
                    arming: a,
                    solenoids: frame.solenoids,
                },
            ),
            _ => None,
        }
    }
}

impl Default for Telemetry {
    fn default() -> (r: Telemetry)
        ensures
            r@ == initial_model(),
    {
        let mut solenoids: Vec<bool> = Vec::new();
        let mut k: usize = 0;
        while k < CHANNELS
            invariant
                k <= CHANNELS,
                solenoids@ == Seq::new(k as nat, |j: int| false),
            decreases CHANNELS - k,
        {
            solenoids.push(false);
            k = k + 1;
            assert(solenoids@ =~= Seq::new(k as nat, |j: int| false));
        }
        Telemetry { timestamp: 0, armed: false, battery: 0, arming: 0, solenoids }
    }
}

/// The cell that holds the latest record. The last write wins; readers get copies.
pub struct StateStore {
    current: Telemetry,
}

impl View for StateStore {
    type V = TelemetryModel;

    closed spec fn view(&self) -> TelemetryModel {
        self.current@
    }
}

impl StateStore {
    /// The stored record always reports every channel.
    #[verifier::type_invariant]
    spec fn holds_full_record(self) -> bool {
        self.current.wf()
    }

    /// A store holding the initial record.
    pub fn new() -> (r: StateStore)
        ensures
            r@ == initial_model(),
            r@.wf(),
    {
        StateStore { current: Telemetry::default() }
    }

    /// A copy of the current record.
    pub fn read(&self) -> (r: Telemetry)
        ensures
            r@ == self@,
            r.wf(),
    {
        proof { use_type_invariant(self); }
        self.current.copy()
    }

    /// Replaces the current record wholly.
    pub fn write(&mut self, record: Telemetry)
        requires
            record.wf(),
        ensures
            final(self)@ == record@,
            final(self)@.wf(),
    {
        self.current = record;
    }

    /// Publishes the outcome of decoding one line: a record replaces the current
    /// one, a rejected line leaves it as it was.
    pub fn publish(&mut self, parsed: Option<Telemetry>)
        requires
            parsed matches Some(t) ==> t.wf(),
        ensures
            match parsed {
                Some(t) => final(self)@ == t@,
                None => final(self)@ == old(self)@,
            },
            final(self)@.wf(),
    {
        proof { use_type_invariant(&*self); }
        if let Some(t) = parsed {
            self.write(t);
        }
    }
}

} // verus!
