//! The metering aggregates: classification of the four metered device
//! classes into power sinks and power sources by the sign of their reported
//! instant power.

use vstd::prelude::*;

verus! {

/// The four classes of aggregated meter readings the gateway reports.
#[derive(Clone, Copy, Debug, PartialEq, Eq, Structural)]
pub enum AggregateClass {
    Load,
    Grid,
    Battery,
    Solar,
}

/// One class's aggregate reading, reduced to the plain values the
/// classification reads: the sign of the reported instant power, the
/// reporting timeout, and how many meters the aggregation covers.
#[derive(Clone, Copy, Debug, PartialEq, Eq, Structural)]
pub struct AggregateMeterDevice {
    /// Whether the reported instant power carries a negative sign. A
    /// positive value indicates power draw from the device; a negative value
    /// indicates power flow to the device.
    pub instant_power_negative: bool,
    /// The reporting timeout.
    pub timeout: u64,
    /// The number of meters this aggregation covers.
    pub num_meters_aggregated: u16,
}

/// The aggregate readings of the four device classes.
#[derive(Clone, Copy, Debug, PartialEq, Eq, Structural)]
pub struct MetersAggregates {
    /// The home's power draw. It is always a sink: its power never carries a
    /// negative sign.
    pub load: AggregateMeterDevice,
    /// The grid: positive power is draw from the grid, negative power is
    /// power sent to the grid.
    pub grid: AggregateMeterDevice,
    /// The batteries: positive power is draw from the batteries, negative
    /// power is power sent to them.
    pub battery: AggregateMeterDevice,
    /// Solar: positive power is production, negative power is power sent to
    /// solar.
    pub solar: AggregateMeterDevice,
}

/// The sinks, in fixed order: the load always, then each of grid, battery
/// and solar exactly when its power flows towards it.
pub open spec fn spec_sinks(m: MetersAggregates) -> Seq<(AggregateClass, AggregateMeterDevice)> {
    seq![(AggregateClass::Load, m.load)] + (if m.grid.instant_power_negative {
        seq![(AggregateClass::Grid, m.grid)]
    } else {
        Seq::empty()
    }) + (if m.battery.instant_power_negative {
        seq![(AggregateClass::Battery, m.battery)]
    } else {
        Seq::empty()
    }) + (if m.solar.instant_power_negative {
        seq![(AggregateClass::Solar, m.solar)]
    } else {
        Seq::empty()
    })
}

/// The sources, in fixed order: each of grid, battery and solar exactly when
/// its power flows from it.
pub open spec fn spec_sources(m: MetersAggregates) -> Seq<(AggregateClass, AggregateMeterDevice)> {
    (if !m.grid.instant_power_negative {
        seq![(AggregateClass::Grid, m.grid)]
    } else {
        Seq::empty()
    }) + (if !m.battery.instant_power_negative {
        seq![(AggregateClass::Battery, m.battery)]
    } else {
        Seq::empty()
    }) + (if !m.solar.instant_power_negative {
        seq![(AggregateClass::Solar, m.solar)]
    } else {
        Seq::empty()
    })
}

impl MetersAggregates {
    /// The devices power is drawn into: the load always, and each other
    /// class whose instant power is negative.
    pub fn sinks(&self) -> (r: Vec<(AggregateClass, AggregateMeterDevice)>)
        requires
            !self.load.instant_power_negative,
        ensures
            r@ == spec_sinks(*self),
    {
        let mut out: Vec<(AggregateClass, AggregateMeterDevice)> = Vec::new();
        out.push((AggregateClass::Load, self.load));
        if self.grid.instant_power_negative {
            out.push((AggregateClass::Grid, self.grid));
        }
        if self.battery.instant_power_negative {
            out.push((AggregateClass::Battery, self.battery));
        }
        if self.solar.instant_power_negative {
            out.push((AggregateClass::Solar, self.solar));
        }
        proof {
            assert(out@ =~= spec_sinks(*self));
        }
        out
    }

    /// The devices power is drawn from: each class whose instant power is
    /// positive.
    pub fn sources(&self) -> (r: Vec<(AggregateClass, AggregateMeterDevice)>)
        ensures
            r@ == spec_sources(*self),
    {
        let mut out: Vec<(AggregateClass, AggregateMeterDevice)> = Vec::new();
        if !self.grid.instant_power_negative {
            out.push((AggregateClass::Grid, self.grid));
        }
        if !self.battery.instant_power_negative {
            out.push((AggregateClass::Battery, self.battery));
        }
        if !self.solar.instant_power_negative {
            out.push((AggregateClass::Solar, self.solar));
        }
        proof {
            assert(out@ =~= spec_sources(*self));
        }
        out
    }
}

/// The number of meters an aggregation is assumed to cover when the raw
/// response does not say.
pub fn default_num_meters() -> (r: u16)
    ensures
        r == 1,
{
    1
}

} // verus!
