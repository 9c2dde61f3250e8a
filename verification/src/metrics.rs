//! Which gauge each measurement updates.
//!
//! The library decides what a telegram publishes; the caller owns the
//! metrics backend and applies the updates it is handed.

use vstd::prelude::*;

use crate::attribute::AttrModel;
use crate::attribute::Attribute;
use crate::decimal::Decimal;

verus! {

/// One gauge update derived from a measurement.
#[derive(Debug, Clone, Copy, PartialEq, Eq, Structural)]
pub enum MetricUpdate {
    /// Meter reading electricity delivered to the client, by tariff (kWh).
    ElectricityDelivered { tariff: u8, kwh: Decimal },
    /// Meter reading electricity delivered by the client, by tariff (kWh).
    ElectricityReceived { tariff: u8, kwh: Decimal },
    /// The active electricity tariff.
    TariffIndicator { tariff: i64 },
    /// Actual electricity power delivered (kW).
    ActualPowerDelivered { kw: Decimal },
    /// Actual electricity power received (kW).
    ActualPowerReceived { kw: Decimal },
    /// Instantaneous voltage, by phase (V).
    InstantVoltage { phase: u8, volt: Decimal },
    /// Instantaneous current, by phase (A).
    InstantCurrent { phase: u8, ampere: Decimal },
    /// Instantaneous active power delivered, by phase (kW).
    InstantPowerDelivered { phase: u8, kw: Decimal },
    /// Instantaneous active power received, by phase (kW).
    InstantPowerReceived { phase: u8, kw: Decimal },
    /// Gas delivered to the client (m3).
    GasDelivered { m3: Decimal },
}

/// The update a single measurement asks for, if it is exported at all.
pub open spec fn spec_update_of(a: AttrModel) -> Option<MetricUpdate> {
    match a {
        AttrModel::ElectricityDelivered(t, d) => Some(
            MetricUpdate::ElectricityDelivered { tariff: t, kwh: d },
        ),
        AttrModel::ElectricityReceived(t, d) => Some(
            MetricUpdate::ElectricityReceived { tariff: t, kwh: d },
        ),
        AttrModel::TariffIndicator(t) => Some(MetricUpdate::TariffIndicator { tariff: t }),
        AttrModel::ActualPowerDelivered(d) => Some(MetricUpdate::ActualPowerDelivered { kw: d }),
        AttrModel::ActualPowerReceived(d) => Some(MetricUpdate::ActualPowerReceived { kw: d }),
        AttrModel::InstantVoltage(p, d) => Some(MetricUpdate::InstantVoltage { phase: p, volt: d }),
        AttrModel::InstantCurrent(p, d) => Some(
            MetricUpdate::InstantCurrent { phase: p, ampere: d },
        ),
        AttrModel::InstantPowerDelivered(p, d) => Some(
            MetricUpdate::InstantPowerDelivered { phase: p, kw: d },
        ),
        AttrModel::InstantPowerReceived(p, d) => Some(
            MetricUpdate::InstantPowerReceived { phase: p, kw: d },
        ),
        AttrModel::GasDelivered(_, _, d) => Some(MetricUpdate::GasDelivered { m3: d }),
        _ => None,
    }
}

/// The updates a telegram's measurements ask for, in document order; the
/// measurements that are not exported contribute nothing.
pub open spec fn spec_updates(attrs: Seq<AttrModel>) -> Seq<MetricUpdate>
    decreases attrs.len(),
{
    if attrs.len() == 0 {
        Seq::<MetricUpdate>::empty()
    } else {
        let rest = spec_updates(attrs.drop_first());
        match spec_update_of(attrs[0]) {
            Some(u) => seq![u] + rest,
            None => rest,
        }
    }
}

/// Computes the gauge updates for a telegram's measurements; the caller
/// applies them to its metrics backend.
#[verifier::loop_isolation(false)]
pub fn export(attributes: &[Attribute]) -> (r: Vec<MetricUpdate>)
    ensures
        r@ == spec_updates(attributes.deep_view()),
{
    let ghost dv = attributes.deep_view();
    let mut r: Vec<MetricUpdate> = Vec::new();
    let mut i: usize = 0;
    proof {
        assert(dv.skip(0) =~= dv);
        assert(r@ + spec_updates(dv) =~= spec_updates(dv));
    }
    while i < attributes.len()
        invariant
            0 <= i <= dv.len(),
            spec_updates(dv) == r@ + spec_updates(dv.skip(i as int)),
        decreases dv.len() - i,
    {
        let ghost pre = r@;
        proof {
            assert(dv.skip(i as int)[0] == dv[i as int]);
            assert(dv.skip(i as int).drop_first() =~= dv.skip(i + 1));
        }
        let ghost rest = spec_updates(dv.skip(i + 1));
        match &attributes[i] {
            Attribute::ElectricityDelivered(t, d) => r.push(
                MetricUpdate::ElectricityDelivered { tariff: *t, kwh: *d },
            ),
            Attribute::ElectricityReceived(t, d) => r.push(
                MetricUpdate::ElectricityReceived { tariff: *t, kwh: *d },
            ),
            Attribute::TariffIndicator(t) => r.push(MetricUpdate::TariffIndicator { tariff: *t }),
            Attribute::ActualPowerDelivered(d) => r.push(
                MetricUpdate::ActualPowerDelivered { kw: *d },
            ),
            Attribute::ActualPowerReceived(d) => r.push(
                MetricUpdate::ActualPowerReceived { kw: *d },
            ),
            Attribute::InstantVoltage(p, d) => r.push(
                MetricUpdate::InstantVoltage { phase: *p, volt: *d },
            ),
            Attribute::InstantCurrent(p, d) => r.push(
                MetricUpdate::InstantCurrent { phase: *p, ampere: *d },
            ),
            Attribute::InstantPowerDelivered(p, d) => r.push(
                MetricUpdate::InstantPowerDelivered { phase: *p, kw: *d },
            ),
            Attribute::InstantPowerReceived(p, d) => r.push(
                MetricUpdate::InstantPowerReceived { phase: *p, kw: *d },
            ),
            Attribute::GasDelivered(_, _, d) => r.push(MetricUpdate::GasDelivered { m3: *d }),
            _ => (),
        }
        proof {
            match spec_update_of(dv[i as int]) {
                Some(u) => {
                    assert(r@ == pre.push(u));
                    assert(pre + (seq![u] + rest) =~= pre.push(u) + rest);
                },
                None => {
                    assert(r@ == pre);
                },
            }
        }
        i = i + 1;
    }
    proof {
        assert(dv.skip(dv.len() as int) =~= Seq::<AttrModel>::empty());
        assert(r@ + Seq::<MetricUpdate>::empty() =~= r@);
    }
    r
}

} // verus!
