//! The dispatch table: routing a five-component OBIS key to one measurement.
//!
//! Each rule names the five slot patterns a key must match and the
//! measurement shape it then constructs. One slot may be variable: a tariff,
//! phase or channel index is derived from it. The rules are data, individually
//! testable, and mutually exclusive, so their order carries no meaning.

use vstd::prelude::*;

use crate::attribute::AttrModel;
use crate::attribute::Attribute;
use crate::attribute::result_model;
use crate::attribute::spec_hex_text;
use crate::attribute::spec_num_unit;
use crate::attribute::spec_text;
use crate::attribute::spec_texts;
use crate::attribute::spec_uint;
use crate::error::DecodeError;
use crate::error::ErrorModel;
use crate::obis::groups_of;
use crate::obis::obis_key_of;
use crate::obis::obis_token_ok;
use crate::obis::parse_groups;
use crate::obis::parse_obis_key;
use crate::obis::split_line;
use crate::obis::split_obis;
use crate::text::byte_views;
use crate::text::find_first;

verus! {

/// Which measurement a rule constructs, and with which sub-decoders.
#[derive(Debug, Clone, Copy, PartialEq, Eq, Structural)]
pub enum Shape {
    Version,
    Timestamp,
    EquipmentIdentifier,
    ElectricityDelivered,
    ElectricityReceived,
    TariffIndicator,
    ActualPowerDelivered,
    ActualPowerReceived,
    PowerFailures,
    PowerFailuresLong,
    PowerFailureLog,
    VoltageSags,
    VoltageSwells,
    TextMessage,
    InstantVoltage,
    InstantCurrent,
    InstantPowerDelivered,
    InstantPowerReceived,
    GasEquipmentDeviceType,
    GasEquipmentIdentifier,
    GasDelivered,
}

/// What one key component must be for a rule to apply.
#[derive(Debug, Clone, Copy, PartialEq, Eq, Structural)]
pub enum SlotPattern {
    /// Exactly this value.
    Exact(u8),
    /// Either of two values: the tariff positions.
    OneOfTwo(u8, u8),
    /// Any of three values: the phase positions.
    OneOfThree(u8, u8, u8),
    /// Any value: the channel position.
    Any,
}

/// One dispatch rule: five slot patterns and the measurement they select.
#[derive(Debug, Clone, Copy, PartialEq, Eq, Structural)]
pub struct Rule {
    pub p0: SlotPattern,
    pub p1: SlotPattern,
    pub p2: SlotPattern,
    pub p3: SlotPattern,
    pub p4: SlotPattern,
    pub shape: Shape,
}

/// Whether one key component satisfies one slot pattern.
pub open spec fn slot_matches(p: SlotPattern, v: u8) -> bool {
    match p {
        SlotPattern::Exact(x) => v == x,
        SlotPattern::OneOfTwo(a, b) => v == a || v == b,
        SlotPattern::OneOfThree(a, b, c) => v == a || v == b || v == c,
        SlotPattern::Any => true,
    }
}

/// Whether a key matches a rule: every slot satisfies its pattern.
pub open spec fn rule_matches(r: Rule, key: Seq<u8>) -> bool {
    &&& slot_matches(r.p0, key[0])
    &&& slot_matches(r.p1, key[1])
    &&& slot_matches(r.p2, key[2])
    &&& slot_matches(r.p3, key[3])
    &&& slot_matches(r.p4, key[4])
}

/// The dispatch table. The variable slot of the electricity counters is the
/// tariff, of the per-phase readings the phase position, of the gas rules
/// the sub-meter channel.
pub open spec fn spec_rules() -> Seq<Rule> {
    seq![
        Rule {
            p0: SlotPattern::Exact(1),
            p1: SlotPattern::Exact(3),
            p2: SlotPattern::Exact(0),
            p3: SlotPattern::Exact(2),
            p4: SlotPattern::Exact(8),
            shape: Shape::Version,
        },
        Rule {
            p0: SlotPattern::Exact(0),
            p1: SlotPattern::Exact(0),
            p2: SlotPattern::Exact(1),
            p3: SlotPattern::Exact(0),
            p4: SlotPattern::Exact(0),
            shape: Shape::Timestamp,
        },
        Rule {
            p0: SlotPattern::Exact(0),
            p1: SlotPattern::Exact(0),
            p2: SlotPattern::Exact(96),
            p3: SlotPattern::Exact(1),
            p4: SlotPattern::Exact(1),
            shape: Shape::EquipmentIdentifier,
        },
        Rule {
            p0: SlotPattern::Exact(1),
            p1: SlotPattern::Exact(0),
            p2: SlotPattern::Exact(1),
            p3: SlotPattern::Exact(8),
            p4: SlotPattern::OneOfTwo(1, 2),
            shape: Shape::ElectricityDelivered,
        },
        Rule {
            p0: SlotPattern::Exact(1),
            p1: SlotPattern::Exact(0),
            p2: SlotPattern::Exact(2),
            p3: SlotPattern::Exact(8),
            p4: SlotPattern::OneOfTwo(1, 2),
            shape: Shape::ElectricityReceived,
        },
        Rule {
            p0: SlotPattern::Exact(0),
            p1: SlotPattern::Exact(0),
            p2: SlotPattern::Exact(96),
            p3: SlotPattern::Exact(14),
            p4: SlotPattern::Exact(0),
            shape: Shape::TariffIndicator,
        },
        Rule {
            p0: SlotPattern::Exact(1),
            p1: SlotPattern::Exact(0),
            p2: SlotPattern::Exact(1),
            p3: SlotPattern::Exact(7),
            p4: SlotPattern::Exact(0),
            shape: Shape::ActualPowerDelivered,
        },
        Rule {
            p0: SlotPattern::Exact(1),
            p1: SlotPattern::Exact(0),
            p2: SlotPattern::Exact(2),
            p3: SlotPattern::Exact(7),
            p4: SlotPattern::Exact(0),
            shape: Shape::ActualPowerReceived,
        },
        Rule {
            p0: SlotPattern::Exact(0),
            p1: SlotPattern::Exact(0),
            p2: SlotPattern::Exact(96),
            p3: SlotPattern::Exact(7),
            p4: SlotPattern::Exact(21),
            shape: Shape::PowerFailures,
        },
        Rule {
            p0: SlotPattern::Exact(0),
            p1: SlotPattern::Exact(0),
            p2: SlotPattern::Exact(96),
            p3: SlotPattern::Exact(7),
            p4: SlotPattern::Exact(9),
            shape: Shape::PowerFailuresLong,
        },
        Rule {
            p0: SlotPattern::Exact(1),
            p1: SlotPattern::Exact(0),
            p2: SlotPattern::Exact(99),
            p3: SlotPattern::Exact(97),
            p4: SlotPattern::Exact(0),
            shape: Shape::PowerFailureLog,
        },
        Rule {
            p0: SlotPattern::Exact(1),
            p1: SlotPattern::Exact(0),
            p2: SlotPattern::OneOfThree(32, 52, 72),
            p3: SlotPattern::Exact(32),
            p4: SlotPattern::Exact(0),
            shape: Shape::VoltageSags,
        },
        Rule {
            p0: SlotPattern::Exact(1),
            p1: SlotPattern::Exact(0),
            p2: SlotPattern::OneOfThree(32, 52, 72),
            p3: SlotPattern::Exact(36),
            p4: SlotPattern::Exact(0),
            shape: Shape::VoltageSwells,
        },
        Rule {
            p0: SlotPattern::Exact(0),
            p1: SlotPattern::Exact(0),
            p2: SlotPattern::Exact(96),
            p3: SlotPattern::Exact(13),
            p4: SlotPattern::Exact(0),
            shape: Shape::TextMessage,
        },
        Rule {
            p0: SlotPattern::Exact(1),
            p1: SlotPattern::Exact(0),
            p2: SlotPattern::OneOfThree(32, 52, 72),
            p3: SlotPattern::Exact(7),
            p4: SlotPattern::Exact(0),
            shape: Shape::InstantVoltage,
        },
        Rule {
            p0: SlotPattern::Exact(1),
            p1: SlotPattern::Exact(0),
            p2: SlotPattern::OneOfThree(31, 51, 71),
            p3: SlotPattern::Exact(7),
            p4: SlotPattern::Exact(0),
            shape: Shape::InstantCurrent,
        },
        Rule {
            p0: SlotPattern::Exact(1),
            p1: SlotPattern::Exact(0),
            p2: SlotPattern::OneOfThree(21, 41, 61),
            p3: SlotPattern::Exact(7),
            p4: SlotPattern::Exact(0),
            shape: Shape::InstantPowerDelivered,
        },
        Rule {
            p0: SlotPattern::Exact(1),
            p1: SlotPattern::Exact(0),
            p2: SlotPattern::OneOfThree(22, 42, 62),
            p3: SlotPattern::Exact(7),
            p4: SlotPattern::Exact(0),
            shape: Shape::InstantPowerReceived,
        },
        Rule {
            p0: SlotPattern::Exact(0),
            p1: SlotPattern::Any,
            p2: SlotPattern::Exact(24),
            p3: SlotPattern::Exact(1),
            p4: SlotPattern::Exact(0),
            shape: Shape::GasEquipmentDeviceType,
        },
        Rule {
            p0: SlotPattern::Exact(0),
            p1: SlotPattern::Any,
            p2: SlotPattern::Exact(96),
            p3: SlotPattern::Exact(1),
            p4: SlotPattern::Exact(0),
            shape: Shape::GasEquipmentIdentifier,
        },
        Rule {
            p0: SlotPattern::Exact(0),
            p1: SlotPattern::Any,
            p2: SlotPattern::Exact(24),
            p3: SlotPattern::Exact(2),
            p4: SlotPattern::Exact(1),
            shape: Shape::GasDelivered,
        },
    ]
}

/// The phase index derived from a variable key component: positions start
/// at `base` and step by 20 per phase, so the index is
/// `(component - base) / 20 + 1`.
pub open spec fn derived_index(n: u8, base: u8) -> u8 {
    if n >= base {
        (((n - base) / 20) + 1) as u8
    } else {
        0
    }
}

fn derived_index_exec(n: u8, base: u8) -> (r: u8)
    ensures
        r == derived_index(n, base),
{
    if n >= base {
        (n - base) / 20 + 1
    } else {
        0
    }
}

/// What applying one rule's shape to a key and its value groups yields.
pub open spec fn apply_shape(shape: Shape, key: Seq<u8>, groups: Seq<Seq<u8>>) -> Result<
    AttrModel,
    ErrorModel,
> {
    match shape {
        Shape::Version => match spec_text(groups[0]) {
            Ok(s) => Ok(AttrModel::Version(s)),
            Err(e) => Err(e),
        },
        Shape::Timestamp => match spec_text(groups[0]) {
            Ok(s) => Ok(AttrModel::Timestamp(s)),
            Err(e) => Err(e),
        },
        Shape::EquipmentIdentifier => match spec_hex_text(groups[0]) {
            Ok(s) => Ok(AttrModel::EquipmentIdentifier(s)),
            Err(e) => Err(e),
        },
        Shape::ElectricityDelivered => match spec_num_unit(groups[0]) {
            Ok(d) => Ok(AttrModel::ElectricityDelivered(key[4], d)),
            Err(e) => Err(e),
        },
        Shape::ElectricityReceived => match spec_num_unit(groups[0]) {
            Ok(d) => Ok(AttrModel::ElectricityReceived(key[4], d)),
            Err(e) => Err(e),
        },
        Shape::TariffIndicator => match spec_uint(groups[0], i64::MAX as nat) {
            Ok(v) => Ok(AttrModel::TariffIndicator(v as i64)),
            Err(e) => Err(e),
        },
        Shape::ActualPowerDelivered => match spec_num_unit(groups[0]) {
            Ok(d) => Ok(AttrModel::ActualPowerDelivered(d)),
            Err(e) => Err(e),
        },
        Shape::ActualPowerReceived => match spec_num_unit(groups[0]) {
            Ok(d) => Ok(AttrModel::ActualPowerReceived(d)),
            Err(e) => Err(e),
        },
        Shape::PowerFailures => match spec_uint(groups[0], u32::MAX as nat) {
            Ok(v) => Ok(AttrModel::PowerFailures(v as u32)),
            Err(e) => Err(e),
        },
        Shape::PowerFailuresLong => match spec_uint(groups[0], u32::MAX as nat) {
            Ok(v) => Ok(AttrModel::PowerFailuresLong(v as u32)),
            Err(e) => Err(e),
        },
        Shape::PowerFailureLog => match spec_texts(groups) {
            Ok(l) => Ok(AttrModel::PowerFailureLog(l)),
            Err(e) => Err(e),
        },
        Shape::VoltageSags => match spec_uint(groups[0], u16::MAX as nat) {
            Ok(v) => Ok(AttrModel::VoltageSags(derived_index(key[2], 32), v as u16)),
            Err(e) => Err(e),
        },
        Shape::VoltageSwells => match spec_uint(groups[0], u16::MAX as nat) {
            Ok(v) => Ok(AttrModel::VoltageSwells(derived_index(key[2], 32), v as u16)),
            Err(e) => Err(e),
        },
        Shape::TextMessage => match spec_text(groups[0]) {
            Ok(s) => Ok(AttrModel::TextMessage(s)),
            Err(e) => Err(e),
        },
        Shape::InstantVoltage => match spec_num_unit(groups[0]) {
            Ok(d) => Ok(AttrModel::InstantVoltage(derived_index(key[2], 32), d)),
            Err(e) => Err(e),
        },
        Shape::InstantCurrent => match spec_num_unit(groups[0]) {
            Ok(d) => Ok(AttrModel::InstantCurrent(derived_index(key[2], 31), d)),
            Err(e) => Err(e),
        },
        Shape::InstantPowerDelivered => match spec_num_unit(groups[0]) {
            Ok(d) => Ok(AttrModel::InstantPowerDelivered(derived_index(key[2], 21), d)),
            Err(e) => Err(e),
        },
        Shape::InstantPowerReceived => match spec_num_unit(groups[0]) {
            Ok(d) => Ok(AttrModel::InstantPowerReceived(derived_index(key[2], 22), d)),
            Err(e) => Err(e),
        },
        Shape::GasEquipmentDeviceType => match spec_uint(groups[0], u8::MAX as nat) {
            Ok(v) => Ok(AttrModel::GasEquipmentDeviceType(key[1], v as u8)),
            Err(e) => Err(e),
        },
        Shape::GasEquipmentIdentifier => match spec_hex_text(groups[0]) {
            Ok(s) => Ok(AttrModel::GasEquipmentIdentifier(key[1], s)),
            Err(e) => Err(e),
        },
        Shape::GasDelivered => {
            if groups.len() < 2 {
                Err(ErrorModel::MissingValueGroup { index: 1 })
            } else {
                match spec_num_unit(groups[1]) {
                    Err(e) => Err(e),
                    Ok(d) => match spec_text(groups[0]) {
                        Err(e) => Err(e),
                        Ok(ts) => Ok(AttrModel::GasDelivered(key[1], ts, d)),
                    },
                }
            }
        },
    }
}

/// The first matching rule applied; a key that matches none is an
/// [`DecodeError::UnknownObisKey`] naming the key.
pub open spec fn dispatch_rules(rules: Seq<Rule>, key: Seq<u8>, groups: Seq<Seq<u8>>) -> Result<
    AttrModel,
    ErrorModel,
>
    decreases rules.len(),
{
    if rules.len() == 0 {
        Err(ErrorModel::UnknownObisKey { key })
    } else if rule_matches(rules[0], key) {
        apply_shape(rules[0].shape, key, groups)
    } else {
        dispatch_rules(rules.drop_first(), key, groups)
    }
}

/// The dispatch table as a value, for the decoder and for tests.
pub fn rules() -> (r: Vec<Rule>)
    ensures
        r@ == spec_rules(),
{
    let mut v: Vec<Rule> = Vec::new();
    v.push(
        Rule {
            p0: SlotPattern::Exact(1),
            p1: SlotPattern::Exact(3),
            p2: SlotPattern::Exact(0),
            p3: SlotPattern::Exact(2),
            p4: SlotPattern::Exact(8),
            shape: Shape::Version,
        },
    );
    v.push(
        Rule {
            p0: SlotPattern::Exact(0),
            p1: SlotPattern::Exact(0),
            p2: SlotPattern::Exact(1),
            p3: SlotPattern::Exact(0),
            p4: SlotPattern::Exact(0),
            shape: Shape::Timestamp,
        },
    );
    v.push(
        Rule {
            p0: SlotPattern::Exact(0),
            p1: SlotPattern::Exact(0),
            p2: SlotPattern::Exact(96),
            p3: SlotPattern::Exact(1),
            p4: SlotPattern::Exact(1),
            shape: Shape::EquipmentIdentifier,
        },
    );
    v.push(
        Rule {
            p0: SlotPattern::Exact(1),
            p1: SlotPattern::Exact(0),
            p2: SlotPattern::Exact(1),
            p3: SlotPattern::Exact(8),
            p4: SlotPattern::OneOfTwo(1, 2),
            shape: Shape::ElectricityDelivered,
        },
    );
    v.push(
        Rule {
            p0: SlotPattern::Exact(1),
            p1: SlotPattern::Exact(0),
            p2: SlotPattern::Exact(2),
            p3: SlotPattern::Exact(8),
            p4: SlotPattern::OneOfTwo(1, 2),
            shape: Shape::ElectricityReceived,
        },
    );
    v.push(
        Rule {
            p0: SlotPattern::Exact(0),
            p1: SlotPattern::Exact(0),
            p2: SlotPattern::Exact(96),
            p3: SlotPattern::Exact(14),
            p4: SlotPattern::Exact(0),
            shape: Shape::TariffIndicator,
        },
    );
    v.push(
        Rule {
            p0: SlotPattern::Exact(1),
            p1: SlotPattern::Exact(0),
            p2: SlotPattern::Exact(1),
            p3: SlotPattern::Exact(7),
            p4: SlotPattern::Exact(0),
            shape: Shape::ActualPowerDelivered,
        },
    );
    v.push(
        Rule {
            p0: SlotPattern::Exact(1),
            p1: SlotPattern::Exact(0),
            p2: SlotPattern::Exact(2),
            p3: SlotPattern::Exact(7),
            p4: SlotPattern::Exact(0),
            shape: Shape::ActualPowerReceived,
        },
    );
    v.push(
        Rule {
            p0: SlotPattern::Exact(0),
            p1: SlotPattern::Exact(0),
            p2: SlotPattern::Exact(96),
            p3: SlotPattern::Exact(7),
            p4: SlotPattern::Exact(21),
            shape: Shape::PowerFailures,
        },
    );
    v.push(
        Rule {
            p0: SlotPattern::Exact(0),
            p1: SlotPattern::Exact(0),
            p2: SlotPattern::Exact(96),
            p3: SlotPattern::Exact(7),
            p4: SlotPattern::Exact(9),
            shape: Shape::PowerFailuresLong,
        },
    );
    v.push(
        Rule {
            p0: SlotPattern::Exact(1),
            p1: SlotPattern::Exact(0),
            p2: SlotPattern::Exact(99),
            p3: SlotPattern::Exact(97),
            p4: SlotPattern::Exact(0),
            shape: Shape::PowerFailureLog,
        },
    );
    v.push(
        Rule {
            p0: SlotPattern::Exact(1),
            p1: SlotPattern::Exact(0),
            p2: SlotPattern::OneOfThree(32, 52, 72),
            p3: SlotPattern::Exact(32),
            p4: SlotPattern::Exact(0),
            shape: Shape::VoltageSags,
        },
    );
    v.push(
        Rule {
            p0: SlotPattern::Exact(1),
            p1: SlotPattern::Exact(0),
            p2: SlotPattern::OneOfThree(32, 52, 72),
            p3: SlotPattern::Exact(36),
            p4: SlotPattern::Exact(0),
            shape: Shape::VoltageSwells,
        },
    );
    v.push(
        Rule {
            p0: SlotPattern::Exact(0),
            p1: SlotPattern::Exact(0),
            p2: SlotPattern::Exact(96),
            p3: SlotPattern::Exact(13),
            p4: SlotPattern::Exact(0),
            shape: Shape::TextMessage,
        },
    );
    v.push(
        Rule {
            p0: SlotPattern::Exact(1),
            p1: SlotPattern::Exact(0),
            p2: SlotPattern::OneOfThree(32, 52, 72),
            p3: SlotPattern::Exact(7),
            p4: SlotPattern::Exact(0),
            shape: Shape::InstantVoltage,
        },
    );
    v.push(
        Rule {
            p0: SlotPattern::Exact(1),
            p1: SlotPattern::Exact(0),
            p2: SlotPattern::OneOfThree(31, 51, 71),
            p3: SlotPattern::Exact(7),
            p4: SlotPattern::Exact(0),
            shape: Shape::InstantCurrent,
        },
    );
    v.push(
        Rule {
            p0: SlotPattern::Exact(1),
            p1: SlotPattern::Exact(0),
            p2: SlotPattern::OneOfThree(21, 41, 61),
            p3: SlotPattern::Exact(7),
            p4: SlotPattern::Exact(0),
            shape: Shape::InstantPowerDelivered,
        },
    );
    v.push(
        Rule {
            p0: SlotPattern::Exact(1),
            p1: SlotPattern::Exact(0),
            p2: SlotPattern::OneOfThree(22, 42, 62),
            p3: SlotPattern::Exact(7),
            p4: SlotPattern::Exact(0),
            shape: Shape::InstantPowerReceived,
        },
    );
    v.push(
        Rule {
            p0: SlotPattern::Exact(0),
            p1: SlotPattern::Any,
            p2: SlotPattern::Exact(24),
            p3: SlotPattern::Exact(1),
            p4: SlotPattern::Exact(0),
            shape: Shape::GasEquipmentDeviceType,
        },
    );
    v.push(
        Rule {
            p0: SlotPattern::Exact(0),
            p1: SlotPattern::Any,
            p2: SlotPattern::Exact(96),
            p3: SlotPattern::Exact(1),
            p4: SlotPattern::Exact(0),
            shape: Shape::GasEquipmentIdentifier,
        },
    );
    v.push(
        Rule {
            p0: SlotPattern::Exact(0),
            p1: SlotPattern::Any,
            p2: SlotPattern::Exact(24),
            p3: SlotPattern::Exact(2),
            p4: SlotPattern::Exact(1),
            shape: Shape::GasDelivered,
        },
    );
    proof {
        assert(v@ =~= spec_rules());
    }
    v
}

/// Whether a key matches one rule.
pub fn rule_applies(r: &Rule, key: &[u8; 5]) -> (b: bool)
    ensures
        b == rule_matches(*r, key@),
{
    let s0 = slot_applies(&r.p0, key[0]);
    let s1 = slot_applies(&r.p1, key[1]);
    let s2 = slot_applies(&r.p2, key[2]);
    let s3 = slot_applies(&r.p3, key[3]);
    let s4 = slot_applies(&r.p4, key[4]);
    s0 && s1 && s2 && s3 && s4
}

fn slot_applies(p: &SlotPattern, v: u8) -> (b: bool)
    ensures
        b == slot_matches(*p, v),
{
    match p {
        SlotPattern::Exact(x) => v == *x,
        SlotPattern::OneOfTwo(a, b) => v == *a || v == *b,
        SlotPattern::OneOfThree(a, b, c) => v == *a || v == *b || v == *c,
        SlotPattern::Any => true,
    }
}

/// Converts every raw group to text, keeping the list verbatim.
#[verifier::loop_isolation(false)]
fn texts_value(groups: &Vec<Vec<u8>>) -> (r: Result<Vec<String>, DecodeError>)
    ensures
        r matches Ok(l) ==> spec_texts(byte_views(groups@)) == Ok::<Seq<Seq<char>>, ErrorModel>(
            l.deep_view(),
        ),
        r matches Err(e) ==> spec_texts(byte_views(groups@)) == Err::<Seq<Seq<char>>, ErrorModel>(
            e.deep_view(),
        ),
{
    let ghost gs = byte_views(groups@);
    let mut out: Vec<String> = Vec::new();
    let mut i: usize = 0;
    proof {
        assert(gs.skip(0) =~= gs);
        if spec_texts(gs) is Ok {
            assert(out.deep_view() + spec_texts(gs)->Ok_0 =~~= spec_texts(gs)->Ok_0);
        }
    }
    while i < groups.len()
        invariant
            0 <= i <= groups@.len(),
            spec_texts(gs) == (match spec_texts(gs.skip(i as int)) {
                Ok(rest) => Ok::<Seq<Seq<char>>, ErrorModel>(out.deep_view() + rest),
                Err(e) => Err(e),
            }),
        decreases groups@.len() - i,
    {
        let ghost pre_out = out.deep_view();
        proof {
            assert(gs.skip(i as int)[0] == gs[i as int]);
            assert(gs.skip(i as int).drop_first() =~= gs.skip(i + 1));
        }
        match Attribute::text_value(groups[i].as_slice()) {
            Err(e) => {
                return Err(e);
            },
            Ok(s) => {
                out.push(s);
                proof {
                    assert(out.deep_view() =~~= pre_out.push(s@));
                    if spec_texts(gs.skip(i + 1)) is Ok {
                        let rest = spec_texts(gs.skip(i + 1))->Ok_0;
                        assert(pre_out + (seq![s@] + rest) =~~= pre_out.push(s@) + rest);
                    }
                }
            },
        }
        i = i + 1;
    }
    proof {
        assert(gs.skip(groups@.len() as int) =~= Seq::<Seq<u8>>::empty());
        assert(out.deep_view() + Seq::<Seq<char>>::empty() =~~= out.deep_view());
    }
    Ok(out)
}

/// Applies one rule's shape: derives the variable index from the key and
/// runs the shape's sub-decoders on the value groups.
pub fn apply_rule(shape: Shape, key: &[u8; 5], groups: &Vec<Vec<u8>>) -> (r: Result<
    Attribute,
    DecodeError,
>)
    requires
        groups@.len() >= 1,
    ensures
        result_model(r) == apply_shape(shape, key@, byte_views(groups@)),
{
    proof {
        assert(byte_views(groups@)[0] == groups@[0]@);
    }
    match shape {
        Shape::Version => match Attribute::text_value(groups[0].as_slice()) {
            Ok(s) => Ok(Attribute::Version(s)),
            Err(e) => Err(e),
        },
        Shape::Timestamp => match Attribute::text_value(groups[0].as_slice()) {
            Ok(s) => Ok(Attribute::Timestamp(s)),
            Err(e) => Err(e),
        },
        Shape::EquipmentIdentifier => match Attribute::parse_hex(groups[0].as_slice()) {
            Ok(s) => Ok(Attribute::EquipmentIdentifier(s)),
            Err(e) => Err(e),
        },
        Shape::ElectricityDelivered => match Attribute::parse_num_unit(groups[0].as_slice()) {
            Ok(d) => Ok(Attribute::ElectricityDelivered(key[4], d)),
            Err(e) => Err(e),
        },
        Shape::ElectricityReceived => match Attribute::parse_num_unit(groups[0].as_slice()) {
            Ok(d) => Ok(Attribute::ElectricityReceived(key[4], d)),
            Err(e) => Err(e),
        },
        Shape::TariffIndicator => match Attribute::parse_num(
            groups[0].as_slice(),
            i64::MAX as u64,
        ) {
            Ok(v) => Ok(Attribute::TariffIndicator(v as i64)),
            Err(e) => Err(e),
        },
        Shape::ActualPowerDelivered => match Attribute::parse_num_unit(groups[0].as_slice()) {
            Ok(d) => Ok(Attribute::ActualPowerDelivered(d)),
            Err(e) => Err(e),
        },
        Shape::ActualPowerReceived => match Attribute::parse_num_unit(groups[0].as_slice()) {
            Ok(d) => Ok(Attribute::ActualPowerReceived(d)),
            Err(e) => Err(e),
        },
        Shape::PowerFailures => match Attribute::parse_num(groups[0].as_slice(), u32::MAX as u64) {
            Ok(v) => Ok(Attribute::PowerFailures(v as u32)),
            Err(e) => Err(e),
        },
        Shape::PowerFailuresLong => match Attribute::parse_num(
            groups[0].as_slice(),
            u32::MAX as u64,
        ) {
            Ok(v) => Ok(Attribute::PowerFailuresLong(v as u32)),
            Err(e) => Err(e),
        },
        Shape::PowerFailureLog => match texts_value(groups) {
            Ok(l) => Ok(Attribute::PowerFailureLog(l)),
            Err(e) => Err(e),
        },
        Shape::VoltageSags => match Attribute::parse_num(groups[0].as_slice(), u16::MAX as u64) {
            Ok(v) => Ok(Attribute::VoltageSags(derived_index_exec(key[2], 32), v as u16)),
            Err(e) => Err(e),
        },
        Shape::VoltageSwells => match Attribute::parse_num(groups[0].as_slice(), u16::MAX as u64) {
            Ok(v) => Ok(Attribute::VoltageSwells(derived_index_exec(key[2], 32), v as u16)),
            Err(e) => Err(e),
        },
        Shape::TextMessage => match Attribute::text_value(groups[0].as_slice()) {
            Ok(s) => Ok(Attribute::TextMessage(s)),
            Err(e) => Err(e),
        },
        Shape::InstantVoltage => match Attribute::parse_num_unit(groups[0].as_slice()) {
            Ok(d) => Ok(Attribute::InstantVoltage(derived_index_exec(key[2], 32), d)),
            Err(e) => Err(e),
        },
        Shape::InstantCurrent => match Attribute::parse_num_unit(groups[0].as_slice()) {
            Ok(d) => Ok(Attribute::InstantCurrent(derived_index_exec(key[2], 31), d)),
            Err(e) => Err(e),
        },
        Shape::InstantPowerDelivered => match Attribute::parse_num_unit(groups[0].as_slice()) {
            Ok(d) => Ok(Attribute::InstantPowerDelivered(derived_index_exec(key[2], 21), d)),
            Err(e) => Err(e),
        },
        Shape::InstantPowerReceived => match Attribute::parse_num_unit(groups[0].as_slice()) {
            Ok(d) => Ok(Attribute::InstantPowerReceived(derived_index_exec(key[2], 22), d)),
            Err(e) => Err(e),
        },
        Shape::GasEquipmentDeviceType => match Attribute::parse_num(
            groups[0].as_slice(),
            u8::MAX as u64,
        ) {
            Ok(v) => Ok(Attribute::GasEquipmentDeviceType(key[1], v as u8)),
            Err(e) => Err(e),
        },
        Shape::GasEquipmentIdentifier => match Attribute::parse_hex(groups[0].as_slice()) {
            Ok(s) => Ok(Attribute::GasEquipmentIdentifier(key[1], s)),
            Err(e) => Err(e),
        },
        Shape::GasDelivered => {
            if groups.len() < 2 {
                Err(DecodeError::MissingValueGroup { index: 1 })
            } else {
                proof {
                    assert(byte_views(groups@)[1] == groups@[1]@);
                }
                match Attribute::parse_num_unit(groups[1].as_slice()) {
                    Err(e) => Err(e),
                    Ok(d) => match Attribute::text_value(groups[0].as_slice()) {
                        Err(e) => Err(e),
                        Ok(ts) => Ok(Attribute::GasDelivered(key[1], ts, d)),
                    },
                }
            }
        },
    }
}

/// Walks the table and applies the matching rule.
#[verifier::loop_isolation(false)]
pub fn dispatch(key: &[u8; 5], groups: &Vec<Vec<u8>>) -> (r: Result<Attribute, DecodeError>)
    requires
        groups@.len() >= 1,
    ensures
        result_model(r) == dispatch_rules(spec_rules(), key@, byte_views(groups@)),
{
    let table = rules();
    let ghost gs = byte_views(groups@);
    let mut i: usize = 0;
    proof {
        assert(spec_rules().skip(0) =~= spec_rules());
    }
    while i < table.len()
        invariant
            0 <= i <= table@.len(),
            dispatch_rules(spec_rules(), key@, gs) == dispatch_rules(
                spec_rules().skip(i as int),
                key@,
                gs,
            ),
        decreases table@.len() - i,
    {
        proof {
            assert(spec_rules().skip(i as int)[0] == spec_rules()[i as int]);
            assert(spec_rules().skip(i as int).drop_first() =~= spec_rules().skip(i + 1));
        }
        if rule_applies(&table[i], key) {
            return apply_rule(table[i].shape, key, groups);
        }
        i = i + 1;
    }
    proof {
        assert(spec_rules().skip(table@.len() as int) =~= Seq::<Rule>::empty());
    }
    Err(DecodeError::UnknownObisKey { key: *key })
}

/// What decoding one whole data line yields: the code part before the first
/// `(` parsed as the five-component key, the value part split into groups,
/// and the matching rule applied.
pub open spec fn spec_decode_line(line: Seq<u8>) -> Result<AttrModel, ErrorModel> {
    match find_first(line, 40) {
        None => Err(ErrorModel::MissingParenthesis { line }),
        Some(i) => {
            let code = line.take(i);
            let vals = line.skip(i);
            if !(forall|j: int|
                0 <= j < split_obis(code).len() ==> obis_token_ok(#[trigger] split_obis(code)[j])) {
                Err(ErrorModel::ObisBadComponent { code })
            } else if split_obis(code).len() != 5 {
                Err(ErrorModel::ObisWrongArity { code })
            } else {
                dispatch_rules(spec_rules(), obis_key_of(code), groups_of(vals))
            }
        },
    }
}

impl Attribute {
    /// Decodes one data line into its measurement, or says exactly why it
    /// cannot be decoded.
    pub fn from_line(line: &[u8]) -> (r: Result<Attribute, DecodeError>)
        ensures
            result_model(r) == spec_decode_line(line@),
    {
        let (code, vals) = match split_line(line) {
            Ok(cv) => cv,
            Err(e) => {
                return Err(e);
            },
        };
        let key = match parse_obis_key(code) {
            Ok(k) => k,
            Err(e) => {
                return Err(e);
            },
        };
        let groups = parse_groups(vals);
        dispatch(&key, &groups)
    }
}

/// Law: no key matches two different rules, so the table's order carries no
/// meaning and dispatch is unambiguous.
pub proof fn lemma_rules_mutually_exclusive(key: Seq<u8>, i: int, j: int)
    requires
        0 <= i < spec_rules().len(),
        0 <= j < spec_rules().len(),
        i != j,
        rule_matches(spec_rules()[i], key),
    ensures
        !rule_matches(spec_rules()[j], key),
{
}

/// Law: the decoder is stateless per line: what a line decodes to is a
/// function of its bytes alone, so two decodes of one line agree.
pub proof fn lemma_decode_line_stateless(
    line: Seq<u8>,
    r1: Result<AttrModel, ErrorModel>,
    r2: Result<AttrModel, ErrorModel>,
)
    requires
        r1 == spec_decode_line(line),
        r2 == spec_decode_line(line),
    ensures
        r1 == r2,
{
}

} // verus!
