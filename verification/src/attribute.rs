//! Typed measurement values and the sub-decoders that read them from raw
//! value groups.
//!
//! Each data line carries one measurement; its value groups are decoded as
//! plain numbers, numbers tagged with a unit, hex-encoded text, plain text,
//! or a verbatim list of strings.

use vstd::prelude::*;
use vstd::utf8::decode_utf8;
use vstd::utf8::valid_utf8;

use crate::decimal::Decimal;
use crate::decimal::decimal_of;
use crate::decimal::decimal_ok;
use crate::decimal::parse_decimal;
use crate::error::DecodeError;
use crate::error::ErrorModel;
use crate::text::all_hex_digits;
use crate::text::dec_value;
use crate::text::find_byte;
use crate::text::find_first;
use crate::text::hex_decode;
use crate::text::hex_decode_bytes;
use crate::text::is_dec_digits;
use crate::text::lemma_find_first;
use crate::text::parse_u64;
use crate::text::slice_to_vec;
use crate::text::utf8_string;

verus! {

/// A measurement unit the wire may tag a value with.
#[derive(Debug, Clone, Copy, PartialEq, Eq, Structural)]
pub enum Unit {
    KiloWatt,
    KiloWattHour,
    Ampere,
    Volt,
    CubicMeters,
    Seconds,
}

/// The unit a token denotes: `kW`, `kWh`, `A`, `V`, `m3` or `s`.
pub open spec fn unit_of(s: Seq<u8>) -> Option<Unit> {
    if s == seq![107u8, 87u8] {
        Some(Unit::KiloWatt)
    } else if s == seq![107u8, 87u8, 104u8] {
        Some(Unit::KiloWattHour)
    } else if s == seq![65u8] {
        Some(Unit::Ampere)
    } else if s == seq![86u8] {
        Some(Unit::Volt)
    } else if s == seq![109u8, 51u8] {
        Some(Unit::CubicMeters)
    } else if s == seq![115u8] {
        Some(Unit::Seconds)
    } else {
        None
    }
}

impl Unit {
    /// Resolves a unit token; anything outside the fixed enumeration is an
    /// [`DecodeError::UnknownUnit`].
    pub fn parse(s: &[u8]) -> (r: Result<Unit, DecodeError>)
        ensures
            r is Ok <==> unit_of(s@) is Some,
            r matches Ok(u) ==> unit_of(s@) == Some(u),
            r matches Err(e) ==> e.deep_view() == (ErrorModel::UnknownUnit { text: s@ }),
    {
        if s.len() == 1 {
            proof {
                assert(s@ =~= seq![s@[0]]);
            }
            if s[0] == 65 {
                return Ok(Unit::Ampere);
            }
            if s[0] == 86 {
                return Ok(Unit::Volt);
            }
            if s[0] == 115 {
                return Ok(Unit::Seconds);
            }
        } else if s.len() == 2 {
            proof {
                assert(s@ =~= seq![s@[0], s@[1]]);
            }
            if s[0] == 107 && s[1] == 87 {
                return Ok(Unit::KiloWatt);
            }
            if s[0] == 109 && s[1] == 51 {
                return Ok(Unit::CubicMeters);
            }
        } else if s.len() == 3 {
            proof {
                assert(s@ =~= seq![s@[0], s@[1], s@[2]]);
            }
            if s[0] == 107 && s[1] == 87 && s[2] == 104 {
                return Ok(Unit::KiloWattHour);
            }
        }
        Err(DecodeError::UnknownUnit { text: slice_to_vec(s) })
    }
}

/// One decoded measurement. Each variant mirrors one dispatch rule; numeric
/// readings are kept exactly as [`Decimal`] values.
#[derive(Debug, PartialEq)]
pub enum Attribute {
    Header(String),
    Version(String),
    Timestamp(String),
    EquipmentIdentifier(String),
    ElectricityDelivered(u8, Decimal),
    ElectricityReceived(u8, Decimal),
    TariffIndicator(i64),
    ActualPowerDelivered(Decimal),
    ActualPowerReceived(Decimal),
    PowerFailures(u32),
    PowerFailuresLong(u32),
    PowerFailureLog(Vec<String>),
    VoltageSags(u8, u16),
    VoltageSwells(u8, u16),
    TextMessage(String),
    InstantVoltage(u8, Decimal),
    InstantCurrent(u8, Decimal),
    InstantPowerDelivered(u8, Decimal),
    InstantPowerReceived(u8, Decimal),
    GasEquipmentDeviceType(u8, u8),
    GasEquipmentIdentifier(u8, String),
    GasDelivered(u8, String, Decimal),
}

/// The mathematical shape of an [`Attribute`]: the same variants over
/// character sequences.
pub enum AttrModel {
    Header(Seq<char>),
    Version(Seq<char>),
    Timestamp(Seq<char>),
    EquipmentIdentifier(Seq<char>),
    ElectricityDelivered(u8, Decimal),
    ElectricityReceived(u8, Decimal),
    TariffIndicator(i64),
    ActualPowerDelivered(Decimal),
    ActualPowerReceived(Decimal),
    PowerFailures(u32),
    PowerFailuresLong(u32),
    PowerFailureLog(Seq<Seq<char>>),
    VoltageSags(u8, u16),
    VoltageSwells(u8, u16),
    TextMessage(Seq<char>),
    InstantVoltage(u8, Decimal),
    InstantCurrent(u8, Decimal),
    InstantPowerDelivered(u8, Decimal),
    InstantPowerReceived(u8, Decimal),
    GasEquipmentDeviceType(u8, u8),
    GasEquipmentIdentifier(u8, Seq<char>),
    GasDelivered(u8, Seq<char>, Decimal),
}

impl DeepView for Attribute {
    type V = AttrModel;

    open spec fn deep_view(&self) -> AttrModel {
        match self {
            Attribute::Header(s) => AttrModel::Header(s@),
            Attribute::Version(s) => AttrModel::Version(s@),
            Attribute::Timestamp(s) => AttrModel::Timestamp(s@),
            Attribute::EquipmentIdentifier(s) => AttrModel::EquipmentIdentifier(s@),
            Attribute::ElectricityDelivered(t, d) => AttrModel::ElectricityDelivered(*t, *d),
            Attribute::ElectricityReceived(t, d) => AttrModel::ElectricityReceived(*t, *d),
            Attribute::TariffIndicator(t) => AttrModel::TariffIndicator(*t),
            Attribute::ActualPowerDelivered(d) => AttrModel::ActualPowerDelivered(*d),
            Attribute::ActualPowerReceived(d) => AttrModel::ActualPowerReceived(*d),
            Attribute::PowerFailures(n) => AttrModel::PowerFailures(*n),
            Attribute::PowerFailuresLong(n) => AttrModel::PowerFailuresLong(*n),
            Attribute::PowerFailureLog(l) => AttrModel::PowerFailureLog(l.deep_view()),
            Attribute::VoltageSags(p, n) => AttrModel::VoltageSags(*p, *n),
            Attribute::VoltageSwells(p, n) => AttrModel::VoltageSwells(*p, *n),
            Attribute::TextMessage(s) => AttrModel::TextMessage(s@),
            Attribute::InstantVoltage(p, d) => AttrModel::InstantVoltage(*p, *d),
            Attribute::InstantCurrent(p, d) => AttrModel::InstantCurrent(*p, *d),
            Attribute::InstantPowerDelivered(p, d) => AttrModel::InstantPowerDelivered(*p, *d),
            Attribute::InstantPowerReceived(p, d) => AttrModel::InstantPowerReceived(*p, *d),
            Attribute::GasEquipmentDeviceType(c, t) => AttrModel::GasEquipmentDeviceType(*c, *t),
            Attribute::GasEquipmentIdentifier(c, s) => AttrModel::GasEquipmentIdentifier(*c, s@),
            Attribute::GasDelivered(c, ts, d) => AttrModel::GasDelivered(*c, ts@, *d),
        }
    }
}

/// A decode result reduced to its mathematical shape.
pub open spec fn result_model(r: Result<Attribute, DecodeError>) -> Result<AttrModel, ErrorModel> {
    match r {
        Ok(a) => Ok(a.deep_view()),
        Err(e) => Err(e.deep_view()),
    }
}

/// What decoding a raw group as plain UTF-8 text yields.
pub open spec fn spec_text(g: Seq<u8>) -> Result<Seq<char>, ErrorModel> {
    if valid_utf8(g) {
        Ok(decode_utf8(g))
    } else {
        Err(ErrorModel::InvalidUtf8 { bytes: g })
    }
}

/// What decoding a raw group as hex-encoded UTF-8 text yields.
pub open spec fn spec_hex_text(g: Seq<u8>) -> Result<Seq<char>, ErrorModel> {
    if g.len() % 2 != 0 {
        Err(ErrorModel::OddHexLength { text: g })
    } else if !all_hex_digits(g) {
        Err(ErrorModel::BadHexDigit { text: g })
    } else if !valid_utf8(hex_decode(g)) {
        Err(ErrorModel::InvalidUtf8 { bytes: hex_decode(g) })
    } else {
        Ok(decode_utf8(hex_decode(g)))
    }
}

/// What decoding a raw group as a number-with-unit yields: the part before
/// the first `*` as a decimal, the part after it resolved against the unit
/// enumeration and then discarded.
pub open spec fn spec_num_unit(g: Seq<u8>) -> Result<Decimal, ErrorModel> {
    match find_first(g, 42) {
        None => Err(ErrorModel::MissingUnitSeparator { text: g }),
        Some(i) => {
            let num = g.take(i);
            let unit = g.skip(i + 1);
            if !decimal_ok(num) {
                Err(ErrorModel::BadNumber { text: num })
            } else if unit_of(unit) is None {
                Err(ErrorModel::UnknownUnit { text: unit })
            } else {
                Ok(decimal_of(num))
            }
        },
    }
}

/// What decoding a raw group as an unsigned integer of at most `max` yields.
pub open spec fn spec_uint(g: Seq<u8>, max: nat) -> Result<nat, ErrorModel> {
    if is_dec_digits(g) && dec_value(g) <= max {
        Ok(dec_value(g))
    } else {
        Err(ErrorModel::BadNumber { text: g })
    }
}

/// What keeping a whole group list verbatim as text yields: every group as
/// UTF-8 text, or the first conversion failure.
pub open spec fn spec_texts(gs: Seq<Seq<u8>>) -> Result<Seq<Seq<char>>, ErrorModel>
    decreases gs.len(),
{
    if gs.len() == 0 {
        Ok(Seq::<Seq<char>>::empty())
    } else {
        match spec_text(gs[0]) {
            Err(e) => Err(e),
            Ok(s) => match spec_texts(gs.drop_first()) {
                Err(e) => Err(e),
                Ok(rest) => Ok(seq![s] + rest),
            },
        }
    }
}

impl Attribute {
    /// Decodes a raw group as plain UTF-8 text.
    pub fn text_value(g: &[u8]) -> (r: Result<String, DecodeError>)
        ensures
            r matches Ok(s) ==> spec_text(g@) == Ok::<Seq<char>, ErrorModel>(s@),
            r matches Err(e) ==> spec_text(g@) == Err::<Seq<char>, ErrorModel>(e.deep_view()),
    {
        match utf8_string(slice_to_vec(g)) {
            Some(s) => Ok(s),
            None => Err(DecodeError::InvalidUtf8 { bytes: slice_to_vec(g) }),
        }
    }

    /// Decodes a raw group of two-digit hexadecimal byte groups into text.
    pub fn parse_hex(g: &[u8]) -> (r: Result<String, DecodeError>)
        ensures
            r matches Ok(s) ==> spec_hex_text(g@) == Ok::<Seq<char>, ErrorModel>(s@),
            r matches Err(e) ==> spec_hex_text(g@) == Err::<Seq<char>, ErrorModel>(e.deep_view()),
    {
        let bytes = match hex_decode_bytes(g) {
            Ok(b) => b,
            Err(e) => {
                return Err(e);
            },
        };
        let copy = slice_to_vec(bytes.as_slice());
        match utf8_string(bytes) {
            Some(s) => Ok(s),
            None => Err(DecodeError::InvalidUtf8 { bytes: copy }),
        }
    }

    /// Decodes a raw group as a decimal number tagged with a unit: the unit
    /// is validated against the fixed enumeration and then discarded.
    pub fn parse_num_unit(g: &[u8]) -> (r: Result<Decimal, DecodeError>)
        ensures
            r matches Ok(d) ==> spec_num_unit(g@) == Ok::<Decimal, ErrorModel>(d),
            r matches Err(e) ==> spec_num_unit(g@) == Err::<Decimal, ErrorModel>(e.deep_view()),
    {
        let i = match find_byte(g, 42) {
            Some(i) => i,
            None => {
                return Err(DecodeError::MissingUnitSeparator { text: slice_to_vec(g) });
            },
        };
        let n = g.len();
        proof {
            lemma_find_first(g@, 42);
            assert(i < n);
        }
        let num = vstd::slice::slice_subrange(g, 0, i);
        let unit = vstd::slice::slice_subrange(g, i + 1, n);
        let d = match parse_decimal(num) {
            Ok(d) => d,
            Err(e) => {
                return Err(e);
            },
        };
        match Unit::parse(unit) {
            Ok(_) => Ok(d),
            Err(e) => Err(e),
        }
    }

    /// Decodes a raw group as an unsigned integer no larger than `max`.
    pub fn parse_num(g: &[u8], max: u64) -> (r: Result<u64, DecodeError>)
        ensures
            r matches Ok(v) ==> spec_uint(g@, max as nat) == Ok::<nat, ErrorModel>(v as nat),
            r matches Err(e) ==> spec_uint(g@, max as nat) == Err::<nat, ErrorModel>(
                e.deep_view(),
            ),
    {
        match parse_u64(g) {
            Some(v) => {
                if v <= max {
                    Ok(v)
                } else {
                    Err(DecodeError::BadNumber { text: slice_to_vec(g) })
                }
            },
            None => {
                proof {
                    if is_dec_digits(g@) && dec_value(g@) > u64::MAX {
                        assert(dec_value(g@) > max as nat);
                    }
                }
                Err(DecodeError::BadNumber { text: slice_to_vec(g) })
            },
        }
    }
}

} // verus!
