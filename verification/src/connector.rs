//! Pieces of the exchange interface that the stream layer shares with
//! connectors: candle intervals, conversions, client order ids.

use vstd::prelude::*;
use vstd::string::*;
use crate::clock::unix_millis;
use crate::decimal::{append_unsigned, digits_of};

verus! {

/// Length of a candle.
#[derive(Debug, Clone, Copy, PartialEq, Eq, Structural)]
pub enum KlineInterval {
    OneSecond,
    OneMinute,
    ThreeMinutes,
    FiveMinutes,
    FifteenMinutes,
    ThirtyMinutes,
    OneHour,
    TwoHours,
    FourHours,
    SixHours,
    EightHours,
    TwelveHours,
    OneDay,
    ThreeDays,
    OneWeek,
    OneMonth,
}

/// How an interval is written on the wire.
pub open spec fn interval_text(interval: KlineInterval) -> Seq<char> {
    match interval {
        KlineInterval::OneSecond => "1s"@,
        KlineInterval::OneMinute => "1m"@,
        KlineInterval::ThreeMinutes => "3m"@,
        KlineInterval::FiveMinutes => "5m"@,
        KlineInterval::FifteenMinutes => "15m"@,
        KlineInterval::ThirtyMinutes => "30m"@,
        KlineInterval::OneHour => "1h"@,
        KlineInterval::TwoHours => "2h"@,
        KlineInterval::FourHours => "4h"@,
        KlineInterval::SixHours => "6h"@,
        KlineInterval::EightHours => "8h"@,
        KlineInterval::TwelveHours => "12h"@,
        KlineInterval::OneDay => "1d"@,
        KlineInterval::ThreeDays => "3d"@,
        KlineInterval::OneWeek => "1w"@,
        KlineInterval::OneMonth => "1M"@,
    }
}

impl KlineInterval {
    pub fn as_str(&self) -> (text: &'static str)
        ensures
            text@ == interval_text(*self),
    {
        match self {
            KlineInterval::OneSecond => "1s",
            KlineInterval::OneMinute => "1m",
            KlineInterval::ThreeMinutes => "3m",
            KlineInterval::FiveMinutes => "5m",
            KlineInterval::FifteenMinutes => "15m",
            KlineInterval::ThirtyMinutes => "30m",
            KlineInterval::OneHour => "1h",
            KlineInterval::TwoHours => "2h",
            KlineInterval::FourHours => "4h",
            KlineInterval::SixHours => "6h",
            KlineInterval::EightHours => "8h",
            KlineInterval::TwelveHours => "12h",
            KlineInterval::OneDay => "1d",
            KlineInterval::ThreeDays => "3d",
            KlineInterval::OneWeek => "1w",
            KlineInterval::OneMonth => "1M",
        }
    }

    /// The interval in seconds; a month counts thirty days.
    pub fn seconds(&self) -> (seconds: u64)
        ensures
            seconds == (match *self {
                KlineInterval::OneSecond => 1u64,
                KlineInterval::OneMinute => 60,
                KlineInterval::ThreeMinutes => 180,
                KlineInterval::FiveMinutes => 300,
                KlineInterval::FifteenMinutes => 900,
                KlineInterval::ThirtyMinutes => 1_800,
                KlineInterval::OneHour => 3_600,
                KlineInterval::TwoHours => 7_200,
                KlineInterval::FourHours => 14_400,
                KlineInterval::SixHours => 21_600,
                KlineInterval::EightHours => 28_800,
                KlineInterval::TwelveHours => 43_200,
                KlineInterval::OneDay => 86_400,
                KlineInterval::ThreeDays => 259_200,
                KlineInterval::OneWeek => 604_800,
                KlineInterval::OneMonth => 2_592_000,
            }),
    {
        match self {
            KlineInterval::OneSecond => 1,
            KlineInterval::OneMinute => 60,
            KlineInterval::ThreeMinutes => 180,
            KlineInterval::FiveMinutes => 300,
            KlineInterval::FifteenMinutes => 900,
            KlineInterval::ThirtyMinutes => 1_800,
            KlineInterval::OneHour => 3_600,
            KlineInterval::TwoHours => 7_200,
            KlineInterval::FourHours => 14_400,
            KlineInterval::SixHours => 21_600,
            KlineInterval::EightHours => 28_800,
            KlineInterval::TwelveHours => 43_200,
            KlineInterval::OneDay => 86_400,
            KlineInterval::ThreeDays => 259_200,
            KlineInterval::OneWeek => 604_800,
            KlineInterval::OneMonth => 2_592_000,
        }
    }
}

/// Conversion of an exchange's own form of a datum into the universal form.
pub trait ToUniversal<T> {
    fn to_universal(&self) -> T;
}

/// Conversion of the universal form of a datum into an exchange's own form.
pub trait FromUniversal<T>: Sized {
    fn from_universal(universal: &T) -> Self;
}

/// The client order id for an order made at `millis` milliseconds since the
/// epoch: `co_` and the digits of `millis`.
pub open spec fn client_order_id(millis: u64) -> Seq<char> {
    "co_"@ + digits_of(millis as nat)
}

/// The client order id for an order made at the given time.
pub fn client_order_id_at(millis: u64) -> (id: String)
    ensures
        id@ == client_order_id(millis),
{
    let mut id = String::from_str("co_");
    append_unsigned(&mut id, millis);
    id
}

/// A client order id from the wall clock.
pub fn generate_client_order_id() -> (id: String)
    ensures
        exists|millis: u64| id@ == #[trigger] client_order_id(millis),
{
    client_order_id_at(unix_millis())
}

} // verus!
