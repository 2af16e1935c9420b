//! The market stream of one pair: where it connects, how long it waits
//! before it connects again, and what it makes of a candle message.

use vstd::prelude::*;
use vstd::string::StringExecFns;
use crate::clock::{in_calendar, is_in_calendar, now_millis};
use crate::error::Error;
use crate::notation::{decimal_of, parse_decimal};
use crate::types::MarketEvent;

verus! {

/// The wait before the first reconnection, in seconds.
pub const INITIAL_BACKOFF_SECS: u64 = 1;

/// The longest wait before a reconnection, in seconds.
pub const MAX_BACKOFF_SECS: u64 = 60;

/// The wait after a session that the exchange closed cleanly, in seconds.
pub const CLEAN_CLOSE_PAUSE_SECS: u64 = 1;

/// How a streaming session ended.
#[derive(Debug, Clone, Copy, PartialEq, Eq, Structural)]
pub enum SessionEnd {
    /// The exchange closed the session.
    Clean,
    /// The transport failed.
    Failed,
}

/// The wait before the next session.
pub open spec fn pause_after(backoff: u64, end: SessionEnd) -> u64 {
    match end {
        SessionEnd::Clean => CLEAN_CLOSE_PAUSE_SECS,
        SessionEnd::Failed => backoff,
    }
}

/// The backoff after a session: back to the start after a clean close,
/// doubled up to the cap after a failure.
pub open spec fn backoff_after(backoff: u64, end: SessionEnd) -> u64 {
    match end {
        SessionEnd::Clean => INITIAL_BACKOFF_SECS,
        SessionEnd::Failed => if 2 * backoff > MAX_BACKOFF_SECS {
            MAX_BACKOFF_SECS
        } else {
            (2 * backoff) as u64
        },
    }
}

/// The backoff after `failures` failed sessions in a row since the start or
/// the last clean close.
pub open spec fn backoff_after_failures(failures: nat) -> u64
    decreases failures,
{
    if failures == 0 {
        INITIAL_BACKOFF_SECS
    } else {
        backoff_after(backoff_after_failures((failures - 1) as nat), SessionEnd::Failed)
    }
}

/// Two to the power `k`.
pub open spec fn doubling(k: nat) -> int
    decreases k,
{
    if k == 0 {
        1
    } else {
        2 * doubling((k - 1) as nat)
    }
}

/// The backoff doubles from one second with each failure in a row and stays
/// at the cap of sixty seconds once it has reached it.
pub proof fn lemma_backoff_doubles_to_the_cap(failures: nat)
    ensures
        INITIAL_BACKOFF_SECS <= backoff_after_failures(failures) <= MAX_BACKOFF_SECS,
        backoff_after_failures(failures) == if doubling(failures) > MAX_BACKOFF_SECS {
            MAX_BACKOFF_SECS as int
        } else {
            doubling(failures)
        },
        doubling(failures) >= 1,
    decreases failures,
{
    if failures > 0 {
        lemma_backoff_doubles_to_the_cap((failures - 1) as nat);
    }
}

/// A text in lower case: the name for the result of `str::to_lowercase`.
pub uninterp spec fn lowercase_of(s: Seq<char>) -> Seq<char>;

/// `text` in lower case, by `str::to_lowercase` of the standard library.
/// Trusted: the result depends on the text alone.
#[verifier::external_body]
pub(crate) fn lowercase(text: &str) -> (lower: String)
    ensures
        lower@ == lowercase_of(text@),
{
    text.to_lowercase()
}

/// The address of the one-minute candle stream of `pair`.
pub open spec fn stream_address(pair: Seq<char>) -> Seq<char> {
    "wss://stream.binance.com:9443/ws/"@ + lowercase_of(pair) + "@kline_1m"@
}

/// The candle record of a stream message, numbers in writing as the exchange
/// sends them. Times are milliseconds since the epoch.
#[derive(Debug)]
pub struct Kline {
    pub open: String,
    pub high: String,
    pub low: String,
    pub close: String,
    pub volume: String,
    pub is_closed: bool,
    pub close_time_ms: i64,
}

/// A decoded stream message: the tag that tells its kind, where it has one,
/// and its candle record or the reason why it holds none.
#[derive(Debug)]
pub struct StreamFrame {
    pub event_type: Option<String>,
    pub kline: Result<Kline, String>,
}

/// What the stream does with one message.
#[derive(Debug)]
pub enum StreamStep {
    /// Publish the event on the fan-out.
    Publish(MarketEvent),
    /// No candle message: skip it.
    Skip,
    /// A candle message that cannot be read: log the error, skip it, and go
    /// on with the session.
    Warn(Error),
}

/// The decimal that `text` denotes, zero where it denotes none.
pub open spec fn decimal_or_zero(text: Seq<char>) -> i64 {
    match decimal_of(text) {
        Some(v) => v,
        None => 0,
    }
}

/// The time of an event whose candle closes at `close_time_ms`: that time
/// where the calendar holds it, else the time at which it was received.
pub open spec fn event_time(close_time_ms: i64, now: i64) -> i64 {
    if in_calendar(close_time_ms) {
        close_time_ms
    } else {
        now
    }
}

/// `event` is the event that the candle record `kline` gives for `pair`.
pub open spec fn event_of(event: MarketEvent, pair: Seq<char>, kline: Kline, now: i64) -> bool {
    &&& event.pair@ == pair
    &&& event.price == decimal_or_zero(kline.close@)
    &&& event.open == decimal_or_zero(kline.open@)
    &&& event.high == decimal_or_zero(kline.high@)
    &&& event.low == decimal_or_zero(kline.low@)
    &&& event.volume == decimal_or_zero(kline.volume@)
    &&& event.is_candle_closed == kline.is_closed
    &&& event.timestamp == event_time(kline.close_time_ms, now)
}

/// Whether the frame is tagged as a candle message.
pub open spec fn is_kline(frame: StreamFrame) -> bool {
    frame.event_type matches Some(tag) && tag@ == "kline"@
}

fn amount(text: &String) -> (v: i64)
    ensures
        v == decimal_or_zero(text@),
{
    match parse_decimal(text.as_str()) {
        Some(v) => v,
        None => 0,
    }
}

/// The market event for a candle record received at time `now`. A number
/// that cannot be read counts as zero.
pub fn kline_event_at(pair: &str, kline: &Kline, now: i64) -> (event: MarketEvent)
    ensures
        event_of(event, pair@, *kline, now),
{
    let timestamp = if is_in_calendar(kline.close_time_ms) {
        kline.close_time_ms
    } else {
        now
    };
    MarketEvent {
        pair: pair.to_owned(),
        price: amount(&kline.close),
        open: amount(&kline.open),
        high: amount(&kline.high),
        low: amount(&kline.low),
        volume: amount(&kline.volume),
        is_candle_closed: kline.is_closed,
        timestamp,
    }
}

/// What a decoded message means at time `now`: nothing unless it is tagged
/// as a candle message, an error where its candle record could not be
/// decoded, else the event of the record.
pub fn parse_kline_event_at(pair: &str, frame: &StreamFrame, now: i64) -> (r: Result<Option<MarketEvent>, Error>)
    ensures
        !is_kline(*frame) ==> r matches Ok(None),
        is_kline(*frame) ==> match frame.kline {
            Ok(kline) => r matches Ok(Some(event)) && event_of(event, pair@, kline, now),
            Err(reason) => r matches Err(Error::Json(message)) && message@ == reason@,
        },
{
    let tagged = match &frame.event_type {
        Some(tag) => *tag == "kline".to_owned(),
        None => false,
    };
    if !tagged {
        return Ok(None);
    }
    match &frame.kline {
        Ok(kline) => Ok(Some(kline_event_at(pair, kline, now))),
        Err(reason) => Err(Error::Json(reason.clone())),
    }
}

/// What a decoded message means, received now. The event carries the
/// candle's close time wherever the calendar holds that time.
pub fn parse_kline_event(pair: &str, frame: &StreamFrame) -> (r: Result<Option<MarketEvent>, Error>)
    ensures
        !is_kline(*frame) ==> r matches Ok(None),
        is_kline(*frame) ==> match frame.kline {
            Ok(kline) => r matches Ok(Some(event)) && event_of(event, pair@, kline, event.timestamp),
            Err(reason) => r matches Err(Error::Json(message)) && message@ == reason@,
        },
{
    parse_kline_event_at(pair, frame, now_millis())
}

/// The market stream of one pair, with its current backoff in seconds.
#[derive(Debug)]
pub struct BinanceStream {
    pub pair: String,
    pub backoff_secs: u64,
}

impl BinanceStream {
    /// The stream of `pair`, at the initial backoff.
    pub fn new(pair: &str) -> (s: Self)
        ensures
            s.pair@ == pair@,
            s.backoff_secs == INITIAL_BACKOFF_SECS,
    {
        BinanceStream { pair: pair.to_owned(), backoff_secs: INITIAL_BACKOFF_SECS }
    }

    /// The address to connect to.
    pub fn url(&self) -> (address: String)
        ensures
            address@ == stream_address(self.pair@),
    {
        let lower = lowercase(self.pair.as_str());
        "wss://stream.binance.com:9443/ws/".to_owned().concat(lower.as_str()).concat("@kline_1m")
    }

    /// The end of a session: the seconds to wait before the next one, and
    /// the new backoff.
    pub fn on_session_end(&mut self, end: SessionEnd) -> (pause: u64)
        ensures
            pause == pause_after(old(self).backoff_secs, end),
            final(self).backoff_secs == backoff_after(old(self).backoff_secs, end),
            final(self).pair == old(self).pair,
    {
        match end {
            SessionEnd::Clean => {
                self.backoff_secs = INITIAL_BACKOFF_SECS;
                CLEAN_CLOSE_PAUSE_SECS
            },
            SessionEnd::Failed => {
                let pause = self.backoff_secs;
                self.backoff_secs = if pause > MAX_BACKOFF_SECS / 2 {
                    MAX_BACKOFF_SECS
                } else {
                    2 * pause
                };
                pause
            },
        }
    }

    /// One text message of a session: an event to publish, a message to
    /// skip, or an error to log before going on.
    pub fn on_text(&self, frame: &StreamFrame) -> (step: StreamStep)
        ensures
            !is_kline(*frame) ==> step is Skip,
            is_kline(*frame) ==> match frame.kline {
                Ok(kline) => step matches StreamStep::Publish(event) && event_of(
                    event,
                    self.pair@,
                    kline,
                    event.timestamp,
                ),
                Err(reason) => step matches StreamStep::Warn(Error::Json(message)) && message@
                    == reason@,
            },
    {
        match parse_kline_event(self.pair.as_str(), frame) {
            Ok(Some(event)) => StreamStep::Publish(event),
            Ok(None) => StreamStep::Skip,
            Err(error) => StreamStep::Warn(error),
        }
    }
}

} // verus!
