use vstd::prelude::*;

verus! {

/// Earliest non-leap millisecond timestamp that `chrono` can represent as a
/// `DateTime<Utc>` (midnight, January 1 of year -262143).
pub const MIN_TIMESTAMP_MILLIS: i64 = -8_334_601_228_800_000;

/// Latest non-leap millisecond timestamp that `chrono` can represent as a
/// `DateTime<Utc>` (last millisecond of December 31 of year 262142).
pub const MAX_TIMESTAMP_MILLIS: i64 = 8_210_266_876_799_999;

/// The millisecond timestamps that round-trip through the time library.
pub open spec fn timestamp_millis_in_range(ms: int) -> bool {
    MIN_TIMESTAMP_MILLIS <= ms <= MAX_TIMESTAMP_MILLIS
}

/// A point in time, kept as non-leap milliseconds since the Unix epoch (UTC).
/// Formatting and timezone conversion are presentation concerns and live with
/// the caller; ordering and wire timestamps only need the milliseconds.
#[derive(Clone, Copy, Debug, PartialEq, Eq, Structural)]
pub struct DTChatTime {
    pub millis: i64,
}

impl View for DTChatTime {
    type V = int;

    open spec fn view(&self) -> int {
        self.millis as int
    }
}

impl DeepView for DTChatTime {
    type V = int;

    open spec fn deep_view(&self) -> int {
        self.view()
    }
}

/// Relies on chrono::Utc::now and DateTime::timestamp_millis: the current
/// instant's non-leap milliseconds since the Unix epoch, always within the
/// range that chrono itself can represent.
#[verifier::external_body]
fn now_millis() -> (r: i64)
    ensures
        timestamp_millis_in_range(r as int),
{
    chrono::Utc::now().timestamp_millis()
}

/// Relies on chrono::DateTime::<Utc>::from_timestamp_millis: it returns
/// `Some` exactly on the milliseconds within chrono's representable range.
#[verifier::external_body]
fn chrono_accepts_millis(ms: i64) -> (r: bool)
    ensures
        r == timestamp_millis_in_range(ms as int),
{
    chrono::DateTime::<chrono::Utc>::from_timestamp_millis(ms).is_some()
}

impl DTChatTime {
    /// The current instant.
    pub fn now() -> (r: Self)
        ensures
            timestamp_millis_in_range(r@),
    {
        DTChatTime { millis: now_millis() }
    }

    /// Milliseconds since the Unix epoch.
    pub fn timestamp_millis(&self) -> (r: i64)
        ensures
            r as int == self@,
    {
        self.millis
    }

    /// Accepts exactly the timestamps that the time library can represent,
    /// so that a wire timestamp rejected here is rejected on every peer.
    pub fn from_timestamp_millis(timestamp: i64) -> (r: Option<Self>)
        ensures
            r is Some <==> timestamp_millis_in_range(timestamp as int),
            r matches Some(t) ==> t@ == timestamp as int,
    {
        if chrono_accepts_millis(timestamp) {
            Some(DTChatTime { millis: timestamp })
        } else {
            None
        }
    }

    /// Total order by instant.
    pub fn cmp(&self, other: &Self) -> (r: core::cmp::Ordering)
        ensures
            r == core::cmp::Ordering::Less <==> self@ < other@,
            r == core::cmp::Ordering::Greater <==> self@ > other@,
            r == core::cmp::Ordering::Equal <==> self@ == other@,
    {
        if self.millis < other.millis {
            core::cmp::Ordering::Less
        } else if self.millis > other.millis {
            core::cmp::Ordering::Greater
        } else {
            core::cmp::Ordering::Equal
        }
    }
}

} // verus!
