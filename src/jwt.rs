use vstd::prelude::*;

verus! {

/// How long a session lasts, in seconds: a day.
pub const SESSION_SECONDS: usize = 86400;

/// Seconds since the Unix epoch below which every clock reading lies.
pub const CLOCK_LIMIT: i64 = 10_000_000_000_000;

/// What a session token states: who holds it, when it was issued and when it
/// expires, both in seconds since the Unix epoch.
#[derive(Clone, Debug)]
pub struct Claims {
    pub exp: usize,
    pub iat: usize,
    pub email: String,
    pub id: i32,
}

/// Relies on std's `SystemTime::now` and `duration_since(UNIX_EPOCH)`, and on
/// chrono's `DateTime::from_timestamp` and `DateTime::timestamp`: the current
/// time in whole seconds since the Unix epoch. `None` where the clock reads
/// before the epoch, or past the last date chrono can build (the year
/// 262143, about 8.3e12 seconds), so a reading that comes back lies in
/// `0..CLOCK_LIMIT`.
#[verifier::external_body]
fn unix_now() -> (r: Option<i64>)
    ensures
        r matches Some(t) ==> 0 <= t < CLOCK_LIMIT,
{
    let since = std::time::SystemTime::now().duration_since(std::time::UNIX_EPOCH).ok()?;
    let secs = i64::try_from(since.as_secs()).ok()?;
    let at = chrono::DateTime::from_timestamp(secs, since.subsec_nanos())?;
    Some(at.timestamp())
}

impl Claims {
    /// The claims of a session opened at `now` by user `id`: it expires
    /// `SESSION_SECONDS` later.
    pub fn issued_at(email: String, id: i32, now: usize) -> (r: Claims)
        requires
            now + SESSION_SECONDS <= usize::MAX,
        ensures
            r.iat == now,
            r.exp == now + SESSION_SECONDS,
            r.email@ == email@,
            r.id == id,
    {
        Claims { exp: now + SESSION_SECONDS, iat: now, email, id }
    }

    /// The claims of a session opened at clock reading `reading`, in seconds
    /// since the Unix epoch. `None` where the reading is negative or its
    /// expiry does not fit in `usize`.
    pub fn from_reading(email: String, id: i32, reading: i64) -> (r: Option<Claims>)
        ensures
            r is Some <==> 0 <= reading && reading + SESSION_SECONDS <= usize::MAX,
            r matches Some(c) ==> c.iat == reading && c.exp == reading + SESSION_SECONDS
                && c.email@ == email@ && c.id == id,
    {
        if reading < 0 {
            return None;
        }
        let secs = reading as u64;
        if secs <= usize::MAX as u64 - SESSION_SECONDS as u64 {
            Some(Claims::issued_at(email, id, secs as usize))
        } else {
            None
        }
    }

    /// The claims of a session opened now by user `id`. `None` where the
    /// clock gives no reading, or one whose expiry does not fit in `usize`.
    pub fn new_session(email: String, id: i32) -> (r: Option<Claims>)
        ensures
            r matches Some(c) ==> c.iat < CLOCK_LIMIT && c.exp == c.iat + SESSION_SECONDS
                && c.email@ == email@ && c.id == id,
    {
        match unix_now() {
            Some(now) => Claims::from_reading(email, id, now),
            None => None,
        }
    }
}

} // verus!
