//! The ICMP-echo probe backend's verified core.
//!
//! The backend owns a wrapping sequence counter and turns the outcome
//! of one echo exchange into a probe result. The echo exchange itself
//! (socket, identifier, round-trip timing) happens in the surrounding
//! program, which draws a sequence number here first and hands the
//! outcome back to [`PingUup::complete_check`].
use crate::context::UupCheckResult;
use crate::context::UupCheckResultContext;
use vstd::prelude::*;
use vstd::string::*;

verus! {

/// The counter value after one draw: one higher, wrapping to zero past
/// the largest sixteen-bit value.
pub open spec fn next_sequence(s: u16) -> u16 {
    if s < u16::MAX {
        (s + 1) as u16
    } else {
        0
    }
}

/// The value a counter that started at `start` holds after `i` draws,
/// for `i` up to one full revolution: `start + i` reduced once past the
/// largest sixteen-bit value.
pub open spec fn nth_sequence(start: u16, i: int) -> u16 {
    if start + i <= u16::MAX {
        (start + i) as u16
    } else {
        (start + i - 0x10000) as u16
    }
}

/// Drawing once more advances the counter along `nth_sequence`.
pub proof fn lemma_next_sequence_iterates(start: u16, i: int)
    requires
        0 <= i < 0x10000,
    ensures
        nth_sequence(start, i + 1) == next_sequence(nth_sequence(start, i)),
{
}

/// Sequence numbers drawn from one counter are pairwise distinct until
/// the counter has gone a full revolution: any two of the first 0x10000
/// draws from the same starting state differ. Together with the mutual
/// exclusion the caller puts around each draw, concurrent checks on one
/// backend instance therefore never observe the same value twice.
pub proof fn lemma_sequence_numbers_distinct(start: u16, i: int, j: int)
    requires
        0 <= i < j < 0x10000,
    ensures
        nth_sequence(start, i) != nth_sequence(start, j),
{
}

/// What one probe attempt needs before the echo request goes out: the
/// sequence number this attempt carries, and the warning owed when the
/// caller supplied a port, which the ping backend has no use for.
pub struct CheckPrep {
    /// Sequence number drawn for this attempt.
    pub sequence_number: u16,
    /// The non-fatal warning to emit, present exactly when a port was
    /// supplied; the port itself is ignored.
    pub port_warning: Option<String>,
}

/// The ICMP-echo probe backend: holds the sequence counter shared by
/// all checks on one backend instance.
pub struct PingUup {
    seq_cnt: u16,
}

impl PingUup {
    /// The counter's current value.
    pub closed spec fn spec_seq(self) -> u16 {
        self.seq_cnt
    }

    /// A fresh backend; its first attempt carries sequence number zero.
    pub fn new() -> (s: Self)
        ensures
            s.spec_seq() == 0,
    {
        PingUup { seq_cnt: 0 }
    }

    /// The read-then-increment pair that opens a check: draws the
    /// current counter value as this attempt's sequence number and
    /// advances the counter. A supplied port yields the warning and is
    /// otherwise ignored; it never makes the check fail.
    pub fn prepare_check(&mut self, port: Option<u16>) -> (prep: CheckPrep)
        ensures
            prep.sequence_number == old(self).spec_seq(),
            final(self).spec_seq() == next_sequence(old(self).spec_seq()),
            prep.port_warning is Some <==> port is Some,
            match prep.port_warning {
                Some(w) => w@ == "WARNING: Ignoring port assignment; not supported for ping"@,
                None => true,
            },
    {
        let sequence_number = self.seq_cnt;
        self.seq_cnt = if self.seq_cnt < u16::MAX {
            self.seq_cnt + 1
        } else {
            0
        };
        let port_warning = match port {
            Some(_) => Some(
                String::from_str("WARNING: Ignoring port assignment; not supported for ping"),
            ),
            None => None,
        };
        CheckPrep { sequence_number, port_warning }
    }

    /// Closes a check from the echo exchange's outcome: a round-trip
    /// time rendering when a matching reply arrived within the timeout,
    /// nothing when none did. No reply is a normal "down" result, never
    /// an error; the payload's duration falls back to the sentinel "-1"
    /// and its unit is always "s". The result's overall flag honours
    /// the attempt's real outcome and so always equals the payload's
    /// `up` field.
    pub fn complete_check(
        round_trip: Option<String>,
        sequence_number: u16,
        address: String,
    ) -> (r: UupCheckResult)
        ensures
            r.up == (round_trip is Some),
            r.context.up == r.up,
            r.context.duration@ == match round_trip {
                Some(d) => d@,
                None => "-1"@,
            },
            r.context.unit@ == "s"@,
            r.context.sequence_number == sequence_number,
            r.context.address@ == address@,
    {
        let up: bool;
        let duration: String;
        match round_trip {
            Some(d) => {
                up = true;
                duration = d;
            },
            None => {
                up = false;
                duration = String::from_str("-1");
            },
        }
        UupCheckResult {
            up,
            context: build_result_context(up, duration, sequence_number, address),
        }
    }
}

/// Builds the detail payload of one ping attempt; the unit is always
/// seconds.
pub fn build_result_context(
    up: bool,
    duration: String,
    sequence_number: u16,
    address: String,
) -> (c: UupCheckResultContext)
    ensures
        c.up == up,
        c.duration@ == duration@,
        c.unit@ == "s"@,
        c.sequence_number == sequence_number,
        c.address@ == address@,
{
    UupCheckResultContext::new(up, duration, String::from_str("s"), sequence_number, address)
}

} // verus!
