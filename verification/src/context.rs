//! The per-attempt detail payload and its two renderings.
//!
//! A probe attempt produces a structured payload of plain fields; the
//! same fields feed both the flat JSON rendering and the human-readable
//! line, so the two can never disagree about the data.
use vstd::prelude::*;
use vstd::string::*;

verus! {

/// Decimal digit character for a value below ten.
pub open spec fn dec_digit(d: nat) -> char {
    if d == 0 {
        '0'
    } else if d == 1 {
        '1'
    } else if d == 2 {
        '2'
    } else if d == 3 {
        '3'
    } else if d == 4 {
        '4'
    } else if d == 5 {
        '5'
    } else if d == 6 {
        '6'
    } else if d == 7 {
        '7'
    } else if d == 8 {
        '8'
    } else {
        '9'
    }
}

/// Decimal rendering of a natural number, most significant digit first,
/// without leading zeroes (zero itself renders as "0").
pub open spec fn dec_rep(n: nat) -> Seq<char>
    decreases n,
{
    if n < 10 {
        seq![dec_digit(n)]
    } else {
        dec_rep(n / 10) + seq![dec_digit(n % 10)]
    }
}

/// Lower-case hexadecimal digit character for a value below sixteen.
pub open spec fn hex_digit(d: nat) -> char {
    if d < 10 {
        dec_digit(d)
    } else if d == 10 {
        'a'
    } else if d == 11 {
        'b'
    } else if d == 12 {
        'c'
    } else if d == 13 {
        'd'
    } else if d == 14 {
        'e'
    } else {
        'f'
    }
}

/// The characters written for `c` inside a JSON string literal: quote,
/// backslash and the named control characters get a two-character
/// escape, the remaining control characters a `\u00..` escape, and
/// every other character stands for itself.
pub open spec fn json_escaped_char(c: char) -> Seq<char> {
    if c == '"' {
        seq!['\\', '"']
    } else if c == '\\' {
        seq!['\\', '\\']
    } else if c == '\n' {
        seq!['\\', 'n']
    } else if c == '\r' {
        seq!['\\', 'r']
    } else if c == '\t' {
        seq!['\\', 't']
    } else if (c as u32) < 32 {
        seq![
            '\\',
            'u',
            '0',
            '0',
            hex_digit((c as u32 / 16) as nat),
            hex_digit((c as u32 % 16) as nat),
        ]
    } else {
        seq![c]
    }
}

/// A whole character sequence escaped for use inside a JSON string
/// literal.
pub open spec fn json_escaped(s: Seq<char>) -> Seq<char>
    decreases s.len(),
{
    if s.len() == 0 {
        Seq::empty()
    } else {
        json_escaped(s.drop_last()) + json_escaped_char(s.last())
    }
}

fn digit_str(d: u16) -> (r: &'static str)
    requires
        d < 10,
    ensures
        r@ == seq![dec_digit(d as nat)],
{
    let r: &'static str = if d == 0 {
        "0"
    } else if d == 1 {
        "1"
    } else if d == 2 {
        "2"
    } else if d == 3 {
        "3"
    } else if d == 4 {
        "4"
    } else if d == 5 {
        "5"
    } else if d == 6 {
        "6"
    } else if d == 7 {
        "7"
    } else if d == 8 {
        "8"
    } else {
        "9"
    };
    proof {
        reveal_strlit("0");
        reveal_strlit("1");
        reveal_strlit("2");
        reveal_strlit("3");
        reveal_strlit("4");
        reveal_strlit("5");
        reveal_strlit("6");
        reveal_strlit("7");
        reveal_strlit("8");
        reveal_strlit("9");
        assert(r@ =~= seq![dec_digit(d as nat)]);
    }
    r
}

fn hex_digit_str(d: u32) -> (r: &'static str)
    requires
        d < 16,
    ensures
        r@ == seq![hex_digit(d as nat)],
{
    let r: &'static str = if d < 10 {
        digit_str(d as u16)
    } else if d == 10 {
        "a"
    } else if d == 11 {
        "b"
    } else if d == 12 {
        "c"
    } else if d == 13 {
        "d"
    } else if d == 14 {
        "e"
    } else {
        "f"
    };
    proof {
        reveal_strlit("a");
        reveal_strlit("b");
        reveal_strlit("c");
        reveal_strlit("d");
        reveal_strlit("e");
        reveal_strlit("f");
        assert(r@ =~= seq![hex_digit(d as nat)]);
    }
    r
}

/// Appends the decimal rendering of `n` to `out`.
pub fn append_decimal(out: &mut String, n: u16)
    ensures
        final(out)@ == old(out)@ + dec_rep(n as nat),
    decreases n,
{
    if n >= 10 {
        append_decimal(out, n / 10);
    }
    out.append(digit_str(n % 10));
    proof {
        assert(out@ =~= old(out)@ + dec_rep(n as nat));
    }
}

/// Appends `s` to `out`, escaped for use inside a JSON string literal.
pub fn append_json_escaped(out: &mut String, s: &str)
    ensures
        final(out)@ == old(out)@ + json_escaped(s@),
{
    let n = s.unicode_len();
    proof {
        assert(s@.take(0) =~= Seq::<char>::empty());
        assert(out@ =~= old(out)@ + json_escaped(s@.take(0)));
    }
    let mut i: usize = 0;
    while i < n
        invariant
            n == s@.len(),
            i <= n,
            out@ == old(out)@ + json_escaped(s@.take(i as int)),
        decreases n - i,
    {
        let c = s.get_char(i);
        if c == '"' {
            out.append("\\\"");
            proof {
                reveal_strlit("\\\"");
            }
        } else if c == '\\' {
            out.append("\\\\");
            proof {
                reveal_strlit("\\\\");
            }
        } else if c == '\n' {
            out.append("\\n");
            proof {
                reveal_strlit("\\n");
            }
        } else if c == '\r' {
            out.append("\\r");
            proof {
                reveal_strlit("\\r");
            }
        } else if c == '\t' {
            out.append("\\t");
            proof {
                reveal_strlit("\\t");
            }
        } else if (c as u32) < 32 {
            let code: u32 = c as u32;
            out.append("\\u00");
            out.append(hex_digit_str(code / 16));
            out.append(hex_digit_str(code % 16));
            proof {
                reveal_strlit("\\u00");
            }
        } else {
            let piece = s.substring_char(i, i + 1);
            out.append(piece);
        }
        proof {
            assert(s@.take(i + 1).drop_last() =~= s@.take(i as int));
            assert(s@.take(i + 1).last() == s@[i as int]);
            assert(out@ =~= old(out)@ + json_escaped(s@.take(i + 1)));
        }
        i = i + 1;
    }
    proof {
        assert(s@.take(n as int) =~= s@);
    }
}

/// Structured detail payload of one probe attempt.
///
/// Both renderings (`json_str`, `human_str`) read exactly these fields,
/// so the structured dump and the human line always present the same
/// data.
pub struct UupCheckResultContext {
    /// Liveness outcome of the attempt.
    pub up: bool,
    /// Decimal rendering of the observed round-trip time, as measured
    /// and formatted by the caller; the sentinel "-1" when the attempt
    /// timed out.
    pub duration: String,
    /// Unit in which `duration` is expressed.
    pub unit: String,
    /// Sequence number of the attempt.
    pub sequence_number: u16,
    /// Target address, rendered as text.
    pub address: String,
}

impl UupCheckResultContext {
    /// The structured rendering: one flat JSON object holding exactly
    /// the payload's fields, keys in alphabetical order. The `duration`
    /// field is spliced in verbatim as the value of the "duration" key,
    /// so the caller must supply a decimal number rendering there.
    pub open spec fn json_str(self) -> Seq<char> {
        "{\"address\":\""@ + json_escaped(self.address@) + "\",\"duration\":"@ + self.duration@
            + ",\"sequence_number\":"@ + dec_rep(self.sequence_number as nat) + ",\"unit\":\""@
            + json_escaped(self.unit@) + "\",\"up\":"@ + (if self.up {
            "true"@
        } else {
            "false"@
        }) + "}"@
    }

    /// The human rendering, reading the same fields as `json_str`.
    pub open spec fn human_str(self) -> Seq<char> {
        if self.up {
            "Ping "@ + self.address@ + " responded in "@ + self.duration@ + " "@ + self.unit@
                + " (sequence_number="@ + dec_rep(self.sequence_number as nat) + ")"@
        } else {
            "Ping "@ + self.address@ + " timed out (sequence_number="@ + dec_rep(
                self.sequence_number as nat,
            ) + ")"@
        }
    }

    /// Builds a payload from its fields.
    pub fn new(
        up: bool,
        duration: String,
        unit: String,
        sequence_number: u16,
        address: String,
    ) -> (c: Self)
        ensures
            c.up == up,
            c.duration@ == duration@,
            c.unit@ == unit@,
            c.sequence_number == sequence_number,
            c.address@ == address@,
    {
        UupCheckResultContext { up, duration, unit, sequence_number, address }
    }

    /// Renders the payload: the JSON object when `output_json` is set,
    /// the human line otherwise.
    pub fn get_context_str(&self, output_json: bool) -> (r: String)
        ensures
            r@ == if output_json {
                self.json_str()
            } else {
                self.human_str()
            },
    {
        let mut r = String::new();
        if output_json {
            r.append("{\"address\":\"");
            append_json_escaped(&mut r, self.address.as_str());
            r.append("\",\"duration\":");
            r.append(self.duration.as_str());
            r.append(",\"sequence_number\":");
            append_decimal(&mut r, self.sequence_number);
            r.append(",\"unit\":\"");
            append_json_escaped(&mut r, self.unit.as_str());
            r.append("\",\"up\":");
            if self.up {
                r.append("true");
            } else {
                r.append("false");
            }
            r.append("}");
            proof {
                assert(r@ =~= self.json_str());
            }
        } else {
            r.append("Ping ");
            r.append(self.address.as_str());
            if self.up {
                r.append(" responded in ");
                r.append(self.duration.as_str());
                r.append(" ");
                r.append(self.unit.as_str());
                r.append(" (sequence_number=");
            } else {
                r.append(" timed out (sequence_number=");
            }
            append_decimal(&mut r, self.sequence_number);
            r.append(")");
            proof {
                assert(r@ =~= self.human_str());
            }
        }
        r
    }
}

/// Result of one probe attempt: the overall liveness flag plus the
/// detail payload.
pub struct UupCheckResult {
    /// Detail payload of the attempt.
    pub context: UupCheckResultContext,
    /// Overall liveness verdict of the attempt; always equal to
    /// `context.up`.
    pub up: bool,
}

} // verus!
