//! Settings of the agent mode: where the orchestrator listens, on which port
//! the agent serves, and whether it reports its events.

use vstd::prelude::*;
use vstd::string::{StrSliceExecFns, StringExecFns};
use crate::text::{decimal, spec_decimal};

verus! {

/// Configuration of the agent that connects to the orchestrator.
#[derive(Debug, Clone)]
pub struct AgentConfig {
    /// URL of the orchestrator.
    pub cerebro_url: String,
    /// Port on which the agent serves HTTP.
    pub port: u16,
    /// Whether the agent reports to the orchestrator.
    pub report_enabled: bool,
}

pub open spec fn is_digit(c: char) -> bool {
    '0' <= c && c <= '9'
}

pub open spec fn digit_value(c: char) -> nat {
    (c as int - '0' as int) as nat
}

/// The number a sequence of decimal digits spells.
pub open spec fn digits_value(s: Seq<char>) -> nat
    decreases s.len(),
{
    if s.len() == 0 {
        0
    } else {
        digits_value(s.drop_last()) * 10 + digit_value(s.last())
    }
}

pub open spec fn all_digits(s: Seq<char>) -> bool {
    forall|i: int| 0 <= i < s.len() ==> is_digit(#[trigger] s[i])
}

/// The digits of an unsigned number text: without its optional leading `+`.
pub open spec fn unsigned_body(s: Seq<char>) -> Seq<char> {
    if s.len() > 0 && s[0] == '+' {
        s.drop_first()
    } else {
        s
    }
}

/// A port number in text: an optional `+`, then one or more decimal digits
/// whose value fits in 16 bits (the syntax `str::parse::<u16>` accepts).
pub open spec fn spec_parse_port(s: Seq<char>) -> Option<u16> {
    let b = unsigned_body(s);
    if b.len() > 0 && all_digits(b) && digits_value(b) <= 65535 {
        Some(digits_value(b) as u16)
    } else {
        None
    }
}

/// A prefix of a digit text spells at most the whole text's number.
pub proof fn lemma_digits_prefix(b: Seq<char>, k: int)
    requires
        0 <= k <= b.len(),
    ensures
        digits_value(b.take(k)) <= digits_value(b),
    decreases b.len() - k,
{
    if k < b.len() {
        assert(b.take(k + 1).drop_last() =~= b.take(k));
        lemma_digits_prefix(b, k + 1);
    } else {
        assert(b.take(k) =~= b);
    }
}

/// Reads a port number.
pub fn parse_port(text: &str) -> (r: Option<u16>)
    ensures
        r == spec_parse_port(text@),
{
    let n = text.unicode_len();
    if n == 0 {
        return None;
    }
    let mut start: usize = 0;
    if text.get_char(0) == '+' {
        start = 1;
    }
    let ghost b = unsigned_body(text@);
    proof {
        assert(b =~= text@.subrange(start as int, n as int));
    }
    if start == n {
        return None;
    }
    let mut value: u32 = 0;
    let mut i: usize = start;
    while i < n
        invariant
            start <= i <= n,
            n == text@.len(),
            b == text@.subrange(start as int, n as int),
            b == unsigned_body(text@),
            b.len() == n - start,
            value == digits_value(b.take(i - start)),
            value <= 65535,
            all_digits(b.take(i - start)),
        decreases n - i,
    {
        let c = text.get_char(i);
        proof {
            assert(b.take(i - start + 1).drop_last() =~= b.take(i - start));
            assert(b[i - start] == c);
        }
        if !('0' <= c && c <= '9') {
            assert(!is_digit(b[i - start]));
            return None;
        }
        value = value * 10 + (c as u32 - '0' as u32);
        assert(all_digits(b.take(i - start + 1)));
        if value > 65535 {
            proof {
                if all_digits(b) {
                    lemma_digits_prefix(b, i - start + 1);
                }
            }
            return None;
        }
        i = i + 1;
    }
    proof {
        assert(b.take(i - start) =~= b);
    }
    Some(value as u16)
}

proof fn lemma_digit(d: nat)
    requires
        d < 10,
    ensures
        is_digit(crate::text::digit_char(d)),
        digit_value(crate::text::digit_char(d)) == d,
{
    assert('0' as int == 48);
    assert('9' as int == 57);
    if d == 0 {
        assert('0' as int == 48);
    } else if d == 1 {
        assert('1' as int == 49);
    } else if d == 2 {
        assert('2' as int == 50);
    } else if d == 3 {
        assert('3' as int == 51);
    } else if d == 4 {
        assert('4' as int == 52);
    } else if d == 5 {
        assert('5' as int == 53);
    } else if d == 6 {
        assert('6' as int == 54);
    } else if d == 7 {
        assert('7' as int == 55);
    } else if d == 8 {
        assert('8' as int == 56);
    } else {
        assert('9' as int == 57);
    }
}

proof fn lemma_decimal_digits(n: nat)
    ensures
        spec_decimal(n).len() > 0,
        all_digits(spec_decimal(n)),
        digits_value(spec_decimal(n)) == n,
    decreases n,
{
    let s = spec_decimal(n);
    lemma_digit(n % 10);
    if n < 10 {
        assert(s.drop_last() =~= Seq::<char>::empty());
        assert(s.last() == crate::text::digit_char(n));
        assert(n % 10 == n);
        assert(digits_value(s) == digits_value(s.drop_last()) * 10 + digit_value(s.last()));
        assert(digits_value(s.drop_last()) == 0);
    } else {
        lemma_decimal_digits(n / 10);
        let head = spec_decimal(n / 10);
        assert(s =~= head.push(crate::text::digit_char(n % 10)));
        assert(s.drop_last() =~= head);
        assert(forall|i: int| 0 <= i < head.len() ==> s[i] == head[i]);
        assert(s.last() == crate::text::digit_char(n % 10));
        assert(digits_value(s) == digits_value(head) * 10 + digit_value(s.last()));
        assert((n / 10) * 10 + n % 10 == n);
    }
}

/// A port written in decimal, as in the listen address, reads back as the
/// same port.
pub proof fn law_port_round_trip(port: u16)
    ensures
        spec_parse_port(spec_decimal(port as nat)) == Some(port),
{
    lemma_decimal_digits(port as nat);
    let s = spec_decimal(port as nat);
    assert(is_digit(s[0]));
    assert(unsigned_body(s) == s);
}

impl AgentConfig {
    /// The settings from the values found for `CEREBRO_URL`, `WARDEN_PORT`
    /// and `CEREBRO_REPORT_ENABLED` (`None` for an absent one). Defaults:
    /// `http://localhost:4000`, port 4003 (also for an unreadable port), and
    /// reporting on; reporting is on exactly for `true` or `1`.
    pub fn from_settings(
        cerebro_url: Option<String>,
        port: Option<String>,
        report_enabled: Option<String>,
    ) -> (c: AgentConfig)
        ensures
            c.cerebro_url@ == (match cerebro_url {
                Some(u) => u@,
                None => "http://localhost:4000"@,
            }),
            c.port == (match port {
                Some(p) => match spec_parse_port(p@) {
                    Some(v) => v,
                    None => 4003u16,
                },
                None => 4003u16,
            }),
            c.report_enabled == (match report_enabled {
                Some(v) => v@ == "true"@ || v@ == "1"@,
                None => true,
            }),
    {
        let url = match cerebro_url {
            Some(u) => u,
            None => String::from_str("http://localhost:4000"),
        };
        let port_number = match port {
            Some(p) => match parse_port(p.as_str()) {
                Some(v) => v,
                None => 4003,
            },
            None => 4003,
        };
        let enabled = match report_enabled {
            Some(v) => crate::text::text_eq(v.as_str(), "true") || crate::text::text_eq(v.as_str(), "1"),
            None => true,
        };
        AgentConfig { cerebro_url: url, port: port_number, report_enabled: enabled }
    }

    /// Endpoint of the orchestrator that receives events.
    pub fn events_endpoint(&self) -> (s: String)
        ensures
            s@ == self.cerebro_url@ + "/api/events"@,
    {
        let mut s = self.cerebro_url.clone();
        s.append("/api/events");
        s
    }

    /// Address on which the agent listens: all interfaces, its port.
    pub fn listen_address(&self) -> (s: String)
        ensures
            s@ == "0.0.0.0:"@ + spec_decimal(self.port as nat),
    {
        let mut s = String::from_str("0.0.0.0:");
        let digits = decimal(self.port as u64);
        s.append(digits.as_str());
        s
    }
}

} // verus!
