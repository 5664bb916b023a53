use vstd::prelude::*;
use crate::engine::{AlertKind, ScanAlert, Severity};
use crate::normalize::{chars_of, string_of};

verus! {

/// The decimal digits of `n`, most significant first.
pub open spec fn digits(n: nat) -> Seq<char>
    decreases n,
{
    if n < 10 {
        seq![digit_char((n % 10) as nat)]
    } else {
        digits(n / 10).push(digit_char((n % 10) as nat))
    }
}

pub open spec fn digit_char(d: nat) -> char {
    if d == 0 { '0' } else if d == 1 { '1' } else if d == 2 { '2' } else if d == 3 { '3' } else if d == 4 { '4' }
    else if d == 5 { '5' } else if d == 6 { '6' } else if d == 7 { '7' } else if d == 8 { '8' } else { '9' }
}

/// `s` with a backslash put before each `|`, `\` and `=`, as a field value of
/// a CEF record needs.
pub open spec fn escaped(s: Seq<char>) -> Seq<char>
    decreases s.len(),
{
    if s.len() == 0 {
        Seq::empty()
    } else if s.last() == '|' || s.last() == '\\' || s.last() == '=' {
        escaped(s.drop_last()) + seq!['\\', s.last()]
    } else {
        escaped(s.drop_last()).push(s.last())
    }
}

/// The signature id of an alert kind.
pub open spec fn signature(k: AlertKind) -> Seq<char> {
    match k {
        AlertKind::RapidScan => "RAPID_SCAN"@,
        AlertKind::SlowScan => "SLOW_SCAN"@,
        AlertKind::ConnectionBurst => "CONN_BURST"@,
    }
}

/// The CEF severity, 0 to 10, of a rating.
pub open spec fn severity_number(s: Severity) -> nat {
    match s {
        Severity::Low => 4,
        Severity::Medium => 6,
        Severity::High => 8,
        Severity::Critical => 10,
    }
}

/// The one-line CEF record of an alert: the message is the event name and
/// the `msg` field, escaped in both places.
pub open spec fn cef_record(a: ScanAlert) -> Seq<char> {
    "CEF:0|CustomIDS|NetworkScanner|1.0|"@ + signature(a.kind) + "|"@ + escaped(a.message@) + "|"@
        + digits(severity_number(a.severity)) + "|src="@ + escaped(a.source_address@) + " msg="@
        + escaped(a.message@) + " cnt="@ + digits(a.unique_port_count as nat)
}

/// How the message of an alert of `kind` opens.
pub open spec fn message_lead(k: AlertKind) -> Seq<char> {
    match k {
        AlertKind::ConnectionBurst => "Connection burst "@,
        _ => "Network scan "@,
    }
}

/// The verb of the message of an alert of `kind`.
pub open spec fn message_verb(k: AlertKind) -> Seq<char> {
    match k {
        AlertKind::ConnectionBurst => " made "@,
        _ => " accessed "@,
    }
}

/// What the message of an alert of `kind` says was counted.
pub open spec fn message_count(k: AlertKind) -> Seq<char> {
    match k {
        AlertKind::ConnectionBurst => " connections in the last "@,
        _ => " unique ports in the last "@,
    }
}

/// The message of an alert of `kind` from `address`, counting `n` within a
/// window of `window` seconds.
pub open spec fn message_text(kind: AlertKind, address: Seq<char>, n: nat, window: u64) -> Seq<char> {
    message_lead(kind) + signature(kind) + " detected: IP "@ + address + message_verb(kind) + digits(n)
        + message_count(kind) + digits(window as nat) + " seconds"@
}

/// The message of an alert of `kind` from `address`, counting `n` within a
/// window of `window` seconds.
pub fn alert_message(kind: AlertKind, address: &String, n: usize, window: u64) -> (r: String)
    ensures
        r@ == message_text(kind, address@, n as nat, window),
{
    let mut out: Vec<char> = Vec::new();
    match kind {
        AlertKind::RapidScan => {
            push_text(&mut out, "Network scan ");
            push_text(&mut out, "RAPID_SCAN");
        },
        AlertKind::SlowScan => {
            push_text(&mut out, "Network scan ");
            push_text(&mut out, "SLOW_SCAN");
        },
        AlertKind::ConnectionBurst => {
            push_text(&mut out, "Connection burst ");
            push_text(&mut out, "CONN_BURST");
        },
    }
    push_text(&mut out, " detected: IP ");
    push_text(&mut out, address.as_str());
    match kind {
        AlertKind::ConnectionBurst => push_text(&mut out, " made "),
        _ => push_text(&mut out, " accessed "),
    }
    push_digits(&mut out, n as u64);
    match kind {
        AlertKind::ConnectionBurst => push_text(&mut out, " connections in the last "),
        _ => push_text(&mut out, " unique ports in the last "),
    }
    push_digits(&mut out, window);
    push_text(&mut out, " seconds");
    let r = string_of(&out);
    assert(r@ =~= message_text(kind, address@, n as nat, window));
    r
}

fn push_digits(out: &mut Vec<char>, n: u64)
    ensures
        final(out)@ == old(out)@ + digits(n as nat),
    decreases n,
{
    if n >= 10 {
        push_digits(out, n / 10);
    }
    let d = n % 10;
    let c = if d == 0 { '0' } else if d == 1 { '1' } else if d == 2 { '2' } else if d == 3 { '3' } else if d == 4 { '4' }
        else if d == 5 { '5' } else if d == 6 { '6' } else if d == 7 { '7' } else if d == 8 { '8' } else { '9' };
    out.push(c);
    assert(final(out)@ =~= old(out)@ + digits(n as nat));
}

fn push_text(out: &mut Vec<char>, s: &str)
    ensures
        final(out)@ == old(out)@ + s@,
{
    let cs = chars_of(s);
    let ghost start = out@;
    let mut i: usize = 0;
    while i < cs.len()
        invariant
            i <= cs@.len(),
            out@ == start + cs@.take(i as int),
        decreases cs@.len() - i,
    {
        out.push(cs[i]);
        assert(out@ =~= start + cs@.take(i + 1));
        i = i + 1;
    }
    assert(cs@.take(i as int) =~= cs@);
}

fn push_escaped(out: &mut Vec<char>, s: &str)
    ensures
        final(out)@ == old(out)@ + escaped(s@),
{
    let cs = chars_of(s);
    let ghost start = out@;
    let mut i: usize = 0;
    while i < cs.len()
        invariant
            i <= cs@.len(),
            out@ == start + escaped(cs@.take(i as int)),
        decreases cs@.len() - i,
    {
        let c = cs[i];
        assert(cs@.take(i + 1).drop_last() =~= cs@.take(i as int));
        if c == '|' || c == '\\' || c == '=' {
            out.push('\\');
        }
        out.push(c);
        assert(out@ =~= start + escaped(cs@.take(i + 1)));
        i = i + 1;
    }
    assert(cs@.take(i as int) =~= cs@);
}

impl ScanAlert {
    /// The alert as one CEF record: the pipe-delimited header (version,
    /// vendor, product, product version, signature id, the message as name,
    /// severity 0 to 10) and the `src`, `msg` and `cnt` extension fields, the
    /// address and the message escaped.
    pub fn to_cef(&self) -> (r: String)
        ensures
            r@ == cef_record(*self),
    {
        let mut out: Vec<char> = Vec::new();
        push_text(&mut out, "CEF:0|CustomIDS|NetworkScanner|1.0|");
        match self.kind {
            AlertKind::RapidScan => push_text(&mut out, "RAPID_SCAN"),
            AlertKind::SlowScan => push_text(&mut out, "SLOW_SCAN"),
            AlertKind::ConnectionBurst => push_text(&mut out, "CONN_BURST"),
        }
        push_text(&mut out, "|");
        push_escaped(&mut out, self.message.as_str());
        push_text(&mut out, "|");
        let sev: u64 = match self.severity {
            Severity::Low => 4,
            Severity::Medium => 6,
            Severity::High => 8,
            Severity::Critical => 10,
        };
        push_digits(&mut out, sev);
        push_text(&mut out, "|src=");
        push_escaped(&mut out, self.source_address.as_str());
        push_text(&mut out, " msg=");
        push_escaped(&mut out, self.message.as_str());
        push_text(&mut out, " cnt=");
        push_digits(&mut out, self.unique_port_count as u64);
        let r = string_of(&out);
        assert(r@ =~= cef_record(*self));
        r
    }
}

} // verus!
