use vstd::prelude::*;
use vstd::string::StringExecFns;
use crate::address::{ipv4_octets, octets_of};
use crate::engine::Observation;
use crate::normalize::{
    chars_of, decimal_value, decimal_within, field, find_field, host_of, is_separator, labels_of,
    parse_decimal, string_of, syslog_host, token_end, token_end_at,
};

verus! {

/// What a rule reads from a line: source address, destination port,
/// protocol and action.
pub type Reading = (Seq<char>, u16, Option<Seq<char>>, Option<Seq<char>>);

/// Labels of the source address in `key=value` records.
pub open spec fn source_labels() -> Seq<Seq<char>> {
    seq![seq!['s', 'r', 'c'], seq!['s', 'o', 'u', 'r', 'c', 'e']]
}

/// Labels of the destination port in `key=value` records.
pub open spec fn port_labels() -> Seq<Seq<char>> {
    seq![seq!['d', 'p', 't'], seq!['d', 'p', 'o', 'r', 't']]
}

/// Labels of the protocol in `key=value` records.
pub open spec fn protocol_labels() -> Seq<Seq<char>> {
    seq![seq!['p', 'r', 'o', 't', 'o']]
}

/// Labels of the action in `key=value` records.
pub open spec fn action_labels() -> Seq<Seq<char>> {
    seq![seq!['a', 'c', 't'], seq!['a', 'c', 't', 'i', 'o', 'n']]
}

/// `pat` stands in `line` from position `i` on.
pub open spec fn occurs_at(line: Seq<char>, i: int, pat: Seq<char>) -> bool {
    0 <= i && i + pat.len() <= line.len() && line.subrange(i, i + pat.len()) == pat
}

/// `pat` stands somewhere in `line`.
pub open spec fn occurs(line: Seq<char>, pat: Seq<char>) -> bool {
    exists|i: int| occurs_at(line, i, pat)
}

/// What follows the last colon of `s`, if `s` has one.
pub open spec fn after_last_colon(s: Seq<char>) -> Option<Seq<char>>
    decreases s.len(),
{
    if s.len() == 0 {
        None
    } else if s.last() == ':' {
        Some(Seq::empty())
    } else {
        match after_last_colon(s.drop_last()) {
            Some(t) => Some(t.push(s.last())),
            None => None,
        }
    }
}

/// The first token of `line`, from position `i` on, that is a dotted IPv4 address.
pub open spec fn first_ipv4_from(line: Seq<char>, i: int) -> Option<Seq<char>>
    decreases line.len() - i,
{
    if i < 0 || i >= line.len() {
        None
    } else if (i == 0 || is_separator(line[i - 1])) && ipv4_octets(line.subrange(i, token_end(line, i))).is_some() {
        Some(line.subrange(i, token_end(line, i)))
    } else {
        first_ipv4_from(line, i + 1)
    }
}

/// A source that is not empty and a port that is a decimal number fitting
/// 16 bits, read with the protocol and action given.
pub open spec fn checked(src: Option<Seq<char>>, port: Option<Seq<char>>, protocol: Option<Seq<char>>, action: Option<Seq<char>>) -> Option<Reading> {
    match (src, port) {
        (Some(s), Some(p)) => if s.len() > 0 && decimal_within(p, 65535) {
            Some((s, decimal_value(p) as u16, protocol, action))
        } else {
            None
        },
        _ => None,
    }
}

/// The `key=value` rule: `src`/`source`, `dpt`/`dport`, `proto`,
/// `act`/`action`, any case; `default_action` when no action field is there.
pub open spec fn fields_reading(line: Seq<char>, default_action: Option<Seq<char>>) -> Option<Reading> {
    checked(
        field(line, source_labels(), '='),
        field(line, port_labels(), '='),
        field(line, protocol_labels(), '='),
        match field(line, action_labels(), '=') {
            Some(a) => Some(a),
            None => default_action,
        },
    )
}

/// The firewall-deny rule: a line tagged `%ASA` or `%FTD`, with
/// `src ADDR` and `dst HOST:PORT`; protocol TCP, action DENY.
pub open spec fn firewall_reading(line: Seq<char>) -> Option<Reading> {
    if occurs(line, "%ASA"@) || occurs(line, "%FTD"@) {
        match field(line, seq![seq!['d', 's', 't']], ' ') {
            Some(d) => checked(field(line, seq![seq!['s', 'r', 'c']], ' '), after_last_colon(d), Some("TCP"@), Some("DENY"@)),
            None => None,
        }
    } else {
        None
    }
}

/// The SSH rule: a line saying `Failed password`, with `from ADDR` and
/// `port N`; protocol SSH, action FAILED_AUTH.
pub open spec fn ssh_reading(line: Seq<char>) -> Option<Reading> {
    if occurs(line, "Failed password"@) {
        checked(
            field(line, seq![seq!['f', 'r', 'o', 'm']], ' '),
            field(line, seq![seq!['p', 'o', 'r', 't']], ' '),
            Some("SSH"@),
            Some("FAILED_AUTH"@),
        )
    } else {
        None
    }
}

/// The generic deny rule: a line saying `DENY`, with a dotted IPv4 address
/// as a token and `port N`; protocol TCP, action DENY.
pub open spec fn deny_reading(line: Seq<char>) -> Option<Reading> {
    if occurs(line, "DENY"@) {
        checked(first_ipv4_from(line, 0), field(line, seq![seq!['p', 'o', 'r', 't']], ' '), Some("TCP"@), Some("DENY"@))
    } else {
        None
    }
}

/// What normalization reads from `line`. A CEF record (a line that starts
/// with `CEF:`) is read by its fields alone. Any other line goes through the
/// rules in order, and the first that reads something wins: `key=value`
/// fields (action DROP when none is given), firewall deny, SSH failed
/// password, generic deny.
pub open spec fn reading(line: Seq<char>) -> Option<Reading> {
    if occurs_at(line, 0, "CEF:"@) {
        fields_reading(line, None)
    } else if fields_reading(line, Some("DROP"@)).is_some() {
        fields_reading(line, Some("DROP"@))
    } else if firewall_reading(line).is_some() {
        firewall_reading(line)
    } else if ssh_reading(line).is_some() {
        ssh_reading(line)
    } else {
        deny_reading(line)
    }
}

/// The characters of an optional string.
pub open spec fn string_opt(o: Option<String>) -> Option<Seq<char>> {
    match o {
        Some(s) => Some(s@),
        None => None,
    }
}

/// The characters of an optional character vector.
pub open spec fn chars_opt(o: Option<Vec<char>>) -> Option<Seq<char>> {
    match o {
        Some(s) => Some(s@),
        None => None,
    }
}

/// What an executable reading stands for.
pub open spec fn found_view(x: Option<(Vec<char>, u16, Option<String>, Option<String>)>) -> Option<Reading> {
    match x {
        Some((s, p, a, b)) => Some((s@, p, string_opt(a), string_opt(b))),
        None => None,
    }
}

fn occurs_at_exec(line: &Vec<char>, i: usize, pat: &Vec<char>) -> (r: bool)
    ensures
        r == occurs_at(line@, i as int, pat@),
{
    if i > line.len() || pat.len() > line.len() - i {
        return false;
    }
    let mut j: usize = 0;
    while j < pat.len()
        invariant
            j <= pat@.len(),
            line@.len() <= usize::MAX,
            i + pat@.len() <= line@.len(),
            forall|t: int| 0 <= t < j ==> line@[i + t] == pat@[t],
        decreases pat@.len() - j,
    {
        if line[i + j] != pat[j] {
            assert(line@.subrange(i as int, i + pat@.len())[j as int] != pat@[j as int]);
            return false;
        }
        j = j + 1;
    }
    assert(line@.subrange(i as int, i + pat@.len()) =~= pat@);
    true
}

fn occurs_exec(line: &Vec<char>, pat: &Vec<char>) -> (r: bool)
    ensures
        r == occurs(line@, pat@),
{
    let n = line.len();
    let mut i: usize = 0;
    while i < n
        invariant
            i <= n,
            n == line@.len(),
            forall|k: int| 0 <= k < i ==> !occurs_at(line@, k, pat@),
        decreases n - i,
    {
        if occurs_at_exec(line, i, pat) {
            return true;
        }
        i = i + 1;
    }
    if occurs_at_exec(line, n, pat) {
        return true;
    }
    assert forall|k: int| !occurs_at(line@, k, pat@) by {
        if 0 <= k && k + pat@.len() <= line@.len() {
            assert(k <= i);
        }
    }
    false
}

fn after_last_colon_exec(s: &Vec<char>) -> (r: Option<Vec<char>>)
    ensures
        chars_opt(r) == after_last_colon(s@),
{
    let mut last: Option<usize> = None;
    let mut i: usize = 0;
    while i < s.len()
        invariant
            i <= s@.len(),
            match last {
                Some(k) => k < i && after_last_colon(s@.take(i as int)) == Some(s@.subrange(k + 1, i as int)),
                None => after_last_colon(s@.take(i as int)) is None,
            },
        decreases s@.len() - i,
    {
        assert(s@.take(i + 1).drop_last() =~= s@.take(i as int));
        if s[i] == ':' {
            last = Some(i);
            assert(s@.subrange(i + 1, i + 1) =~= Seq::<char>::empty());
        } else {
            if let Some(k) = last {
                assert(s@.subrange(k + 1, i + 1) =~= s@.subrange(k + 1, i as int).push(s@[i as int]));
            }
        }
        i = i + 1;
    }
    assert(s@.take(i as int) =~= s@);
    match last {
        None => None,
        Some(k) => Some(copy_range(s, k + 1, s.len())),
    }
}

fn copy_range(s: &Vec<char>, from: usize, to: usize) -> (r: Vec<char>)
    requires
        from <= to <= s@.len(),
    ensures
        r@ == s@.subrange(from as int, to as int),
{
    let mut v: Vec<char> = Vec::new();
    let mut t = from;
    while t < to
        invariant
            from <= t <= to,
            to <= s@.len(),
            v@ == s@.subrange(from as int, t as int),
        decreases to - t,
    {
        v.push(s[t]);
        assert(v@ =~= s@.subrange(from as int, t + 1));
        t = t + 1;
    }
    v
}

fn first_ipv4_exec(line: &Vec<char>) -> (r: Option<Vec<char>>)
    ensures
        chars_opt(r) == first_ipv4_from(line@, 0),
{
    let mut i: usize = 0;
    while i < line.len()
        invariant
            i <= line@.len(),
            first_ipv4_from(line@, 0) == first_ipv4_from(line@, i as int),
        decreases line@.len() - i,
    {
        let starts = i == 0 || (line[i - 1] == ' ' || line[i - 1] == '\t' || line[i - 1] == '|');
        if starts {
            let e = token_end_at(line, i);
            let tok = copy_range(line, i, e);
            if octets_of(&tok).is_some() {
                return Some(tok);
            }
        }
        i = i + 1;
    }
    None
}

fn checked_exec(src: Option<Vec<char>>, port: Option<Vec<char>>, protocol: Option<String>, action: Option<String>) -> (r: Option<(Vec<char>, u16, Option<String>, Option<String>)>)
    ensures
        found_view(r) == checked(chars_opt(src), chars_opt(port), string_opt(protocol), string_opt(action)),
{
    match (src, port) {
        (Some(s), Some(p)) => {
            if s.len() == 0 {
                return None;
            }
            match parse_decimal(&p, 65535) {
                Some(v) => Some((s, v as u16, protocol, action)),
                None => None,
            }
        },
        _ => None,
    }
}

/// A fixed label as an owned string.
fn text(s: &str) -> (r: Option<String>)
    ensures
        string_opt(r) == Some(s@),
{
    Some(String::from_str(s))
}

fn fields_exec(line: &Vec<char>, default_action: Option<String>) -> (r: Option<(Vec<char>, u16, Option<String>, Option<String>)>)
    ensures
        found_view(r) == fields_reading(line@, string_opt(default_action)),
{
    let src_keys = vec![vec!['s', 'r', 'c'], vec!['s', 'o', 'u', 'r', 'c', 'e']];
    let port_keys = vec![vec!['d', 'p', 't'], vec!['d', 'p', 'o', 'r', 't']];
    let proto_keys = vec![vec!['p', 'r', 'o', 't', 'o']];
    let act_keys = vec![vec!['a', 'c', 't'], vec!['a', 'c', 't', 'i', 'o', 'n']];
    proof {
        assert(labels_of(src_keys@) =~= source_labels());
        assert(labels_of(port_keys@) =~= port_labels());
        assert(labels_of(proto_keys@) =~= protocol_labels());
        assert(labels_of(act_keys@) =~= action_labels());
    }
    let src = find_field(line, &src_keys, '=');
    let port = find_field(line, &port_keys, '=');
    let protocol = match find_field(line, &proto_keys, '=') {
        Some(v) => Some(string_of(&v)),
        None => None,
    };
    let action = match find_field(line, &act_keys, '=') {
        Some(v) => Some(string_of(&v)),
        None => default_action,
    };
    checked_exec(src, port, protocol, action)
}

fn firewall_exec(line: &Vec<char>) -> (r: Option<(Vec<char>, u16, Option<String>, Option<String>)>)
    ensures
        found_view(r) == firewall_reading(line@),
{
    let asa = chars_of("%ASA");
    let ftd = chars_of("%FTD");
    if !(occurs_exec(line, &asa) || occurs_exec(line, &ftd)) {
        return None;
    }
    let dst_keys = vec![vec!['d', 's', 't']];
    let src_keys = vec![vec!['s', 'r', 'c']];
    proof {
        assert(labels_of(dst_keys@) =~= seq![seq!['d', 's', 't']]);
        assert(labels_of(src_keys@) =~= seq![seq!['s', 'r', 'c']]);
    }
    match find_field(line, &dst_keys, ' ') {
        Some(d) => {
            let port = after_last_colon_exec(&d);
            let src = find_field(line, &src_keys, ' ');
            checked_exec(src, port, text("TCP"), text("DENY"))
        },
        None => None,
    }
}

fn ssh_exec(line: &Vec<char>) -> (r: Option<(Vec<char>, u16, Option<String>, Option<String>)>)
    ensures
        found_view(r) == ssh_reading(line@),
{
    let mark = chars_of("Failed password");
    if !occurs_exec(line, &mark) {
        return None;
    }
    let from_keys = vec![vec!['f', 'r', 'o', 'm']];
    let port_keys = vec![vec!['p', 'o', 'r', 't']];
    proof {
        assert(labels_of(from_keys@) =~= seq![seq!['f', 'r', 'o', 'm']]);
        assert(labels_of(port_keys@) =~= seq![seq!['p', 'o', 'r', 't']]);
    }
    let src = find_field(line, &from_keys, ' ');
    let port = find_field(line, &port_keys, ' ');
    checked_exec(src, port, text("SSH"), text("FAILED_AUTH"))
}

fn deny_exec(line: &Vec<char>) -> (r: Option<(Vec<char>, u16, Option<String>, Option<String>)>)
    ensures
        found_view(r) == deny_reading(line@),
{
    let mark = chars_of("DENY");
    if !occurs_exec(line, &mark) {
        return None;
    }
    let port_keys = vec![vec!['p', 'o', 'r', 't']];
    proof {
        assert(labels_of(port_keys@) =~= seq![seq!['p', 'o', 'r', 't']]);
    }
    let src = first_ipv4_exec(line);
    let port = find_field(line, &port_keys, ' ');
    checked_exec(src, port, text("TCP"), text("DENY"))
}

/// Turns one log line, seen at `now`, into an observation by the rules of
/// `reading`, with the device named by a leading syslog prefix as origin
/// host. Lines that no rule reads yield nothing.
pub fn normalize(line: &str, now: u64) -> (r: Option<Observation>)
    ensures
        r.is_some() == reading(line@).is_some(),
        r matches Some(o) ==> {
            let (src, port, protocol, action) = reading(line@).unwrap();
            &&& o.source_address@ == src
            &&& o.destination_port == port
            &&& string_opt(o.protocol) == protocol
            &&& string_opt(o.action) == action
            &&& o.timestamp == now
            &&& string_opt(o.origin_host) == syslog_host(line@)
        },
{
    let chars = chars_of(line);
    let cef = chars_of("CEF:");
    let found = if occurs_at_exec(&chars, 0, &cef) {
        fields_exec(&chars, None)
    } else {
        match fields_exec(&chars, text("DROP")) {
            Some(x) => Some(x),
            None => match firewall_exec(&chars) {
                Some(x) => Some(x),
                None => match ssh_exec(&chars) {
                    Some(x) => Some(x),
                    None => deny_exec(&chars),
                },
            },
        }
    };
    match found {
        Some((src, port, protocol, action)) => {
            let origin_host = match host_of(&chars) {
                Some(h) => Some(string_of(&h)),
                None => None,
            };
            Some(Observation {
                timestamp: now,
                source_address: string_of(&src),
                destination_port: port,
                protocol,
                action,
                origin_host,
            })
        },
        None => None,
    }
}

} // verus!
