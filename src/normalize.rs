use vstd::prelude::*;
use vstd::string::StrSliceExecFns;

verus! {

/// Characters that separate the tokens of a log line.
pub open spec fn is_separator(c: char) -> bool {
    c == ' ' || c == '\t' || c == '|'
}

/// `c` equals the lower-case ASCII letter or symbol `k`, ignoring case.
pub open spec fn same_letter(c: char, k: char) -> bool {
    c == k || ('a' <= k && k <= 'z' && c as u32 + 32 == k as u32)
}

/// A token of `line` starts at `i` with the label `key` (in any case)
/// followed by `sep`.
pub open spec fn labelled_at(line: Seq<char>, i: int, key: Seq<char>, sep: char) -> bool {
    &&& 0 <= i
    &&& i + key.len() < line.len()
    &&& (i == 0 || is_separator(line[i - 1]))
    &&& forall|j: int| 0 <= j < key.len() ==> same_letter(#[trigger] line[i + j], key[j])
    &&& line[i + key.len()] == sep
}

/// Where the run of non-separator characters starting at `j` ends.
pub open spec fn token_end(line: Seq<char>, j: int) -> int
    decreases line.len() - j,
{
    if j < 0 || j >= line.len() || is_separator(line[j]) {
        if j < 0 { 0 } else if j > line.len() { line.len() as int } else { j }
    } else {
        token_end(line, j + 1)
    }
}

/// The length of the first of `keys`, from the `k`-th on, that labels a
/// token of `line` at `i`.
pub open spec fn label_from(line: Seq<char>, i: int, keys: Seq<Seq<char>>, sep: char, k: int) -> Option<int>
    decreases keys.len() - k,
{
    if k < 0 || k >= keys.len() {
        None
    } else if labelled_at(line, i, keys[k], sep) {
        Some(keys[k].len() as int)
    } else {
        label_from(line, i, keys, sep, k + 1)
    }
}

/// The value of the first labelled token at or after `i` whose label is one
/// of `keys`, as written after the separator up to the next separator.
pub open spec fn field_from(line: Seq<char>, keys: Seq<Seq<char>>, sep: char, i: int) -> Option<Seq<char>>
    decreases line.len() - i,
{
    if i < 0 || i >= line.len() {
        None
    } else if let Some(n) = label_from(line, i, keys, sep, 0) {
        Some(line.subrange(i + n + 1, token_end(line, i + n + 1)))
    } else {
        field_from(line, keys, sep, i + 1)
    }
}

/// The labels that `keys` hold.
pub open spec fn labels_of(keys: Seq<Vec<char>>) -> Seq<Seq<char>> {
    keys.map_values(|k: Vec<char>| k@)
}

/// The value of the first token of `line` labelled by one of `keys`.
pub open spec fn field(line: Seq<char>, keys: Seq<Seq<char>>, sep: char) -> Option<Seq<char>> {
    field_from(line, keys, sep, 0)
}

pub open spec fn is_digit(c: char) -> bool {
    '0' <= c && c <= '9'
}

/// The number that the decimal digits `s` write.
pub open spec fn decimal_value(s: Seq<char>) -> int
    decreases s.len(),
{
    if s.len() == 0 {
        0
    } else {
        10 * decimal_value(s.drop_last()) + (s.last() as u32 - '0' as u32)
    }
}

/// `s` is a number of decimal digits no larger than `max`.
pub open spec fn decimal_within(s: Seq<char>, max: int) -> bool {
    &&& s.len() > 0
    &&& forall|i: int| 0 <= i < s.len() ==> is_digit(#[trigger] s[i])
    &&& decimal_value(s) <= max
}

proof fn lemma_decimal_nonneg(s: Seq<char>)
    requires
        forall|k: int| 0 <= k < s.len() ==> is_digit(#[trigger] s[k]),
    ensures
        decimal_value(s) >= 0,
    decreases s.len(),
{
    if s.len() > 0 {
        lemma_decimal_nonneg(s.drop_last());
        assert(is_digit(s[s.len() - 1]));
    }
}

proof fn lemma_decimal_grows(s: Seq<char>, i: int, j: int)
    requires
        0 <= i <= j <= s.len(),
        forall|k: int| 0 <= k < s.len() ==> is_digit(#[trigger] s[k]),
    ensures
        decimal_value(s.take(i)) <= decimal_value(s.take(j)),
    decreases j - i,
{
    if i < j {
        lemma_decimal_grows(s, i, j - 1);
        assert(s.take(j).drop_last() =~= s.take(j - 1));
        assert(is_digit(s[j - 1]));
        lemma_decimal_nonneg(s.take(j - 1));
    }
}

/// Reads `s` as a decimal number no larger than `max`.
pub fn parse_decimal(s: &Vec<char>, max: u32) -> (r: Option<u32>)
    requires
        max <= 1_000_000,
    ensures
        r is Some <==> decimal_within(s@, max as int),
        r matches Some(v) ==> v == decimal_value(s@),
{
    if s.len() == 0 {
        return None;
    }
    let mut v: u32 = 0;
    let mut i: usize = 0;
    while i < s.len()
        invariant
            i <= s@.len(),
            max <= 1_000_000,
            v <= max,
            v == decimal_value(s@.take(i as int)),
            forall|k: int| 0 <= k < i ==> is_digit(#[trigger] s@[k]),
        decreases s@.len() - i,
    {
        let c = s[i];
        assert(s@.take(i + 1).drop_last() =~= s@.take(i as int));
        if !('0' <= c && c <= '9') {
            return None;
        }
        let d = (c as u32) - ('0' as u32);
        let next: u32 = v * 10 + d;
        if next > max {
            proof {
                assert forall|k: int| 0 <= k < s@.len() && is_digit(s@[k]) implies true by {}
                if forall|k: int| 0 <= k < s@.len() ==> is_digit(#[trigger] s@[k]) {
                    lemma_decimal_grows(s@, i + 1, s@.len() as int);
                    assert(s@.take(s@.len() as int) =~= s@);
                }
            }
            return None;
        }
        v = next;
        i = i + 1;
    }
    assert(s@.take(i as int) =~= s@);
    Some(v)
}

/// The characters of `s`, one by one.
pub fn chars_of(s: &str) -> (r: Vec<char>)
    ensures
        r@ == s@,
{
    let n = s.unicode_len();
    let mut out: Vec<char> = Vec::new();
    let mut i: usize = 0;
    while i < n
        invariant
            n == s@.len(),
            i <= n,
            out@ == s@.take(i as int),
        decreases n - i,
    {
        out.push(s.get_char(i));
        assert(out@ =~= s@.take(i + 1));
        i = i + 1;
    }
    assert(s@.take(n as int) =~= s@);
    out
}

/// Whether a token labelled `key` followed by `sep` starts at `i`.
fn labelled_here(line: &Vec<char>, i: usize, key: &Vec<char>, sep: char) -> (r: bool)
    ensures
        r == labelled_at(line@, i as int, key@, sep),
{
    if i >= line.len() || key.len() >= line.len() - i {
        return false;
    }
    if i > 0 {
        let p = line[i - 1];
        if !(p == ' ' || p == '\t' || p == '|') {
            return false;
        }
    }
    let mut j: usize = 0;
    while j < key.len()
        invariant
            j <= key@.len(),
            line@.len() <= usize::MAX,
            i < line@.len(),
            i + key@.len() < line@.len(),
            forall|t: int| 0 <= t < j ==> same_letter(#[trigger] line@[i + t], key@[t]),
        decreases key@.len() - j,
    {
        assert(i + j < line@.len());
        let c = line[i + j];
        let k = key[j];
        if !(c == k || ('a' <= k && k <= 'z' && c as u32 == k as u32 - 32)) {
            return false;
        }
        j = j + 1;
    }
    line[i + key.len()] == sep
}

/// The end of the token that starts at `j`.
pub(crate) fn token_end_at(line: &Vec<char>, j: usize) -> (r: usize)
    requires
        j <= line@.len(),
    ensures
        r as int == token_end(line@, j as int),
        j <= r <= line@.len(),
{
    let mut k = j;
    while k < line.len() && !(line[k] == ' ' || line[k] == '\t' || line[k] == '|')
        invariant
            j <= k <= line@.len(),
            token_end(line@, j as int) == token_end(line@, k as int),
        decreases line@.len() - k,
    {
        k = k + 1;
    }
    k
}

/// The value of the first token of `line` labelled by one of `keys` and `sep`.
pub fn find_field(line: &Vec<char>, keys: &Vec<Vec<char>>, sep: char) -> (r: Option<Vec<char>>)
    ensures
        match (r, field(line@, labels_of(keys@), sep)) {
            (Some(v), Some(w)) => v@ == w,
            (None, None) => true,
            _ => false,
        },
{
    let ghost ks = labels_of(keys@);
    let _n = line.len();
    let mut i: usize = 0;
    while i < line.len()
        invariant
            i <= line@.len(),
            line@.len() <= usize::MAX,
            ks == labels_of(keys@),
            field(line@, ks, sep) == field_from(line@, ks, sep, i as int),
        decreases line@.len() - i,
    {
        let mut k: usize = 0;
        while k < keys.len()
            invariant
                k <= keys@.len(),
                i < line@.len(),
                line@.len() <= usize::MAX,
                ks == labels_of(keys@),
                field(line@, ks, sep) == field_from(line@, ks, sep, i as int),
                label_from(line@, i as int, ks, sep, 0) == label_from(line@, i as int, ks, sep, k as int),
            decreases keys@.len() - k,
        {
            assert(ks[k as int] == keys@[k as int]@);
            if labelled_here(line, i, &keys[k], sep) {
                assert(labelled_at(line@, i as int, keys@[k as int]@, sep));
                assert(i + keys@[k as int]@.len() < line@.len());
                let start = i + keys[k].len() + 1;
                let end = token_end_at(line, start);
                let mut v: Vec<char> = Vec::new();
                let mut t: usize = start;
                while t < end
                    invariant
                        start <= t <= end,
                        end as int == token_end(line@, start as int),
                        end <= line@.len(),
                        field(line@, ks, sep) == field_from(line@, ks, sep, i as int),
                        label_from(line@, i as int, ks, sep, 0) == label_from(line@, i as int, ks, sep, k as int),
                        v@ == line@.subrange(start as int, t as int),
                    decreases end - t,
                {
                    v.push(line[t]);
                    assert(v@ =~= line@.subrange(start as int, t + 1));
                    t = t + 1;
                }
                proof {
                    assert(label_from(line@, i as int, ks, sep, k as int) == Some(ks[k as int].len() as int));
                    assert(v@ =~= line@.subrange(start as int, end as int));
                    assert(start == i + ks[k as int].len() + 1);
                    assert(field_from(line@, ks, sep, i as int) == Some(line@.subrange(start as int, end as int)));
                }
                return Some(v);
            }
            k = k + 1;
        }
        assert(label_from(line@, i as int, ks, sep, keys@.len() as int) is None);
        i = i + 1;
    }
    assert(field_from(line@, ks, sep, i as int) is None);
    None
}

/// Relies on String's FromIterator<char>: the string of these characters.
#[verifier::external_body]
pub(crate) fn string_of(cs: &Vec<char>) -> (r: String)
    ensures
        r@ == cs@,
{
    cs.iter().collect()
}

/// Which characters may make up a part of a syslog prefix: a word (month
/// name), digits (day) or a clock time.
pub enum CharClass {
    Word,
    Digits,
    Clock,
}

pub open spec fn in_class(c: char, k: CharClass) -> bool {
    match k {
        CharClass::Word => ('a' <= c && c <= 'z') || ('A' <= c && c <= 'Z') || is_digit(c) || c == '_',
        CharClass::Digits => is_digit(c),
        CharClass::Clock => is_digit(c) || c == ':',
    }
}

/// The first position at or after `j` that is not a space or tab.
pub open spec fn skip_blanks(line: Seq<char>, j: int) -> int
    decreases line.len() - j,
{
    if 0 <= j < line.len() && (line[j] == ' ' || line[j] == '\t') {
        skip_blanks(line, j + 1)
    } else {
        j
    }
}

/// A non-empty part of the prefix runs from `j` to its end, every
/// character in class `k`, and blanks follow it.
pub open spec fn part_ok(line: Seq<char>, j: int, k: CharClass) -> bool {
    let e = token_end(line, j);
    &&& 0 <= j < e < line.len()
    &&& forall|t: int| j <= t < e ==> in_class(#[trigger] line[t], k)
    &&& (line[e] == ' ' || line[e] == '\t')
}

/// The device named by a leading syslog prefix "Mon DD HH:MM:SS host ...",
/// if the line has one.
pub open spec fn syslog_host(line: Seq<char>) -> Option<Seq<char>> {
    let s2 = skip_blanks(line, token_end(line, 0));
    let s3 = skip_blanks(line, token_end(line, s2));
    let s4 = skip_blanks(line, token_end(line, s3));
    let e4 = token_end(line, s4);
    if part_ok(line, 0, CharClass::Word) && part_ok(line, s2, CharClass::Digits) && part_ok(line, s3, CharClass::Clock)
        && s4 < e4 < line.len() && (line[e4] == ' ' || line[e4] == '\t') {
        Some(line.subrange(s4, e4))
    } else {
        None
    }
}

fn skip_blanks_at(line: &Vec<char>, j: usize) -> (r: usize)
    requires
        j <= line@.len(),
    ensures
        r as int == skip_blanks(line@, j as int),
        j <= r <= line@.len(),
{
    let mut k = j;
    while k < line.len() && (line[k] == ' ' || line[k] == '\t')
        invariant
            j <= k <= line@.len(),
            skip_blanks(line@, j as int) == skip_blanks(line@, k as int),
        decreases line@.len() - k,
    {
        k = k + 1;
    }
    k
}

fn part_ok_at(line: &Vec<char>, j: usize, k: CharClass) -> (r: bool)
    requires
        j <= line@.len(),
    ensures
        r == part_ok(line@, j as int, k),
{
    let e = token_end_at(line, j);
    if !(j < e && e < line.len()) {
        return false;
    }
    let mut t = j;
    while t < e
        invariant
            j <= t <= e,
            e as int == token_end(line@, j as int),
            e < line@.len(),
            forall|u: int| j <= u < t ==> in_class(#[trigger] line@[u], k),
        decreases e - t,
    {
        let c = line[t];
        let ok = match k {
            CharClass::Word => ('a' <= c && c <= 'z') || ('A' <= c && c <= 'Z') || ('0' <= c && c <= '9') || c == '_',
            CharClass::Digits => '0' <= c && c <= '9',
            CharClass::Clock => ('0' <= c && c <= '9') || c == ':',
        };
        if !ok {
            return false;
        }
        t = t + 1;
    }
    line[e] == ' ' || line[e] == '\t'
}

/// The device named by a leading syslog prefix "Mon DD HH:MM:SS host ...".
pub fn host_of(line: &Vec<char>) -> (r: Option<Vec<char>>)
    ensures
        match (r, syslog_host(line@)) {
            (Some(v), Some(w)) => v@ == w,
            (None, None) => true,
            _ => false,
        },
{
    let s2 = skip_blanks_at(line, token_end_at(line, 0));
    let s3 = skip_blanks_at(line, token_end_at(line, s2));
    let s4 = skip_blanks_at(line, token_end_at(line, s3));
    let e4 = token_end_at(line, s4);
    if !(part_ok_at(line, 0, CharClass::Word) && part_ok_at(line, s2, CharClass::Digits) && part_ok_at(line, s3, CharClass::Clock)) {
        return None;
    }
    if !(s4 < e4 && e4 < line.len() && (line[e4] == ' ' || line[e4] == '\t')) {
        return None;
    }
    let mut v: Vec<char> = Vec::new();
    let mut t = s4;
    while t < e4
        invariant
            s4 <= t <= e4,
            e4 < line@.len(),
            v@ == line@.subrange(s4 as int, t as int),
        decreases e4 - t,
    {
        v.push(line[t]);
        assert(v@ =~= line@.subrange(s4 as int, t + 1));
        t = t + 1;
    }
    Some(v)
}

} // verus!
