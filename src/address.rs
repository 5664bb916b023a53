use vstd::prelude::*;
use crate::normalize::{decimal_value, decimal_within, labels_of, parse_decimal};

verus! {

/// The pieces of `s` between dots.
pub open spec fn split_dots(s: Seq<char>) -> Seq<Seq<char>>
    decreases s.len(),
{
    if s.len() == 0 {
        seq![Seq::empty()]
    } else {
        let p = split_dots(s.drop_last());
        if s.last() == '.' {
            p.push(Seq::empty())
        } else {
            p.update(p.len() - 1, p.last().push(s.last()))
        }
    }
}

proof fn lemma_split_nonempty(s: Seq<char>)
    ensures
        split_dots(s).len() >= 1,
    decreases s.len(),
{
    if s.len() > 0 {
        lemma_split_nonempty(s.drop_last());
    }
}

/// The four octets of a dotted IPv4 address, if `s` is one.
pub open spec fn ipv4_octets(s: Seq<char>) -> Option<Seq<int>> {
    let p = split_dots(s);
    if p.len() == 4 && forall|i: int| 0 <= i < 4 ==> decimal_within(#[trigger] p[i], 255) {
        Some(Seq::new(4, |i: int| decimal_value(p[i])))
    } else {
        None
    }
}

/// The octets fall in a private (10/8, 172.16/12, 192.168/16), loopback
/// (127/8) or link-local (169.254/16) range.
pub open spec fn internal_octets(o: Seq<int>) -> bool {
    ||| o[0] == 10
    ||| (o[0] == 172 && 16 <= o[1] <= 31)
    ||| (o[0] == 192 && o[1] == 168)
    ||| o[0] == 127
    ||| (o[0] == 169 && o[1] == 254)
}

/// `s` is an IPv4 address in a private, loopback or link-local range.
pub open spec fn is_internal(s: Seq<char>) -> bool {
    match ipv4_octets(s) {
        Some(o) => internal_octets(o),
        None => false,
    }
}

fn split_on_dots(s: &Vec<char>) -> (r: Vec<Vec<char>>)
    ensures
        labels_of(r@) == split_dots(s@),
{
    let mut parts: Vec<Vec<char>> = Vec::new();
    let mut cur: Vec<char> = Vec::new();
    let mut i: usize = 0;
    while i < s.len()
        invariant
            i <= s@.len(),
            labels_of(parts@).push(cur@) == split_dots(s@.take(i as int)),
        decreases s@.len() - i,
    {
        let c = s[i];
        proof {
            assert(s@.take(i + 1).drop_last() =~= s@.take(i as int));
            lemma_split_nonempty(s@.take(i as int));
        }
        if c == '.' {
            let ghost before = labels_of(parts@).push(cur@);
            parts.push(cur);
            cur = Vec::new();
            proof {
                assert(labels_of(parts@) =~= before);
                assert(labels_of(parts@).push(cur@) =~= before.push(Seq::empty()));
            }
        } else {
            let ghost before = labels_of(parts@).push(cur@);
            cur.push(c);
            proof {
                assert(labels_of(parts@).push(cur@) =~= before.update(before.len() - 1, before.last().push(c)));
            }
        }
        i = i + 1;
    }
    assert(s@.take(i as int) =~= s@);
    let ghost before = labels_of(parts@).push(cur@);
    parts.push(cur);
    assert(labels_of(parts@) =~= before);
    parts
}

/// The four octets of `cs`, if it is a dotted IPv4 address.
pub fn octets_of(cs: &Vec<char>) -> (r: Option<Vec<u32>>)
    ensures
        r.is_some() == ipv4_octets(cs@).is_some(),
        r matches Some(o) ==> o@.len() == 4 && forall|k: int| 0 <= k < 4 ==> o@[k] == #[trigger] ipv4_octets(cs@).unwrap()[k],
{
    let parts = split_on_dots(cs);
    if parts.len() != 4 {
        return None;
    }
    let mut o: Vec<u32> = Vec::new();
    let mut i: usize = 0;
    while i < 4
        invariant
            i <= 4,
            parts@.len() == 4,
            labels_of(parts@) == split_dots(cs@),
            o@.len() == i,
            forall|k: int| 0 <= k < i ==> decimal_within(#[trigger] split_dots(cs@)[k], 255) && o@[k] == decimal_value(split_dots(cs@)[k]),
        decreases 4 - i,
    {
        assert(labels_of(parts@)[i as int] == parts@[i as int]@);
        match parse_decimal(&parts[i], 255) {
            Some(v) => { o.push(v); },
            None => {
                assert(!decimal_within(split_dots(cs@)[i as int], 255));
                assert(ipv4_octets(cs@) is None);
                return None;
            },
        }
        i = i + 1;
    }
    assert(ipv4_octets(cs@).is_some());
    Some(o)
}

/// Whether the textual address `s` is an IPv4 address in a private,
/// loopback or link-local range; anything that is not a dotted IPv4 address
/// is not.
pub fn is_internal_address(s: &str) -> (r: bool)
    ensures
        r == is_internal(s@),
{
    let cs = crate::normalize::chars_of(s);
    match octets_of(&cs) {
        None => false,
        Some(o) => {
            let ghost oc = ipv4_octets(cs@).unwrap();
            assert(oc[0] == o@[0] && oc[1] == o@[1]);
            o[0] == 10 || (o[0] == 172 && 16 <= o[1] && o[1] <= 31) || (o[0] == 192 && o[1] == 168) || o[0] == 127 || (o[0] == 169 && o[1] == 254)
        },
    }
}

} // verus!
