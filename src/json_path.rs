//! Extracts a string from a JSON value tree by a dotted path of keys and
//! indices.
use vstd::prelude::*;

use crate::text::chars_of;

verus! {

/// A JSON value. Numbers keep their text; an object keeps its members in
/// order, with distinct keys.
pub enum JsonValue {
    Null,
    Bool(bool),
    Number(String),
    Str(String),
    Array(Vec<JsonValue>),
    Object(Vec<(String, JsonValue)>),
}

/// The pieces of `s` between occurrences of `c`, with `cur` put before the
/// first one.
pub open spec fn split_from(s: Seq<char>, c: char, cur: Seq<char>) -> Seq<Seq<char>>
    decreases s.len(),
{
    if s.len() == 0 {
        seq![cur]
    } else if s[0] == c {
        seq![cur] + split_from(s.drop_first(), c, Seq::empty())
    } else {
        split_from(s.drop_first(), c, cur.push(s[0]))
    }
}

/// The pieces of `s` between occurrences of `c`; never empty.
pub open spec fn split_on(s: Seq<char>, c: char) -> Seq<Seq<char>> {
    split_from(s, c, Seq::empty())
}

pub open spec fn is_digit(c: char) -> bool {
    '0' <= c && c <= '9'
}

/// The number that a string of decimal digits writes.
pub open spec fn digits_value(s: Seq<char>) -> nat
    decreases s.len(),
{
    if s.len() == 0 {
        0
    } else {
        digits_value(s.drop_last()) * 10 + (s.last() as nat - '0' as nat) as nat
    }
}

/// The digits of a segment once an optional leading `+` is dropped.
pub open spec fn unsigned_digits(seg: Seq<char>) -> Seq<char> {
    if seg.len() > 0 && seg[0] == '+' {
        seg.drop_first()
    } else {
        seg
    }
}

/// The index that a segment names, as `usize`'s `from_str` reads it: an
/// optional `+`, then one or more decimal digits, of a value that fits.
pub open spec fn segment_index(seg: Seq<char>) -> Option<nat> {
    let d = unsigned_digits(seg);
    if d.len() > 0 && (forall|i: int| 0 <= i < d.len() ==> is_digit(#[trigger] d[i]))
        && digits_value(d) <= usize::MAX {
        Some(digits_value(d))
    } else {
        None
    }
}

/// The value of the first member of `members` named `key`.
pub open spec fn member(members: Seq<(String, JsonValue)>, key: Seq<char>) -> Option<JsonValue>
    decreases members.len(),
{
    if members.len() == 0 {
        None
    } else if members[0].0@ == key {
        Some(members[0].1)
    } else {
        member(members.drop_first(), key)
    }
}

/// One step down the tree: an index into an array where the segment is a
/// number, a key into an object where it is not.
pub open spec fn step(v: JsonValue, seg: Seq<char>) -> Option<JsonValue> {
    match segment_index(seg) {
        Some(i) => match v {
            JsonValue::Array(items) => if i < items@.len() {
                Some(items@[i as int])
            } else {
                None
            },
            _ => None,
        },
        None => match v {
            JsonValue::Object(members) => member(members@, seg),
            _ => None,
        },
    }
}

/// The value reached from `v` by following `segs`, if every step exists.
pub open spec fn walk(v: JsonValue, segs: Seq<Seq<char>>) -> Option<JsonValue>
    decreases segs.len(),
{
    if segs.len() == 0 {
        Some(v)
    } else {
        match step(v, segs[0]) {
            Some(next) => walk(next, segs.drop_first()),
            None => None,
        }
    }
}

/// The string at `path` in `v`, if the path leads to a string.
pub open spec fn extracted(v: JsonValue, path: Seq<char>) -> Option<Seq<char>> {
    match walk(v, split_on(path, '.')) {
        Some(JsonValue::Str(s)) => Some(s@),
        _ => None,
    }
}

proof fn lemma_digits_prefix(s: Seq<char>, k: int)
    requires
        0 <= k <= s.len(),
    ensures
        digits_value(s) >= digits_value(s.subrange(0, k)),
    decreases s.len(),
{
    if k < s.len() {
        lemma_digits_prefix(s.drop_last(), k);
        assert(s.drop_last().subrange(0, k) =~= s.subrange(0, k));
    } else {
        assert(s.subrange(0, k) =~= s);
    }
}

/// The pieces of `s` between dots.
pub fn split_dots(s: &str) -> (r: Vec<Vec<char>>)
    ensures
        r@.len() == split_on(s@, '.').len(),
        forall|i: int| 0 <= i < r@.len() ==> #[trigger] r@[i]@ == split_on(s@, '.')[i],
{
    let chars = chars_of(s);
    let n = chars.len();
    let mut out: Vec<Vec<char>> = Vec::new();
    let mut cur: Vec<char> = Vec::new();
    let ghost done: Seq<Seq<char>> = Seq::empty();
    let mut k: usize = 0;
    assert(chars@.subrange(0, n as int) =~= chars@);
    assert(done + split_on(s@, '.') =~= split_on(s@, '.'));
    assert(cur@ =~= Seq::<char>::empty());
    while k < n
        invariant
            k <= n,
            n == chars.len(),
            chars@ == s@,
            out@.len() == done.len(),
            forall|i: int| 0 <= i < out@.len() ==> #[trigger] out@[i]@ == done[i],
            done + split_from(chars@.subrange(k as int, n as int), '.', cur@) == split_on(s@, '.'),
        decreases n - k,
    {
        let ghost rest = chars@.subrange(k as int, n as int);
        assert(rest.drop_first() =~= chars@.subrange(k + 1, n as int));
        if chars[k] == '.' {
            proof {
                assert(done + split_from(rest, '.', cur@) =~= done.push(cur@) + split_from(
                    rest.drop_first(),
                    '.',
                    Seq::empty(),
                ));
                done = done.push(cur@);
            }
            out.push(cur);
            cur = Vec::new();
        } else {
            cur.push(chars[k]);
        }
        k = k + 1;
    }
    proof {
        assert(split_from(chars@.subrange(k as int, n as int), '.', cur@) == seq![cur@]);
        done = done.push(cur@);
    }
    out.push(cur);
    out
}

/// The index that `seg` names, as `usize`'s `from_str` reads it.
pub fn parse_index(seg: &Vec<char>) -> (r: Option<usize>)
    ensures
        r matches Some(i) ==> segment_index(seg@) == Some(i as nat),
        r is None ==> segment_index(seg@) is None,
{
    let start: usize = if seg.len() > 0 && seg[0] == '+' {
        1
    } else {
        0
    };
    let ghost d = unsigned_digits(seg@);
    assert(d =~= seg@.subrange(start as int, seg.len() as int));
    if start >= seg.len() {
        return None;
    }
    let mut v: usize = 0;
    let mut k: usize = start;
    while k < seg.len()
        invariant
            start <= k <= seg.len(),
            d == seg@.subrange(start as int, seg.len() as int),
            d == unsigned_digits(seg@),
            d.len() > 0,
            forall|i: int| 0 <= i < k - start ==> is_digit(#[trigger] d[i]),
            v as nat == digits_value(d.subrange(0, k - start)),
        decreases seg.len() - k,
    {
        let c = seg[k];
        assert(d[k - start] == c);
        if !('0' <= c && c <= '9') {
            assert(!is_digit(d[k - start]));
            return None;
        }
        let digit: usize = (c as u32 - '0' as u32) as usize;
        let ghost pre = d.subrange(0, k - start);
        let ghost next = d.subrange(0, k + 1 - start);
        assert(next.drop_last() =~= pre);
        if v > (usize::MAX - digit) / 10 {
            assert(v * 10 + digit > usize::MAX) by (nonlinear_arith)
                requires
                    v > (usize::MAX - digit) / 10,
                    digit <= 9,
            ;
            proof {
                assert(digits_value(next) == v * 10 + digit);
                lemma_digits_prefix(d, k + 1 - start);
            }
            return None;
        }
        assert(v * 10 + digit <= usize::MAX) by (nonlinear_arith)
            requires
                v <= (usize::MAX - digit) / 10,
                digit <= 9,
        ;
        v = v * 10 + digit;
        k = k + 1;
    }
    assert(d.subrange(0, d.len() as int) =~= d);
    Some(v)
}

/// The value of the first member of `members` named `key`.
fn find_member<'a>(members: &'a Vec<(String, JsonValue)>, key: &Vec<char>) -> (r: Option<
    &'a JsonValue,
>)
    ensures
        r matches Some(x) ==> member(members@, key@) == Some(*x),
        r is None ==> member(members@, key@) is None,
{
    let mut i: usize = 0;
    assert(members@.subrange(0, members@.len() as int) =~= members@);
    while i < members.len()
        invariant
            i <= members.len(),
            member(members@, key@) == member(members@.subrange(i as int, members@.len() as int), key@),
        decreases members.len() - i,
    {
        let ghost rest = members@.subrange(i as int, members@.len() as int);
        assert(rest.drop_first() =~= members@.subrange(i + 1, members@.len() as int));
        assert(rest[0] == members@[i as int]);
        let name = chars_of(members[i].0.as_str());
        if name.len() == key.len() && crate::text::matches_at(&name, key, 0) {
            assert(name@ =~= key@);
            return Some(&members[i].1);
        }
        assert(name@ != key@) by {
            if name@ == key@ {
                assert(name@.subrange(0, key@.len() as int) =~= name@);
            }
        }
        i = i + 1;
    }
    None
}

/// The string at the dotted `path` in `v`: each segment that reads as an
/// index picks an element of an array, any other picks a member of an
/// object. `None` where a step is missing or the end is not a string.
pub fn extract_json_path(v: &JsonValue, path: &str) -> (r: Option<String>)
    ensures
        r matches Some(s) ==> extracted(*v, path@) == Some(s@),
        r is None ==> extracted(*v, path@) is None,
{
    let segs = split_dots(path);
    let ghost gs = split_on(path@, '.');
    let mut cur: &JsonValue = v;
    let mut i: usize = 0;
    assert(gs.subrange(0, gs.len() as int) =~= gs);
    while i < segs.len()
        invariant
            i <= segs.len(),
            gs == split_on(path@, '.'),
            segs@.len() == gs.len(),
            forall|j: int| 0 <= j < segs@.len() ==> #[trigger] segs@[j]@ == gs[j],
            walk(*v, gs) == walk(*cur, gs.subrange(i as int, gs.len() as int)),
        decreases segs.len() - i,
    {
        let ghost rest = gs.subrange(i as int, gs.len() as int);
        assert(rest.drop_first() =~= gs.subrange(i + 1, gs.len() as int));
        assert(rest[0] == segs@[i as int]@);
        let seg = &segs[i];
        let next: Option<&JsonValue> = match parse_index(seg) {
            Some(idx) => match cur {
                JsonValue::Array(items) => if idx < items.len() {
                    Some(&items[idx])
                } else {
                    None
                },
                _ => None,
            },
            None => match cur {
                JsonValue::Object(members) => find_member(members, seg),
                _ => None,
            },
        };
        match next {
            Some(n) => {
                cur = n;
            },
            None => {
                assert(step(*cur, rest[0]) is None);
                assert(walk(*cur, rest) is None);

                return None;
            },
        }
        i = i + 1;
    }
    assert(gs.subrange(i as int, gs.len() as int) =~= Seq::<Seq<char>>::empty());
    match cur {
        JsonValue::Str(s) => Some(s.clone()),
        _ => None,
    }
}

} // verus!
