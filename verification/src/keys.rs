//! The keys of the store: how a natural key is spelled out in bytes, and the
//! order in which the backend walks keys.

use crate::data::{MatchInfoView, MatchType, RobotInfoView};
use vstd::prelude::*;

verus! {

/// The decimal digits of `n` as text.
pub open spec fn decimal(n: nat) -> Seq<u8>
    decreases n,
{
    if n < 10 {
        seq![(48 + n) as u8]
    } else {
        decimal(n / 10).push((48 + n % 10) as u8)
    }
}

/// The text `match_`.
pub open spec fn match_prefix() -> Seq<u8> {
    seq![109u8, 97u8, 116u8, 99u8, 104u8, 95u8]
}

/// The text `robot_`.
pub open spec fn robot_prefix() -> Seq<u8> {
    seq![114u8, 111u8, 98u8, 111u8, 116u8, 95u8]
}

/// The name of a category as text: `Qualification` or `Practice`.
pub open spec fn category_text(category: MatchType) -> Seq<u8> {
    match category {
        MatchType::Qualification => seq![
            81u8,
            117u8,
            97u8,
            108u8,
            105u8,
            102u8,
            105u8,
            99u8,
            97u8,
            116u8,
            105u8,
            111u8,
            110u8,
        ],
        MatchType::Practice => seq![80u8, 114u8, 97u8, 99u8, 116u8, 105u8, 99u8, 101u8],
    }
}

/// The key under which a match record is stored: `match_`, the match number,
/// the category and the team number, with `_` between them.
pub open spec fn match_key(number: u32, category: MatchType, team: u32) -> Seq<u8> {
    match_prefix() + decimal(number as nat) + seq![95u8] + category_text(category) + seq![95u8]
        + decimal(team as nat)
}

/// The key under which a pit visit is stored: `robot_`, the team number and
/// the visit number, with `_` between them.
pub open spec fn robot_key(team: u32, visit: u32) -> Seq<u8> {
    robot_prefix() + decimal(team as nat) + seq![95u8] + decimal(visit as nat)
}

/// Whether `key` begins with `prefix`.
pub open spec fn has_prefix(key: Seq<u8>, prefix: Seq<u8>) -> bool {
    key.len() >= prefix.len() && key.take(prefix.len() as int) == prefix
}

/// A match key begins with `match_`, a visit key with `robot_`, and no key
/// begins with both.
pub proof fn lemma_key_prefixes(number: u32, category: MatchType, team: u32, visit: u32)
    ensures
        has_prefix(match_key(number, category, team), match_prefix()),
        has_prefix(robot_key(team, visit), robot_prefix()),
        forall|key: Seq<u8>| !(has_prefix(key, match_prefix()) && has_prefix(key, robot_prefix())),
{
    let mk = match_key(number, category, team);
    assert(mk.take(6) =~= match_prefix());
    let rk = robot_key(team, visit);
    assert(rk.take(6) =~= robot_prefix());
    assert forall|key: Seq<u8>|
        !(has_prefix(key, match_prefix()) && has_prefix(key, robot_prefix())) by {
        if has_prefix(key, match_prefix()) && has_prefix(key, robot_prefix()) {
            assert(key.take(6)[0] == 109u8);
            assert(key.take(6)[0] == 114u8);
        }
    }
}

/// Adds the decimal digits of `n` to `out`.
pub(crate) fn push_decimal(out: &mut Vec<u8>, n: u32)
    ensures
        final(out)@ == old(out)@ + decimal(n as nat),
{
    let ghost before = out@;
    let mut digits: Vec<u8> = Vec::new();
    let mut m: u32 = n / 10;
    digits.push((48 + n % 10) as u8);
    let ghost mut tail: Seq<u8> = seq![(48 + n % 10) as u8];
    assert(Seq::<u8>::empty() + tail =~= tail);
    while m > 0
        invariant
            digits@.len() == tail.len(),
            digits@.len() >= 1,
            forall|k: int| 0 <= k < tail.len() ==> digits@[k] == tail[tail.len() - 1 - k],
            decimal(n as nat) == (if m > 0 {
                decimal(m as nat)
            } else {
                Seq::<u8>::empty()
            }) + tail,
        decreases m,
    {
        let d: u8 = (48 + m % 10) as u8;
        proof {
            let next = seq![d] + tail;
            let lead = if m / 10 > 0 {
                decimal((m / 10) as nat)
            } else {
                Seq::<u8>::empty()
            };
            assert(decimal(m as nat) =~= lead + seq![d]);
            assert(decimal(m as nat) + tail =~= lead + next);
            assert forall|k: int| 0 <= k < next.len() implies digits@.push(d)[k] == next[next.len()
                - 1 - k] by {
                if k < tail.len() {
                    assert(next[next.len() - 1 - k] == tail[tail.len() - 1 - k]);
                }
            }
            tail = next;
        }
        digits.push(d);
        m = m / 10;
    }
    assert(decimal(n as nat) =~= tail);
    let mut k: usize = digits.len();
    assert(tail.take(0) =~= Seq::empty());
    assert(before + Seq::<u8>::empty() =~= before);
    while k > 0
        invariant
            k <= digits.len(),
            digits@.len() == tail.len(),
            forall|j: int| 0 <= j < tail.len() ==> digits@[j] == tail[tail.len() - 1 - j],
            out@ == before + tail.take(tail.len() - k),
        decreases k,
    {
        k -= 1;
        out.push(digits[k]);
        assert(tail.take(tail.len() - k) =~= tail.take(tail.len() - k - 1).push(
            tail[tail.len() - k - 1],
        ));
        assert(out@ =~= before + tail.take(tail.len() - k));
    }
    assert(tail.take(tail.len() as int) =~= tail);
}

/// Adds the bytes of `text` to `out`.
pub(crate) fn push_bytes(out: &mut Vec<u8>, text: &Vec<u8>)
    ensures
        final(out)@ == old(out)@ + text@,
{
    let ghost before = out@;
    let mut i: usize = 0;
    assert(before + text@.take(0) =~= before);
    while i < text.len()
        invariant
            i <= text.len(),
            out@ == before + text@.take(i as int),
        decreases text.len() - i,
    {
        out.push(text[i]);
        assert(text@.take(i + 1) =~= text@.take(i as int).push(text@[i as int]));
        assert(before + text@.take(i as int).push(text@[i as int]) =~= (before + text@.take(
            i as int,
        )).push(text@[i as int]));
        i += 1;
    }
    assert(text@.take(i as int) =~= text@);
}

/// The name of a category as text.
pub(crate) fn category_text_of(category: MatchType) -> (text: Vec<u8>)
    ensures
        text@ == category_text(category),
{
    let text = match category {
        MatchType::Qualification => vec![
            81u8,
            117u8,
            97u8,
            108u8,
            105u8,
            102u8,
            105u8,
            99u8,
            97u8,
            116u8,
            105u8,
            111u8,
            110u8,
        ],
        MatchType::Practice => vec![80u8, 114u8, 97u8, 99u8, 116u8, 105u8, 99u8, 101u8],
    };
    assert(text@ =~= category_text(category));
    text
}

/// The key under which a match record is stored.
pub open spec fn match_key_of(r: MatchInfoView) -> Seq<u8> {
    match_key(r.match_number, r.match_category, r.team_number)
}

/// The key under which a pit visit is stored.
pub open spec fn robot_key_of(r: RobotInfoView) -> Seq<u8> {
    robot_key(r.team_number, r.visit_number)
}

/// The number that a text of decimal digits writes.
pub open spec fn decimal_number(text: Seq<u8>) -> nat
    decreases text.len(),
{
    if text.len() == 0 {
        0
    } else {
        10 * decimal_number(text.drop_last()) + (text.last() - 48) as nat
    }
}

/// The decimal digits of a number are digits, at least one, and write that
/// number.
pub proof fn lemma_decimal(n: nat)
    ensures
        decimal(n).len() >= 1,
        forall|i: int| 0 <= i < decimal(n).len() ==> 48 <= #[trigger] decimal(n)[i] <= 57,
        decimal_number(decimal(n)) == n,
    decreases n,
{
    if n < 10 {
        assert(decimal(n).drop_last() =~= Seq::empty());
        assert(decimal(n).last() == (48 + n) as u8);
        assert(decimal_number(decimal(n).drop_last()) == 0);
        assert(decimal_number(decimal(n)) == 10 * 0 + ((48 + n) as u8 - 48) as nat);
    } else {
        lemma_decimal(n / 10);
        let d = decimal(n / 10);
        assert(decimal(n).drop_last() =~= d);
        assert(decimal(n).last() == (48 + n % 10) as u8);
        assert(decimal_number(decimal(n)) == 10 * decimal_number(d) + ((48 + n % 10) as u8
            - 48) as nat);
    }
}

/// Two texts that agree up to and beyond an underscore, each free of
/// underscores before it, agree before it and after it.
proof fn lemma_split(a: Seq<u8>, x: Seq<u8>, b: Seq<u8>, y: Seq<u8>)
    requires
        a + seq![95u8] + x == b + seq![95u8] + y,
        forall|i: int| 0 <= i < a.len() ==> #[trigger] a[i] != 95,
        forall|i: int| 0 <= i < b.len() ==> #[trigger] b[i] != 95,
    ensures
        a == b,
        x == y,
{
    let left = a + seq![95u8] + x;
    let right = b + seq![95u8] + y;
    if a.len() < b.len() {
        assert(left[a.len() as int] == 95);
        assert(right[a.len() as int] == b[a.len() as int]);
    } else if b.len() < a.len() {
        assert(right[b.len() as int] == 95);
        assert(left[b.len() as int] == a[b.len() as int]);
    }
    assert(a =~= b) by {
        assert forall|i: int| 0 <= i < a.len() implies a[i] == b[i] by {
            assert(left[i] == a[i]);
            assert(right[i] == b[i]);
        }
    }
    assert(x =~= y) by {
        assert(x.len() == y.len()) by {
            assert(left.len() == a.len() + 1 + x.len());
            assert(right.len() == b.len() + 1 + y.len());
            assert(left == right);
            assert(a.len() == b.len());
        }
        assert forall|i: int| 0 <= i < x.len() implies x[i] == y[i] by {
            assert(left[a.len() + 1 + i] == x[i]);
            assert(right[b.len() + 1 + i] == y[i]);
        }
    }
}

/// The name of a category begins with a letter of its own and holds no
/// underscore.
proof fn lemma_category_text(category: MatchType)
    ensures
        category_text(category).len() >= 1,
        category_text(category)[0] == (match category {
            MatchType::Qualification => 81u8,
            MatchType::Practice => 80u8,
        }),
        forall|i: int|
            0 <= i < category_text(category).len() ==> #[trigger] category_text(category)[i] != 95,
{
}

/// What follows the first part of a text is its second part.
proof fn lemma_skip_first_part(a: Seq<u8>, b: Seq<u8>)
    ensures
        (a + b).skip(a.len() as int) == b,
{
    assert((a + b).skip(a.len() as int) =~= b);
}

/// A match key is `match_` and then the number, the category and the team.
proof fn lemma_match_key_parts(number: u32, category: MatchType, team: u32)
    ensures
        match_key(number, category, team) == match_prefix() + (decimal(number as nat) + seq![95u8]
            + (category_text(category) + seq![95u8] + decimal(team as nat))),
{
    assert(match_key(number, category, team) =~= match_prefix() + (decimal(number as nat)
        + seq![95u8] + (category_text(category) + seq![95u8] + decimal(team as nat))));
}

/// Records with different natural keys are stored under different keys.
pub proof fn lemma_match_key_injective(
    number: u32,
    category: MatchType,
    team: u32,
    number2: u32,
    category2: MatchType,
    team2: u32,
)
    requires
        match_key(number, category, team) == match_key(number2, category2, team2),
    ensures
        number == number2,
        category == category2,
        team == team2,
{
    let d1 = decimal(number as nat);
    let d2 = decimal(number2 as nat);
    let c1 = category_text(category);
    let c2 = category_text(category2);
    let t1 = decimal(team as nat);
    let t2 = decimal(team2 as nat);
    let rest1 = c1 + seq![95u8] + t1;
    let rest2 = c2 + seq![95u8] + t2;
    let body1 = d1 + seq![95u8] + rest1;
    let body2 = d2 + seq![95u8] + rest2;
    assert(body1 == body2) by {
        lemma_match_key_parts(number, category, team);
        lemma_match_key_parts(number2, category2, team2);
        lemma_skip_first_part(match_prefix(), body1);
        lemma_skip_first_part(match_prefix(), body2);
    }
    assert(d1 == d2 && rest1 == rest2) by {
        lemma_decimal(number as nat);
        lemma_decimal(number2 as nat);
        lemma_split(d1, rest1, d2, rest2);
    }
    assert(number == number2) by {
        lemma_decimal(number as nat);
        lemma_decimal(number2 as nat);
    }
    assert(category == category2) by {
        lemma_category_text(category);
        lemma_category_text(category2);
        assert(rest1[0] == c1[0]);
        assert(rest2[0] == c2[0]);
    }
    assert(t1 == t2) by {
        lemma_category_text(category);
        lemma_split(c1, t1, c2, t2);
    }
    assert(team == team2) by {
        lemma_decimal(team as nat);
        lemma_decimal(team2 as nat);
    }
}

/// Visits with different natural keys are stored under different keys.
pub proof fn lemma_robot_key_injective(team: u32, visit: u32, team2: u32, visit2: u32)
    requires
        robot_key(team, visit) == robot_key(team2, visit2),
    ensures
        team == team2,
        visit == visit2,
{
    let t1 = decimal(team as nat);
    let t2 = decimal(team2 as nat);
    let v1 = decimal(visit as nat);
    let v2 = decimal(visit2 as nat);
    let body1 = t1 + seq![95u8] + v1;
    let body2 = t2 + seq![95u8] + v2;
    assert(body1 == body2) by {
        assert(robot_key(team, visit) =~= robot_prefix() + body1);
        assert(robot_key(team2, visit2) =~= robot_prefix() + body2);
        lemma_skip_first_part(robot_prefix(), body1);
        lemma_skip_first_part(robot_prefix(), body2);
    }
    assert(t1 == t2 && v1 == v2) by {
        lemma_decimal(team as nat);
        lemma_decimal(team2 as nat);
        lemma_split(t1, v1, t2, v2);
    }
    lemma_decimal(team as nat);
    lemma_decimal(team2 as nat);
    lemma_decimal(visit as nat);
    lemma_decimal(visit2 as nat);
}

/// Whether `a` comes before `b` in the order of the backend: byte by byte,
/// and a text before every text that it begins.
pub open spec fn bytes_less(a: Seq<u8>, b: Seq<u8>) -> bool
    decreases a.len(),
{
    if b.len() == 0 {
        false
    } else if a.len() == 0 {
        true
    } else if a[0] != b[0] {
        a[0] < b[0]
    } else {
        bytes_less(a.drop_first(), b.drop_first())
    }
}

/// Whether each key comes before every key after it.
pub open spec fn ascending(order: Seq<Seq<u8>>) -> bool {
    forall|i: int, j: int| 0 <= i < j < order.len() ==> bytes_less(order[i], order[j])
}

/// Whether `order` holds the keys of the set, and no others, in rising order.
pub open spec fn lists_keys(order: Seq<Seq<u8>>, keys: Set<Seq<u8>>) -> bool {
    &&& ascending(order)
    &&& forall|key: Seq<u8>| order.contains(key) <==> keys.contains(key)
}

/// The keys of a set in rising order.
pub open spec fn sorted_keys(keys: Set<Seq<u8>>) -> Seq<Seq<u8>> {
    choose|order: Seq<Seq<u8>>| lists_keys(order, keys)
}

/// Of two keys, at most one comes before the other.
pub proof fn lemma_bytes_less_one_way(a: Seq<u8>, b: Seq<u8>)
    ensures
        !(bytes_less(a, b) && bytes_less(b, a)),
    decreases a.len(),
{
    if a.len() > 0 && b.len() > 0 && a[0] == b[0] {
        lemma_bytes_less_one_way(a.drop_first(), b.drop_first());
    }
}

/// There is one way only to list a set of keys in rising order.
pub proof fn lemma_one_listing(first: Seq<Seq<u8>>, second: Seq<Seq<u8>>, keys: Set<Seq<u8>>)
    requires
        lists_keys(first, keys),
        lists_keys(second, keys),
    ensures
        first == second,
    decreases first.len(),
{
    if first.len() == 0 {
        if second.len() > 0 {
            assert(second.contains(second[0]));
            assert(first.contains(second[0]));
        }
        assert(first =~= second);
    } else {
        let head = first[0];
        assert(first.contains(head));
        assert(second.contains(head));
        let k = choose|k: int| 0 <= k < second.len() && second[k] == head;
        assert(second.contains(second[0]));
        assert(first.contains(second[0]));
        let m = choose|m: int| 0 <= m < first.len() && first[m] == second[0];
        if k > 0 {
            assert(bytes_less(second[0], second[k]));
            if m > 0 {
                assert(bytes_less(first[0], first[m]));
            }
            lemma_bytes_less_one_way(second[0], head);
        }
        assert(second[0] == head);
        let rest1 = first.drop_first();
        let rest2 = second.drop_first();
        let fewer = keys.remove(head);
        assert(lists_keys(rest1, fewer)) by {
            lemma_rest_lists(first, keys);
        }
        assert(lists_keys(rest2, fewer)) by {
            lemma_rest_lists(second, keys);
        }
        lemma_one_listing(rest1, rest2, fewer);
        assert(first =~= seq![head] + rest1);
        assert(second =~= seq![head] + rest2);
    }
}

/// A rising list without its first key lists the set without that key.
proof fn lemma_rest_lists(order: Seq<Seq<u8>>, keys: Set<Seq<u8>>)
    requires
        lists_keys(order, keys),
        order.len() > 0,
    ensures
        lists_keys(order.drop_first(), keys.remove(order[0])),
{
    let head = order[0];
    let rest = order.drop_first();
    assert forall|i: int, j: int| 0 <= i < j < rest.len() implies bytes_less(rest[i], rest[j]) by {
        assert(rest[i] == order[i + 1] && rest[j] == order[j + 1]);
    }
    assert forall|key: Seq<u8>| rest.contains(key) <==> keys.remove(head).contains(key) by {
        if rest.contains(key) {
            let i = choose|i: int| 0 <= i < rest.len() && rest[i] == key;
            assert(order[i + 1] == key);
            assert(order.contains(key));
            assert(bytes_less(order[0], order[i + 1]));
            lemma_bytes_less_one_way(head, key);
        }
        if keys.remove(head).contains(key) {
            assert(order.contains(key));
            let i = choose|i: int| 0 <= i < order.len() && order[i] == key;
            assert(i > 0);
            assert(rest[i - 1] == key);
        }
    }
}

} // verus!
