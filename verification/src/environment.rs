//! Environment overrides: names with a value each, no name twice, in the order of the names.

use vstd::prelude::*;

use crate::text::chars_of;

verus! {

broadcast use {vstd::string::group_string_axioms, vstd::seq_lib::group_seq_properties};

/// `a` comes before `b` in the order of their characters, a text before every longer one that
/// starts with it.
pub open spec fn precedes(a: Seq<char>, b: Seq<char>) -> bool
    decreases a.len(),
{
    if b.len() == 0 {
        false
    } else if a.len() == 0 {
        true
    } else if a[0] == b[0] {
        precedes(a.drop_first(), b.drop_first())
    } else {
        a[0] < b[0]
    }
}

/// Name and value pairs as plain text.
pub open spec fn pairs_view(pairs: Seq<(String, String)>) -> Seq<(Seq<char>, Seq<char>)> {
    pairs.map_values(|pair: (String, String)| (pair.0@, pair.1@))
}

/// Every name comes before the ones behind it.
pub open spec fn in_name_order(pairs: Seq<(Seq<char>, Seq<char>)>) -> bool {
    forall|i: int, j: int|
        0 <= i < j < pairs.len() ==> precedes((#[trigger] pairs[i]).0, (#[trigger] pairs[j]).0)
}

/// No name is mentioned twice.
pub open spec fn names_once(pairs: Seq<(Seq<char>, Seq<char>)>) -> bool {
    forall|i: int, j: int|
        0 <= i < pairs.len() && 0 <= j < pairs.len() && (#[trigger] pairs[i]).0 == (
        #[trigger] pairs[j]).0 ==> i == j
}

/// The value `pairs` give `name`, or nothing.
pub open spec fn value_of(pairs: Seq<(Seq<char>, Seq<char>)>, name: Seq<char>) -> Option<Seq<char>>
    decreases pairs.len(),
{
    if pairs.len() == 0 {
        None
    } else if pairs.last().0 == name {
        Some(pairs.last().1)
    } else {
        value_of(pairs.drop_last(), name)
    }
}

/// `pairs` with `name` set to `value`: where the name is there already its value is replaced, and
/// where it is not the pair goes between the names it comes behind and those it comes before.
pub open spec fn with_value(
    pairs: Seq<(Seq<char>, Seq<char>)>,
    name: Seq<char>,
    value: Seq<char>,
) -> Seq<(Seq<char>, Seq<char>)> {
    pairs.filter(|pair: (Seq<char>, Seq<char>)| precedes(pair.0, name)).push((name, value))
        + pairs.filter(|pair: (Seq<char>, Seq<char>)| precedes(name, pair.0))
}

/// Environment overrides.
#[derive(Debug, PartialEq, Eq)]
pub struct Environment {
    pairs: Vec<(String, String)>,
}

impl View for Environment {
    type V = Seq<(Seq<char>, Seq<char>)>;

    closed spec fn view(&self) -> Seq<(Seq<char>, Seq<char>)> {
        pairs_view(self.pairs@)
    }
}

/// `a` comes before `b`.
fn comes_before(a: &str, b: &str) -> (before: bool)
    ensures
        before == precedes(a@, b@),
{
    let left = chars_of(a);
    let right = chars_of(b);
    let mut i: usize = 0;
    proof {
        assert(a@.skip(0) =~= a@);
        assert(b@.skip(0) =~= b@);
    }
    while i < left.len() && i < right.len()
        invariant
            left@ == a@,
            right@ == b@,
            i <= left.len(),
            i <= right.len(),
            precedes(a@, b@) == precedes(a@.skip(i as int), b@.skip(i as int)),
        decreases left.len() - i,
    {
        proof {
            assert(a@.skip(i as int).drop_first() =~= a@.skip(i + 1));
            assert(b@.skip(i as int).drop_first() =~= b@.skip(i + 1));
            assert(a@.skip(i as int)[0] == left@[i as int]);
            assert(b@.skip(i as int)[0] == right@[i as int]);
        }
        if left[i] != right[i] {
            return left[i] < right[i];
        }
        i = i + 1;
    }
    i < right.len()
}

proof fn lemma_nothing_precedes_itself(a: Seq<char>)
    ensures
        !precedes(a, a),
    decreases a.len(),
{
    if a.len() > 0 {
        lemma_nothing_precedes_itself(a.drop_first());
    }
}

proof fn lemma_precedes_is_an_order(a: Seq<char>, b: Seq<char>, c: Seq<char>)
    ensures
        !precedes(a, a),
        precedes(a, b) ==> !precedes(b, a),
        precedes(a, b) && precedes(b, c) ==> precedes(a, c),
        precedes(a, b) || a == b || precedes(b, a),
    decreases a.len() + b.len() + c.len(),
{
    if a.len() > 0 && b.len() > 0 && a[0] == b[0] {
        if c.len() > 0 {
            lemma_precedes_is_an_order(a.drop_first(), b.drop_first(), c.drop_first());
        } else {
            lemma_precedes_is_an_order(a.drop_first(), b.drop_first(), c);
        }
        assert(a =~= seq![a[0]] + a.drop_first());
        assert(b =~= seq![b[0]] + b.drop_first());
    }
    lemma_nothing_precedes_itself(a);
    if a.len() == 0 && b.len() == 0 {
        assert(a =~= b);
    }
}

/// Names in order are mentioned once each.
pub proof fn lemma_ordered_names_are_distinct(pairs: Seq<(Seq<char>, Seq<char>)>)
    requires
        in_name_order(pairs),
    ensures
        names_once(pairs),
{
    assert forall|i: int, j: int|
        0 <= i < pairs.len() && 0 <= j < pairs.len() && (#[trigger] pairs[i]).0 == (
        #[trigger] pairs[j]).0 implies i == j by {
        lemma_precedes_is_an_order(pairs[i].0, pairs[i].0, pairs[i].0);
    }
}

proof fn lemma_filter_keeps_order(
    pairs: Seq<(Seq<char>, Seq<char>)>,
    kept: spec_fn((Seq<char>, Seq<char>)) -> bool,
)
    requires
        in_name_order(pairs),
    ensures
        in_name_order(pairs.filter(kept)),
        forall|i: int|
            0 <= i < pairs.filter(kept).len() ==> kept(#[trigger] pairs.filter(kept)[i])
                && pairs.contains(pairs.filter(kept)[i]),
        forall|i: int|
            0 <= i < pairs.len() && kept(#[trigger] pairs[i]) ==> pairs.filter(kept).contains(
                pairs[i],
            ),
    decreases pairs.len(),
{
    reveal(Seq::filter);
    let some = pairs.filter(kept);
    if pairs.len() > 0 {
        let rest = pairs.drop_last();
        let earlier = rest.filter(kept);
        assert(forall|i: int| 0 <= i < rest.len() ==> rest[i] == #[trigger] pairs[i]);
        assert(in_name_order(rest));
        lemma_filter_keeps_order(rest, kept);
        assert forall|i: int| 0 <= i < some.len() implies kept(#[trigger] some[i])
            && pairs.contains(some[i]) by {
            if i < earlier.len() {
                assert(some[i] == earlier[i]);
                let at = choose|at: int| 0 <= at < rest.len() && rest[at] == earlier[i];
                assert(pairs[at] == some[i]);
            } else {
                assert(pairs[pairs.len() - 1] == some[i]);
            }
        }
        assert forall|i: int| 0 <= i < pairs.len() && kept(#[trigger] pairs[i]) implies some.contains(
            pairs[i],
        ) by {
            if i < rest.len() {
                assert(kept(rest[i]));
                let at = choose|at: int| 0 <= at < earlier.len() && earlier[at] == rest[i];
                assert(some[at] == pairs[i]);
            } else {
                assert(some.last() == pairs[i]);
            }
        }
        assert forall|i: int, j: int| 0 <= i < j < some.len() implies precedes(
            (#[trigger] some[i]).0,
            (#[trigger] some[j]).0,
        ) by {
            assert(some[i] == earlier[i]);
            if j < earlier.len() {
                assert(some[j] == earlier[j]);
            } else {
                let at = choose|at: int| 0 <= at < rest.len() && rest[at] == earlier[i];
                assert(pairs[at] == some[i]);
                assert(pairs[pairs.len() - 1] == some[j]);
            }
        }
    }
}

proof fn lemma_with_value_keeps_order(
    pairs: Seq<(Seq<char>, Seq<char>)>,
    name: Seq<char>,
    value: Seq<char>,
)
    requires
        in_name_order(pairs),
    ensures
        in_name_order(with_value(pairs, name, value)),
{
    let before = |pair: (Seq<char>, Seq<char>)| precedes(pair.0, name);
    let behind = |pair: (Seq<char>, Seq<char>)| precedes(name, pair.0);
    let head = pairs.filter(before);
    let tail = pairs.filter(behind);
    let all = with_value(pairs, name, value);
    lemma_filter_keeps_order(pairs, before);
    lemma_filter_keeps_order(pairs, behind);
    assert forall|i: int, j: int| 0 <= i < j < all.len() implies precedes(
        (#[trigger] all[i]).0,
        (#[trigger] all[j]).0,
    ) by {
        if i < head.len() {
            assert(all[i] == head[i] && before(head[i]));
        }
        if j > head.len() {
            assert(all[j] == tail[j - head.len() - 1] && behind(tail[j - head.len() - 1]));
        }
        if j < head.len() {
            assert(all[j] == head[j]);
        }
        if i > head.len() {
            assert(all[i] == tail[i - head.len() - 1]);
        }
        lemma_precedes_is_an_order(all[i].0, name, all[j].0);
    }
}

/// Where no name is mentioned twice, a name's value is the one it stands beside.
pub proof fn lemma_value_of(
    pairs: Seq<(Seq<char>, Seq<char>)>,
    name: Seq<char>,
    value: Seq<char>,
)
    requires
        names_once(pairs),
    ensures
        value_of(pairs, name) == Some(value) <==> pairs.contains((name, value)),
    decreases pairs.len(),
{
    if pairs.len() > 0 {
        let rest = pairs.drop_last();
        assert(forall|i: int| 0 <= i < rest.len() ==> rest[i] == #[trigger] pairs[i]);
        assert(pairs[pairs.len() - 1] == pairs.last());
        lemma_value_of(rest, name, value);
        if pairs.contains((name, value)) {
            let at = choose|at: int| 0 <= at < pairs.len() && pairs[at] == (name, value);
            if at < rest.len() {
                assert(rest[at] == (name, value));
                assert(pairs.last().0 != name);
            }
        }
        if rest.contains((name, value)) {
            let at = choose|at: int| 0 <= at < rest.len() && rest[at] == (name, value);
            assert(pairs[at] == (name, value));
        }
    }
}

impl Environment {
    #[verifier::type_invariant]
    spec fn ordered(&self) -> bool {
        in_name_order(pairs_view(self.pairs@))
    }

    /// No overrides.
    pub fn new() -> (environment: Self)
        ensures
            environment@ == Seq::<(Seq<char>, Seq<char>)>::empty(),
    {
        let pairs: Vec<(String, String)> = Vec::new();
        proof {
            assert(pairs_view(pairs@) =~= Seq::<(Seq<char>, Seq<char>)>::empty());
        }
        Environment { pairs }
    }

    /// Sets `name` to `value`, in place of the value it had.
    pub fn insert(&mut self, name: String, value: String)
        ensures
            final(self)@ == with_value(old(self)@, name@, value@),
            in_name_order(final(self)@),
    {
        proof {
            use_type_invariant(&*self);
        }
        let ghost all = self@;
        let ghost before = |pair: (Seq<char>, Seq<char>)| precedes(pair.0, name@);
        let ghost behind = |pair: (Seq<char>, Seq<char>)| precedes(name@, pair.0);
        let mut head: Vec<(String, String)> = Vec::new();
        let mut tail: Vec<(String, String)> = Vec::new();
        let mut i: usize = 0;
        proof {
            reveal(Seq::filter);
            assert(pairs_view(head@) =~= all.take(0).filter(before));
            assert(pairs_view(tail@) =~= all.take(0).filter(behind));
        }
        while i < self.pairs.len()
            invariant
                i <= self.pairs.len(),
                all == pairs_view(self.pairs@),
                before == (|pair: (Seq<char>, Seq<char>)| precedes(pair.0, name@)),
                behind == (|pair: (Seq<char>, Seq<char>)| precedes(name@, pair.0)),
                pairs_view(head@) == all.take(i as int).filter(before),
                pairs_view(tail@) == all.take(i as int).filter(behind),
            decreases self.pairs.len() - i,
        {
            proof {
                reveal(Seq::filter);
                assert(all.take(i + 1).drop_last() =~= all.take(i as int));
                assert(all.take(i + 1).last() == all[i as int]);
                lemma_precedes_is_an_order(all[i as int].0, name@, name@);
            }
            let ghost head_before = head@;
            let ghost tail_before = tail@;
            let pair = (self.pairs[i].0.clone(), self.pairs[i].1.clone());
            if comes_before(pair.0.as_str(), name.as_str()) {
                head.push(pair);
                proof {
                    assert(pairs_view(head@) =~= pairs_view(head_before).push(all[i as int]));
                }
            } else if comes_before(name.as_str(), pair.0.as_str()) {
                tail.push(pair);
                proof {
                    assert(pairs_view(tail@) =~= pairs_view(tail_before).push(all[i as int]));
                }
            }
            i = i + 1;
        }
        let ghost first = head@;
        let ghost last = tail@;
        head.push((name, value));
        head.append(&mut tail);
        proof {
            assert(all.take(i as int) =~= all);
            assert(pairs_view(head@) =~= pairs_view(first).push((name@, value@)) + pairs_view(last));
            lemma_with_value_keeps_order(all, name@, value@);
        }
        *self = Environment { pairs: head };
    }

    /// The overrides in the order of their names, no name twice.
    pub fn pairs(&self) -> (pairs: &Vec<(String, String)>)
        ensures
            pairs_view(pairs@) == self@,
            in_name_order(self@),
            names_once(self@),
    {
        proof {
            use_type_invariant(self);
            lemma_ordered_names_are_distinct(self@);
        }
        &self.pairs
    }
}

impl Clone for Environment {
    fn clone(&self) -> (copy: Self)
        ensures
            copy@ == self@,
    {
        proof {
            use_type_invariant(self);
        }
        let mut pairs: Vec<(String, String)> = Vec::new();
        let mut i: usize = 0;
        while i < self.pairs.len()
            invariant
                i <= self.pairs.len(),
                pairs@.len() == i,
                forall|k: int|
                    0 <= k < i ==> (#[trigger] pairs@[k]).0@ == self.pairs@[k].0@ && pairs@[k].1@
                        == self.pairs@[k].1@,
            decreases self.pairs.len() - i,
        {
            pairs.push((self.pairs[i].0.clone(), self.pairs[i].1.clone()));
            i = i + 1;
        }
        proof {
            assert(pairs_view(pairs@) =~= pairs_view(self.pairs@));
        }
        Environment { pairs }
    }
}

/// A name that was set reads as what it was set to, and every other one as it did before.
pub proof fn law_a_set_variable_is_read_back(
    pairs: Seq<(Seq<char>, Seq<char>)>,
    name: Seq<char>,
    value: Seq<char>,
    other: Seq<char>,
)
    requires
        in_name_order(pairs),
    ensures
        value_of(with_value(pairs, name, value), name) == Some(value),
        other != name ==> value_of(with_value(pairs, name, value), other) == value_of(pairs, other),
{
    let before = |pair: (Seq<char>, Seq<char>)| precedes(pair.0, name);
    let behind = |pair: (Seq<char>, Seq<char>)| precedes(name, pair.0);
    let head = pairs.filter(before);
    let tail = pairs.filter(behind);
    let all = with_value(pairs, name, value);
    lemma_filter_keeps_order(pairs, before);
    lemma_filter_keeps_order(pairs, behind);
    lemma_with_value_keeps_order(pairs, name, value);
    lemma_ordered_names_are_distinct(pairs);
    lemma_ordered_names_are_distinct(all);
    assert(all[head.len() as int] == (name, value));
    lemma_value_of(all, name, value);
    if other != name {
        assert forall|was: Seq<char>| pairs.contains((other, was)) <==> #[trigger] all.contains(
            (other, was),
        ) by {
            if pairs.contains((other, was)) {
                let at = choose|at: int| 0 <= at < pairs.len() && pairs[at] == (other, was);
                lemma_precedes_is_an_order(other, name, name);
                if before(pairs[at]) {
                    let k = choose|k: int| 0 <= k < head.len() && head[k] == pairs[at];
                    assert(all[k] == (other, was));
                } else {
                    assert(behind(pairs[at]));
                    let k = choose|k: int| 0 <= k < tail.len() && tail[k] == pairs[at];
                    assert(all[head.len() + 1 + k] == (other, was));
                }
            }
            if all.contains((other, was)) {
                let k = choose|k: int| 0 <= k < all.len() && all[k] == (other, was);
                if k < head.len() {
                    assert(head[k] == (other, was));
                } else {
                    assert(tail[k - head.len() - 1] == (other, was));
                }
            }
        }
        match value_of(pairs, other) {
            Some(was) => {
                lemma_value_of(pairs, other, was);
                lemma_value_of(all, other, was);
            },
            None => {
                if let Some(now) = value_of(all, other) {
                    lemma_value_of(pairs, other, now);
                    lemma_value_of(all, other, now);
                }
            },
        }
    }
}

/// Two names are ordered by the first character in which they differ, and one that the other goes
/// on from comes first.
pub proof fn law_names_are_ordered_by_their_first_difference(a: Seq<char>, b: Seq<char>, at: nat)
    requires
        at <= a.len(),
        at <= b.len(),
        a.take(at as int) == b.take(at as int),
    ensures
        at == a.len() && at < b.len() ==> precedes(a, b),
        at == b.len() ==> !precedes(a, b),
        at < a.len() && at < b.len() && a[at as int] != b[at as int] ==> (precedes(a, b) <==> a[at as int]
            < b[at as int]),
    decreases at,
{
    if at > 0 {
        let n = at as int;
        assert(a[0] == a.take(n)[0]);
        assert(b[0] == b.take(n)[0]);
        assert(a.drop_first().take(n - 1) =~= a.take(n).skip(1));
        assert(b.drop_first().take(n - 1) =~= b.take(n).skip(1));
        law_names_are_ordered_by_their_first_difference(
            a.drop_first(),
            b.drop_first(),
            (at - 1) as nat,
        );
    }
}

/// Setting a name leaves the pairs in the order of their names, no name twice, and its own pair
/// among them.
pub proof fn law_a_pair_is_in_its_place(
    pairs: Seq<(Seq<char>, Seq<char>)>,
    name: Seq<char>,
    value: Seq<char>,
)
    requires
        in_name_order(pairs),
    ensures
        in_name_order(with_value(pairs, name, value)),
        names_once(with_value(pairs, name, value)),
        with_value(pairs, name, value).contains((name, value)),
{
    let head = pairs.filter(|pair: (Seq<char>, Seq<char>)| precedes(pair.0, name));
    lemma_with_value_keeps_order(pairs, name, value);
    lemma_ordered_names_are_distinct(with_value(pairs, name, value));
    assert(with_value(pairs, name, value)[head.len() as int] == (name, value));
}

} // verus!
