//! Which result URLs are replaced, and what others weigh.

use crate::config::{host_part, path_part, HostAndPath};
use crate::number::Binary64;
use crate::order::{
    arranged, descending, lemma_arranged_multiset, lemma_descending, lemma_falling_keys, precedes,
    sort_descending,
};
use crate::text::same_text;
use vstd::prelude::*;
use vstd::utf8::encode_utf8;

verus! {

/// A host and a path.
pub type Place = (Seq<char>, Seq<char>);

/// A place and what it is replaced by.
pub type Rule = (Place, Place);

/// A place and its weight.
pub type PlaceWeight = (Place, Binary64);

#[derive(Debug, Clone)]
pub struct UrlsConfig {
    /// The places that are replaced, and what they are replaced by.
    pub replace: Vec<(HostAndPath, HostAndPath)>,
    /// The weights of places, the longest ones first.
    pub weight: Vec<(HostAndPath, Binary64)>,
}

/// Partial overlay for `UrlsConfig`. The entries stand in the order in which
/// they are to be taken.
#[derive(Debug, Default)]
pub struct PartialUrlsConfig {
    /// Places and what they are replaced by; nothing takes the rule away.
    pub replace: Vec<(String, String)>,
    pub weight: Vec<(String, Binary64)>,
}

/// The place that `s` names.
pub open spec fn place_of(s: Seq<char>) -> Place {
    (host_part(s), path_part(s))
}

/// The rules of a configuration.
pub open spec fn rules(replace: Seq<(HostAndPath, HostAndPath)>) -> Seq<Rule> {
    replace.map_values(|r: (HostAndPath, HostAndPath)| (r.0@, r.1@))
}

/// The weights of a configuration.
pub open spec fn weights(weight: Seq<(HostAndPath, Binary64)>) -> Seq<PlaceWeight> {
    weight.map_values(|w: (HostAndPath, Binary64)| (w.0@, w.1))
}

/// The characters of replacement entries.
pub open spec fn replacements(entries: Seq<(String, String)>) -> Seq<(Seq<char>, Seq<char>)> {
    entries.map_values(|e: (String, String)| (e.0@, e.1@))
}

/// The characters of weight entries.
pub open spec fn weight_entries(entries: Seq<(String, Binary64)>) -> Seq<(Seq<char>, Binary64)> {
    entries.map_values(|e: (String, Binary64)| (e.0@, e.1))
}

/// Whether `at` is the position of the first rule for `place`.
pub open spec fn is_first(rules: Seq<Rule>, place: Place, at: int) -> bool {
    &&& 0 <= at < rules.len()
    &&& rules[at].0 == place
    &&& forall|j: int| 0 <= j < at ==> (#[trigger] rules[j]).0 != place
}

/// Whether there is a rule for `place`.
pub open spec fn has_rule(rules: Seq<Rule>, place: Place) -> bool {
    exists|at: int| is_first(rules, place, at)
}

/// The rules without the one at `at`, whose position the last one takes.
pub open spec fn without(rules: Seq<Rule>, at: int) -> Seq<Rule> {
    rules.update(at, rules.last()).drop_last()
}

/// The rules after one entry: it adds a rule, or takes away the first one for
/// its place where it gives no replacement.
pub open spec fn replaced(rules: Seq<Rule>, from: Seq<char>, to: Seq<char>) -> Seq<Rule> {
    if to.len() == 0 {
        without(rules, choose|at: int| is_first(rules, place_of(from), at))
    } else {
        rules.push((place_of(from), place_of(to)))
    }
}

/// The rules after all entries.
pub open spec fn all_replaced(
    rules: Seq<Rule>,
    entries: Seq<(Seq<char>, Seq<char>)>,
) -> Seq<Rule>
    decreases entries.len(),
{
    if entries.len() == 0 {
        rules
    } else {
        replaced(
            all_replaced(rules, entries.drop_last()),
            entries.last().0,
            entries.last().1,
        )
    }
}

/// Whether every entry that takes a rule away finds one.
pub open spec fn replaceable(rules: Seq<Rule>, entries: Seq<(Seq<char>, Seq<char>)>) -> bool
    decreases entries.len(),
{
    if entries.len() == 0 {
        true
    } else {
        &&& replaceable(rules, entries.drop_last())
        &&& entries.last().1.len() > 0 || has_rule(
            all_replaced(rules, entries.drop_last()),
            place_of(entries.last().0),
        )
    }
}

/// The number of bytes that a place takes.
pub open spec fn place_len(place: Place) -> int {
    (encode_utf8(place.0).len() + encode_utf8(place.1).len()) as int
}

/// The weights with the longest places first, equally long ones in their order.
pub open spec fn longest_first(weights: Seq<PlaceWeight>) -> Seq<PlaceWeight> {
    arranged(weights, descending(weights.map_values(|w: PlaceWeight| place_len(w.0))))
}

/// The weights that entries give, in their order.
pub open spec fn given_weights(entries: Seq<(Seq<char>, Binary64)>) -> Seq<PlaceWeight> {
    entries.map_values(|e: (Seq<char>, Binary64)| (place_of(e.0), e.1))
}

/// Whether two places are the same.
fn same_place(a: &HostAndPath, b: &HostAndPath) -> (r: bool)
    ensures
        r == (a@ == b@),
{
    same_text(a.host.as_str(), b.host.as_str()) && same_text(a.path.as_str(), b.path.as_str())
}

/// The position of the first rule for `place`.
fn find_rule(replace: &Vec<(HostAndPath, HostAndPath)>, place: &HostAndPath) -> (r: Option<usize>)
    ensures
        match r {
            Some(at) => is_first(rules(replace@), place@, at as int),
            None => !has_rule(rules(replace@), place@),
        },
{
    let ghost list = rules(replace@);
    for i in 0..replace.len()
        invariant
            list == rules(replace@),
            forall|j: int| 0 <= j < i ==> (#[trigger] list[j]).0 != place@,
    {
        assert(list[i as int].0 == replace@[i as int].0@);
        if same_place(&replace[i].0, place) {
            assert(is_first(list, place@, i as int));
            return Some(i);
        }
    }
    None
}

/// Takes one entry; says whether it found the rule that it was to take away.
fn replace_one(replace: &mut Vec<(HostAndPath, HostAndPath)>, from: &str, to: &str) -> (r: bool)
    ensures
        r == (to@.len() > 0 || has_rule(rules(old(replace)@), place_of(from@))),
        r ==> rules(final(replace)@) == replaced(rules(old(replace)@), from@, to@),
        !r ==> final(replace)@ == old(replace)@,
{
    let ghost before = rules(replace@);
    let place = HostAndPath::new(from);
    if to.is_empty() {
        match find_rule(replace, &place) {
            Some(at) => {
                proof {
                    let first = choose|at: int| is_first(before, place@, at);
                    assert(is_first(before, place@, first));
                    if first < at {
                        assert(before[first].0 != place@);
                    }
                    if at < first {
                        assert(before[at as int].0 != place@);
                    }
                }
                // The order of the rules does not matter.
                replace.swap_remove(at);
                assert(rules(replace@) =~= without(before, at as int));
                true
            },
            None => false,
        }
    } else {
        let target = HostAndPath::new(to);
        replace.push((place, target));
        assert(rules(replace@) =~= before.push((place_of(from@), place_of(to@))));
        true
    }
}

impl UrlsConfig {
    /// The configuration has the given rules and weights.
    pub open spec fn holds(self, replace: Seq<Rule>, weight: Seq<PlaceWeight>) -> bool {
        rules(self.replace@) == replace && weights(self.weight@) == weight
    }

    /// Whether every entry of the overlay that takes a rule away finds one.
    pub fn accepts(&self, partial: &PartialUrlsConfig) -> (r: bool)
        ensures
            r == replaceable(rules(self.replace@), replacements(partial.replace@)),
    {
        let ghost entries = replacements(partial.replace@);
        let mut trial: Vec<(HostAndPath, HostAndPath)> = Vec::new();
        for i in 0..self.replace.len()
            invariant
                rules(trial@) == rules(self.replace@).take(i as int),
        {
            let rule = &self.replace[i];
            let ghost before = rules(trial@);
            trial.push((rule.0.clone(), rule.1.clone()));
            assert(rules(trial@) =~= before.push((rule.0@, rule.1@)));
            assert(rules(self.replace@).take(i + 1) =~= before.push((rule.0@, rule.1@)));
        }
        assert(rules(self.replace@).take(self.replace@.len() as int) =~= rules(self.replace@));
        assert(entries.take(0) =~= Seq::empty());
        for i in 0..partial.replace.len()
            invariant
                entries == replacements(partial.replace@),
                rules(trial@) == all_replaced(rules(self.replace@), entries.take(i as int)),
                replaceable(rules(self.replace@), entries.take(i as int)),
        {
            let entry = &partial.replace[i];
            assert(entries.take(i + 1).drop_last() =~= entries.take(i as int));
            assert(entries.take(i + 1).last() == (entry.0@, entry.1@));
            if !replace_one(&mut trial, entry.0.as_str(), entry.1.as_str()) {
                proof {
                    lemma_replaceable_prefix(rules(self.replace@), entries, i + 1);
                }
                return false;
            }
        }
        assert(entries.take(partial.replace@.len() as int) =~= entries);
        true
    }

    /// Takes the replacement entries, then the weights, and brings the longest
    /// places to the front so that more specific ones are checked first.
    pub fn overlay(&mut self, partial: PartialUrlsConfig)
        requires
            replaceable(rules(old(self).replace@), replacements(partial.replace@)),
        ensures
            final(self).holds(
                all_replaced(rules(old(self).replace@), replacements(partial.replace@)),
                longest_first(
                    weights(old(self).weight@) + given_weights(weight_entries(partial.weight@)),
                ),
            ),
    {
        let ghost entries = replacements(partial.replace@);
        let ghost first = rules(self.replace@);
        assert(entries.take(0) =~= Seq::empty());
        for i in 0..partial.replace.len()
            invariant
                entries == replacements(partial.replace@),
                replaceable(first, entries),
                rules(self.replace@) == all_replaced(first, entries.take(i as int)),
                self.weight@ == old(self).weight@,
        {
            let entry = &partial.replace[i];
            proof {
                assert(entries.take(i + 1).drop_last() =~= entries.take(i as int));
                assert(entries.take(i + 1).last() == (entry.0@, entry.1@));
                if !replaceable(first, entries.take(i + 1)) {
                    lemma_replaceable_prefix(first, entries, i + 1);
                }
            }
            let _ = replace_one(&mut self.replace, entry.0.as_str(), entry.1.as_str());
        }
        assert(entries.take(partial.replace@.len() as int) =~= entries);

        let ghost given = given_weights(weight_entries(partial.weight@));
        let ghost old_weights = weights(self.weight@);
        assert(given.take(0) =~= Seq::empty());
        assert(old_weights =~= old_weights + given.take(0));
        for i in 0..partial.weight.len()
            invariant
                given == given_weights(weight_entries(partial.weight@)),
                rules(self.replace@) == all_replaced(first, entries),
                weights(self.weight@) == old_weights + given.take(i as int),
        {
            let entry = &partial.weight[i];
            let ghost before = weights(self.weight@);
            let place = HostAndPath::new(entry.0.as_str());
            assert(weight_entries(partial.weight@)[i as int] == (entry.0@, entry.1));
            self.weight.push((place, entry.1));
            assert(weights(self.weight@) =~= before.push(given[i as int]));
            assert(weights(self.weight@) =~= old_weights + given.take(i + 1));
        }
        assert(given.take(partial.weight@.len() as int) =~= given);

        let ghost unsorted = weights(self.weight@);
        let mut keys: Vec<i128> = Vec::new();
        for i in 0..self.weight.len()
            invariant
                unsorted == weights(self.weight@),
                keys@.len() == i,
                forall|j: int|
                    0 <= j < i ==> #[trigger] keys@[j] == place_len(unsorted[j].0),
        {
            let place = &self.weight[i].0;
            assert(unsorted[i as int].0 == place@);
            let host = place.host.as_str().as_bytes().len();
            let path = place.path.as_str().as_bytes().len();
            keys.push(host as i128 + path as i128);
        }
        let mut list: Vec<(HostAndPath, Binary64)> = Vec::new();
        std::mem::swap(&mut self.weight, &mut list);
        let ghost ints = keys@.map_values(|k: i128| k as int);
        assert(ints =~= unsorted.map_values(|w: PlaceWeight| place_len(w.0)));
        let ghost items = list@;
        self.weight = sort_descending(list, &keys);
        proof {
            lemma_descending(ints);
            assert(weights(self.weight@) =~= longest_first(unsorted));
        }
    }
}

/// A list of entries finds all rules only where its beginnings do.
proof fn lemma_replaceable_prefix(
    rules: Seq<Rule>,
    entries: Seq<(Seq<char>, Seq<char>)>,
    n: int,
)
    requires
        0 <= n <= entries.len(),
    ensures
        replaceable(rules, entries) ==> replaceable(rules, entries.take(n)),
    decreases entries.len() - n,
{
    if n < entries.len() {
        lemma_replaceable_prefix(rules, entries, n + 1);
        assert(entries.take(n + 1).drop_last() =~= entries.take(n));
    } else {
        assert(entries.take(n) =~= entries);
    }
}

// --- Laws ---

/// Whether an entry takes the rule for `place` away.
pub open spec fn removes(entries: Seq<(Seq<char>, Seq<char>)>, place: Place) -> bool {
    exists|i: int|
        0 <= i < entries.len() && (#[trigger] entries[i]).1.len() == 0 && place_of(entries[i].0)
            == place
}

/// Whether an entry adds `rule`.
pub open spec fn adds(entries: Seq<(Seq<char>, Seq<char>)>, rule: Rule) -> bool {
    exists|i: int|
        0 <= i < entries.len() && (#[trigger] entries[i]).1.len() > 0 && rule == (
            place_of(entries[i].0),
            place_of(entries[i].1),
        )
}

/// Whether no two entries are for the same place.
pub open spec fn distinct_entries(entries: Seq<(Seq<char>, Seq<char>)>) -> bool {
    forall|i: int, j: int|
        0 <= i < j < entries.len() ==> place_of((#[trigger] entries[i]).0) != place_of(
            (#[trigger] entries[j]).0,
        )
}

/// Whether no two rules are for the same place.
pub open spec fn distinct_rules(rules: Seq<Rule>) -> bool {
    forall|i: int, j: int|
        0 <= i < j < rules.len() ==> (#[trigger] rules[i]).0 != (#[trigger] rules[j]).0
}

/// Whether an entry adds a rule for `place`.
spec fn adds_place(entries: Seq<(Seq<char>, Seq<char>)>, place: Place) -> bool {
    exists|i: int|
        0 <= i < entries.len() && (#[trigger] entries[i]).1.len() > 0 && place_of(entries[i].0)
            == place
}

/// Rules for one place stand twice only where an entry adds one.
proof fn lemma_repeats_are_added(rules: Seq<Rule>, entries: Seq<(Seq<char>, Seq<char>)>)
    requires
        distinct_rules(rules),
        distinct_entries(entries),
        replaceable(rules, entries),
    ensures
        forall|i: int, j: int|
            0 <= i < j < all_replaced(rules, entries).len() && (#[trigger] all_replaced(
                rules,
                entries,
            )[i]).0 == (#[trigger] all_replaced(rules, entries)[j]).0 ==> adds_place(
                entries,
                all_replaced(rules, entries)[i].0,
            ),
    decreases entries.len(),
{
    if entries.len() > 0 {
        let head = entries.drop_last();
        let n = entries.len() - 1;
        let now = all_replaced(rules, head);
        let next = all_replaced(rules, entries);
        lemma_repeats_are_added(rules, head);
        assert forall|p: Place| #[trigger] adds_place(head, p) implies adds_place(entries, p) by {
            let k = choose|k: int|
                0 <= k < head.len() && (#[trigger] head[k]).1.len() > 0 && place_of(head[k].0)
                    == p;
            assert(entries[k] == head[k]);
        }
        let place = place_of(entries[n].0);
        assert forall|i: int, j: int|
            0 <= i < j < next.len() && (#[trigger] next[i]).0 == (
        #[trigger] next[j]).0 implies adds_place(entries, next[i].0) by {
            if entries[n].1.len() == 0 {
                let at = choose|at: int| is_first(now, place, at);
                let a = if i == at { now.len() - 1 } else { i };
                let b = if j == at { now.len() - 1 } else { j };
                assert(next[i] == now[a] && next[j] == now[b]);
                assert(adds_place(head, next[i].0)) by {
                    if a < b {
                        assert(now[a].0 == now[b].0);
                    } else {
                        assert(now[b].0 == now[a].0);
                    }
                }
            } else {
                if j < now.len() {
                    assert(next[i] == now[i] && next[j] == now[j]);
                } else {
                    assert(entries[n].1.len() > 0);
                }
            }
        }
    }
}

/// In whatever order the entries for different places are taken, the same rules
/// come out: those that no entry takes away, and those that entries add.
pub proof fn law_entries_commute(
    rules: Seq<Rule>,
    entries: Seq<(Seq<char>, Seq<char>)>,
    rule: Rule,
)
    requires
        distinct_rules(rules),
        distinct_entries(entries),
        replaceable(rules, entries),
    ensures
        all_replaced(rules, entries).contains(rule) <==> (rules.contains(rule) && !removes(
            entries,
            rule.0,
        )) || adds(entries, rule),
    decreases entries.len(),
{
    if entries.len() > 0 {
        let head = entries.drop_last();
        let n = entries.len() - 1;
        let now = all_replaced(rules, head);
        let next = all_replaced(rules, entries);
        law_entries_commute(rules, head, rule);
        lemma_repeats_are_added(rules, head);
        let place = place_of(entries[n].0);
        if removes(head, rule.0) {
            let k = choose|k: int|
                0 <= k < head.len() && (#[trigger] head[k]).1.len() == 0 && place_of(head[k].0)
                    == rule.0;
            assert(entries[k] == head[k]);
        }
        if removes(entries, rule.0) && !removes(head, rule.0) {
            let k = choose|k: int|
                0 <= k < entries.len() && (#[trigger] entries[k]).1.len() == 0 && place_of(
                    entries[k].0,
                ) == rule.0;
            if k < n {
                assert(head[k] == entries[k]);
            }
        }
        if adds(head, rule) {
            let k = choose|k: int|
                0 <= k < head.len() && (#[trigger] head[k]).1.len() > 0 && rule == (
                    place_of(head[k].0),
                    place_of(head[k].1),
                );
            assert(entries[k] == head[k]);
        }
        if adds(entries, rule) && !adds(head, rule) {
            let k = choose|k: int|
                0 <= k < entries.len() && (#[trigger] entries[k]).1.len() > 0 && rule == (
                    place_of(entries[k].0),
                    place_of(entries[k].1),
                );
            if k < n {
                assert(head[k] == entries[k]);
            }
        }
        if entries[n].1.len() == 0 {
            let at = choose|at: int| is_first(now, place, at);
            assert(is_first(now, place, at));
            if next.contains(rule) {
                let k = choose|k: int| 0 <= k < next.len() && next[k] == rule;
                let a = if k == at { now.len() - 1 } else { k };
                assert(now[a] == rule);
                if rule.0 == place {
                    assert(adds_place(head, place)) by {
                        if a < at {
                            assert(now[a].0 == now[at].0);
                        } else {
                            assert(now[at].0 == now[a].0);
                        }
                    }
                    let e = choose|e: int|
                        0 <= e < head.len() && (#[trigger] head[e]).1.len() > 0 && place_of(
                            head[e].0,
                        ) == place;
                    assert(entries[e] == head[e]);
                    assert(place_of(entries[e].0) != place_of(entries[n].0));
                }
            }
            if now.contains(rule) && rule.0 != place {
                let k = choose|k: int| 0 <= k < now.len() && now[k] == rule;
                let b = if k == now.len() - 1 { at } else { k };
                assert(next[b] == rule);
            }
            if rule.0 == place {
                assert(removes(entries, rule.0)) by {
                    assert(entries[n].1.len() == 0);
                }
                if adds(head, rule) {
                    let e = choose|e: int|
                        0 <= e < head.len() && (#[trigger] head[e]).1.len() > 0 && rule == (
                            place_of(head[e].0),
                            place_of(head[e].1),
                        );
                    assert(entries[e] == head[e]);
                    assert(place_of(entries[e].0) != place_of(entries[n].0));
                }
            }
        } else {
            let added = (place, place_of(entries[n].1));
            if next.contains(rule) {
                let k = choose|k: int| 0 <= k < next.len() && next[k] == rule;
                if k < now.len() {
                    assert(now[k] == rule);
                } else {
                    assert(adds(entries, rule)) by {
                        assert(entries[n].1.len() > 0);
                    }
                }
            }
            if now.contains(rule) {
                let k = choose|k: int| 0 <= k < now.len() && now[k] == rule;
                assert(next[k] == rule);
            }
            if rule == added {
                assert(next[now.len() as int] == rule);
            }
        }
    }
}

/// The longest places come first, and every weight is still there as often as
/// it was.
pub proof fn law_longest_first(weights: Seq<PlaceWeight>)
    ensures
        forall|i: int, j: int|
            0 <= i < j < longest_first(weights).len() ==> place_len(
                (#[trigger] longest_first(weights)[i]).0,
            ) >= place_len((#[trigger] longest_first(weights)[j]).0),
        longest_first(weights).to_multiset() == weights.to_multiset(),
{
    let keys = weights.map_values(|w: PlaceWeight| place_len(w.0));
    let order = descending(keys);
    lemma_descending(keys);
    assert forall|i: int, j: int| 0 <= i < j < longest_first(weights).len() implies place_len(
        (#[trigger] longest_first(weights)[i]).0,
    ) >= place_len((#[trigger] longest_first(weights)[j]).0) by {
        assert(precedes(keys, order[i], order[j]));
        assert(keys[order[i]] == place_len(weights[order[i]].0));
        assert(keys[order[j]] == place_len(weights[order[j]].0));
    }
    lemma_arranged_multiset(weights, order);
}

/// Weights that stand in this order are left as they are.
pub proof fn law_ordered_weights_stay(weights: Seq<PlaceWeight>)
    ensures
        longest_first(longest_first(weights)) == longest_first(weights),
{
    let sorted = longest_first(weights);
    let keys = sorted.map_values(|w: PlaceWeight| place_len(w.0));
    law_longest_first(weights);
    assert forall|i: int, j: int| 0 <= i < j < keys.len() implies keys[i] >= keys[j] by {
        assert(place_len(sorted[i].0) >= place_len(sorted[j].0));
    }
    lemma_falling_keys(sorted, keys);
}

/// A text with a slash is its host, a slash and its path, and the host has no
/// slash; a text without one is all host.
pub proof fn law_place_of_rejoins(s: Seq<char>)
    ensures
        !place_of(s).0.contains('/'),
        s.contains('/') ==> place_of(s).0 + seq!['/'] + place_of(s).1 == s,
        !s.contains('/') ==> place_of(s) == (s, Seq::<char>::empty()),
{
    s.index_of_first_ensures('/');
    if s.contains('/') {
        let at = s.index_of_first('/').unwrap();
        assert(place_of(s).0 + seq!['/'] + place_of(s).1 =~= s);
    }
}

} // verus!
