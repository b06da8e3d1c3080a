//! Which domains are blocked, and what the others weigh.

use crate::data::{entry, lookup, read_toml, toml_document, Data, Tree};
use crate::number::Binary64;
use crate::text::{
    begins, chars_of, ends, find_char, is_white_space, lemma_trim_end, lemma_trim_start, same_text,
    split, split_chars, starts_with, string_of, trim, trim_start, trimmed, views, Separator,
};
use vstd::hash_map::StringHashMap;
use vstd::hash_set::StringHashSet;
use vstd::prelude::*;

verus! {

/// The bit pattern of 2.0, the weight of a pinned domain.
pub const PIN_BITS: u64 = 0x4000_0000_0000_0000;

/// The bit pattern of 1.5, the weight of a raised domain.
pub const RAISE_BITS: u64 = 0x3ff8_0000_0000_0000;

/// The bit pattern of 0.3, the weight of a lowered domain.
pub const LOWER_BITS: u64 = 0x3fd3_3333_3333_3333;

/// The weight that a reputation action gives the domains under it; nothing for
/// an unknown action.
pub open spec fn action_weight(action: Seq<char>) -> Option<Binary64> {
    if action == "pin"@ {
        Some(Binary64 { bits: PIN_BITS })
    } else if action == "raise"@ {
        Some(Binary64 { bits: RAISE_BITS })
    } else if action == "neutral"@ {
        Some(Binary64::spec_one())
    } else if action == "lower"@ {
        Some(Binary64 { bits: LOWER_BITS })
    } else if action == "block"@ {
        Some(Binary64::spec_zero())
    } else {
        None
    }
}

fn weight_of_action(action: &str) -> (r: Option<Binary64>)
    ensures
        r == action_weight(action@),
{
    if same_text(action, "pin") {
        Some(Binary64 { bits: PIN_BITS })
    } else if same_text(action, "raise") {
        Some(Binary64 { bits: RAISE_BITS })
    } else if same_text(action, "neutral") {
        Some(Binary64::one())
    } else if same_text(action, "lower") {
        Some(Binary64 { bits: LOWER_BITS })
    } else if same_text(action, "block") {
        Some(Binary64::zero())
    } else {
        None
    }
}

/// `weights` with `weight` for each domain among `items` that is a text.
pub open spec fn with_domains(
    weights: Map<Seq<char>, Binary64>,
    items: Seq<Tree>,
    weight: Binary64,
) -> Map<Seq<char>, Binary64>
    decreases items.len(),
{
    if items.len() == 0 {
        weights
    } else {
        let before = with_domains(weights, items.drop_last(), weight);
        match items.last() {
            Tree::Text(domain) => before.insert(domain, weight),
            _ => before,
        }
    }
}

/// The domains that a category lists: the items under `domains`, where the
/// category is a table that holds a list there.
pub open spec fn category_domains(category: Tree) -> Seq<Tree> {
    match category {
        Tree::Table(entries) => match entry(entries, "domains"@) {
            Some(Tree::List(items)) => items,
            _ => Seq::empty(),
        },
        _ => Seq::empty(),
    }
}

/// `weights` with `weight` for each domain of each of the categories.
pub open spec fn with_categories(
    weights: Map<Seq<char>, Binary64>,
    categories: Seq<(Seq<char>, Tree)>,
    weight: Binary64,
) -> Map<Seq<char>, Binary64>
    decreases categories.len(),
{
    if categories.len() == 0 {
        weights
    } else {
        with_domains(
            with_categories(weights, categories.drop_last(), weight),
            category_domains(categories.last().1),
            weight,
        )
    }
}

/// The categories under an action, where the action is a table.
pub open spec fn action_categories(action: Tree) -> Seq<(Seq<char>, Tree)> {
    match action {
        Tree::Table(categories) => categories,
        _ => Seq::empty(),
    }
}

/// The weights that the actions give, in the order of the actions: a later
/// action overrides an earlier one, and unknown actions give none.
pub open spec fn action_weights(actions: Seq<(Seq<char>, Tree)>) -> Map<Seq<char>, Binary64>
    decreases actions.len(),
{
    if actions.len() == 0 {
        Map::empty()
    } else {
        let before = action_weights(actions.drop_last());
        match action_weight(actions.last().0) {
            Some(weight) => with_categories(before, action_categories(actions.last().1), weight),
            None => before,
        }
    }
}

/// The weights that a reputation document gives.
pub open spec fn document_weights(document: Tree) -> Map<Seq<char>, Binary64> {
    action_weights(action_categories(document))
}

/// Gives `weight` to each domain of a category.
fn add_category(weights: &mut StringHashMap<Binary64>, category: &Data, weight: Binary64)
    ensures
        final(weights)@ == with_domains(old(weights)@, category_domains(category@), weight),
{
    if let Some(domains) = lookup(category, "domains") {
        if let Data::List(items) = domains {
            let ghost trees = domains@->List_0;
            assert(trees == category_domains(category@));
            for i in 0..items.len()
                invariant
                    *domains == Data::List(*items),
                    trees == domains@->List_0,
                    weights@ == with_domains(old(weights)@, trees.take(i as int), weight),
            {
                assert(trees.take(i + 1).drop_last() =~= trees.take(i as int));
                assert(trees.take(i + 1).last() == items@[i as int]@);
                if let Data::Text(domain) = &items[i] {
                    weights.insert(domain.clone(), weight);
                }
            }
            assert(trees.take(items@.len() as int) =~= trees);
        }
    }
}

/// The weights that a reputation document gives.
pub fn reputation_weights(document: &Data) -> (r: StringHashMap<Binary64>)
    ensures
        r@ == document_weights(document@),
{
    let mut weights: StringHashMap<Binary64> = StringHashMap::new();
    if let Data::Table(actions) = document {
        let ghost trees = document@->Table_0;
        for i in 0..actions.len()
            invariant
                *document == Data::Table(*actions),
                trees == document@->Table_0,
                weights@ == action_weights(trees.take(i as int)),
        {
            assert(trees.take(i + 1).drop_last() =~= trees.take(i as int));
            assert(trees.take(i + 1).last() == (actions@[i as int].0@, actions@[i as int].1@));
            if let Some(weight) = weight_of_action(actions[i].0.as_str()) {
                let action = &actions[i].1;
                if let Data::Table(categories) = action {
                    let ghost kinds = action@->Table_0;
                    let ghost before = weights@;
                    for k in 0..categories.len()
                        invariant
                            *action == Data::Table(*categories),
                            kinds == action@->Table_0,
                            weights@ == with_categories(before, kinds.take(k as int), weight),
                    {
                        assert(kinds.take(k + 1).drop_last() =~= kinds.take(k as int));
                        assert(kinds.take(k + 1).last() == (
                            categories@[k as int].0@,
                            categories@[k as int].1@,
                        ));
                        add_category(&mut weights, &categories[k].1, weight);
                    }
                    assert(kinds.take(categories@.len() as int) =~= kinds);
                }
            }
        }
        assert(trees.take(actions@.len() as int) =~= trees);
    }
    weights
}

/// The domain that a line of a blocklist names: the line without the white
/// space around it, unless that is empty or a comment.
pub open spec fn blocked_domain(line: Seq<char>) -> Option<Seq<char>> {
    let domain = trim(line);
    if domain.len() == 0 || begins(domain, "#"@) {
        None
    } else {
        Some(domain)
    }
}

/// Whether the blocklist `text` names `domain` on one of its lines.
pub open spec fn blocks(text: Seq<char>, domain: Seq<char>) -> bool {
    exists|i: int|
        0 <= i < split(text, Separator::Newline).len() && blocked_domain(
            #[trigger] split(text, Separator::Newline)[i],
        ) == Some(domain)
}

/// The domains that a blocklist names.
pub fn blocked_domains(text: &str) -> (r: StringHashSet)
    ensures
        forall|domain: Seq<char>| #[trigger] r@.contains(domain) <==> blocks(text@, domain),
{
    let chars = chars_of(text);
    let lines = split_chars(&chars, Separator::Newline);
    let ghost all = split(text@, Separator::Newline);
    let mut set = StringHashSet::new();
    for i in 0..lines.len()
        invariant
            all == views(lines@),
            forall|domain: Seq<char>| #[trigger]
                set@.contains(domain) <==> exists|j: int|
                    0 <= j < i && blocked_domain(#[trigger] all[j]) == Some(domain),
    {
        assert(all[i as int] == lines@[i as int]@);
        let domain = trimmed(&lines[i]);
        if domain.len() > 0 && !starts_with(domain, "#") {
            set.insert(string_of(domain));
        }
    }
    set
}

/// The part of `domain` after its first dot.
pub open spec fn parent(domain: Seq<char>) -> Seq<char>
    recommends
        domain.contains('.'),
{
    domain.skip(domain.index_of_first('.').unwrap() + 1)
}

/// What `domain` weighs: by its own reputation, else zero where it is blocked,
/// else as its parent domain does, else one.
pub open spec fn domain_weight(
    reputation: Map<Seq<char>, Binary64>,
    blocklist: Set<Seq<char>>,
    domain: Seq<char>,
) -> Binary64
    decreases domain.len(),
{
    if reputation.contains_key(domain) {
        reputation[domain]
    } else if blocklist.contains(domain) {
        Binary64::spec_zero()
    } else if domain.contains('.') {
        proof {
            domain.index_of_first_ensures('.');
        }
        domain_weight(reputation, blocklist, parent(domain))
    } else {
        Binary64::spec_one()
    }
}

/// Why reranking data could not be loaded.
#[derive(Clone, Copy, Debug, PartialEq, Eq, Structural)]
pub enum LoadError {
    /// The reputation file is not a TOML document.
    InvalidReputation,
}

/// The domains that are excluded from results, and the weights of domains with
/// a reputation: a higher weight boosts a domain, zero blocks it.
pub struct RerankData {
    blocklist: StringHashSet,
    reputation: StringHashMap<Binary64>,
}

impl RerankData {
    /// The blocked domains.
    pub closed spec fn blocklist(&self) -> Set<Seq<char>> {
        self.blocklist@
    }

    /// The weights of the domains with a reputation.
    pub closed spec fn reputation(&self) -> Map<Seq<char>, Binary64> {
        self.reputation@
    }

    /// What `domain` weighs.
    pub open spec fn weight(&self, domain: Seq<char>) -> Binary64 {
        domain_weight(self.reputation(), self.blocklist(), domain)
    }

    /// Data that blocks the given domains and gives weights to others; the last
    /// weight that is given to a domain holds.
    pub fn new(blocklist: &Vec<&str>, reputation: &Vec<(&str, Binary64)>) -> (r: RerankData)
        ensures
            r.blocklist() == listed_domains(blocklist@),
            r.reputation() == listed_weights(reputation@),
    {
        let mut blocked = StringHashSet::new();
        assert(blocked@ =~= listed_domains(blocklist@.take(0)));
        for i in 0..blocklist.len()
            invariant
                blocked@ == listed_domains(blocklist@.take(i as int)),
        {
            assert(blocklist@.take(i + 1).drop_last() =~= blocklist@.take(i as int));
            blocked.insert(blocklist[i].to_owned());
        }
        assert(blocklist@.take(blocklist@.len() as int) =~= blocklist@);
        let mut weights: StringHashMap<Binary64> = StringHashMap::new();
        assert(weights@ =~= listed_weights(reputation@.take(0)));
        for i in 0..reputation.len()
            invariant
                weights@ == listed_weights(reputation@.take(i as int)),
        {
            assert(reputation@.take(i + 1).drop_last() =~= reputation@.take(i as int));
            weights.insert(reputation[i].0.to_owned(), reputation[i].1);
        }
        assert(reputation@.take(reputation@.len() as int) =~= reputation@);
        RerankData { blocklist: blocked, reputation: weights }
    }

    /// Loads the data from the contents of the blocklist and reputation files.
    /// A file that is missing counts as an empty one.
    pub fn load(blocklist: Option<&str>, reputation: Option<&str>) -> (r: Result<
        RerankData,
        LoadError,
    >)
        ensures
            match r {
                Ok(data) => {
                    &&& file_weights(reputation) == Some(data.reputation())
                    &&& forall|domain: Seq<char>| #[trigger]
                        data.blocklist().contains(domain) <==> file_blocks(blocklist, domain)
                },
                Err(LoadError::InvalidReputation) => file_weights(reputation) is None,
            },
    {
        let blocklist = RerankData::load_blocklist(blocklist);
        match RerankData::load_reputation(reputation) {
            Ok(reputation) => Ok(RerankData { blocklist, reputation }),
            Err(e) => Err(e),
        }
    }

    /// The number of blocked domains.
    pub fn blocked_count(&self) -> (r: usize)
        ensures
            r == self.blocklist().len(),
    {
        self.blocklist.len()
    }

    /// The number of domains with a reputation.
    pub fn reputation_count(&self) -> (r: usize)
        ensures
            r == self.reputation().len(),
    {
        self.reputation.len()
    }

    /// Reads a blocklist line by line, skipping comments and blank lines.
    fn load_blocklist(contents: Option<&str>) -> (r: StringHashSet)
        ensures
            forall|domain: Seq<char>| #[trigger]
                r@.contains(domain) <==> file_blocks(contents, domain),
    {
        match contents {
            Some(text) => blocked_domains(text),
            None => StringHashSet::new(),
        }
    }

    /// Reads a reputation document, in which the tables `pin`, `raise`,
    /// `neutral`, `lower` and `block` hold categories with lists of domains.
    fn load_reputation(contents: Option<&str>) -> (r: Result<StringHashMap<Binary64>, LoadError>)
        ensures
            match r {
                Ok(weights) => file_weights(contents) == Some(weights@),
                Err(LoadError::InvalidReputation) => file_weights(contents) is None,
            },
    {
        match contents {
            Some(text) => match read_toml(text) {
                Some(document) => Ok(reputation_weights(&document)),
                None => Err(LoadError::InvalidReputation),
            },
            None => Ok(StringHashMap::new()),
        }
    }

    /// Looks up the weight of a domain: its own, else that of the nearest
    /// parent domain that is listed, else one. Reputation takes priority over
    /// the blocklist.
    pub fn get_domain_weight(&self, domain: &str) -> (r: Binary64)
        ensures
            r == self.weight(domain@),
    {
        let labels = chars_of(domain);
        let mut from: usize = 0;
        assert(labels@.skip(0) =~= labels@);
        loop
            invariant
                from <= labels@.len(),
                self.weight(domain@) == self.weight(labels@.skip(from as int)),
            decreases labels@.len() - from,
        {
            let rest = &labels[from..labels.len()];
            let ghost current = labels@.skip(from as int);
            assert(rest@ =~= current);
            let name = string_of(rest);
            if let Some(weight) = self.reputation.get(name.as_str()) {
                return *weight;
            }
            if self.blocklist.contains(name.as_str()) {
                return Binary64::zero();
            }
            match find_char(rest, '.') {
                Some(at) => {
                    assert(parent(current) =~= labels@.skip(from + at + 1));
                    from = from + at + 1;
                },
                None => return Binary64::one(),
            }
        }
    }
}

/// The domains of a list.
pub open spec fn listed_domains(list: Seq<&str>) -> Set<Seq<char>>
    decreases list.len(),
{
    if list.len() == 0 {
        Set::empty()
    } else {
        listed_domains(list.drop_last()).insert(list.last()@)
    }
}

/// The weights of a list, of which a later entry overrides an earlier one.
pub open spec fn listed_weights(list: Seq<(&str, Binary64)>) -> Map<Seq<char>, Binary64>
    decreases list.len(),
{
    if list.len() == 0 {
        Map::empty()
    } else {
        listed_weights(list.drop_last()).insert(list.last().0@, list.last().1)
    }
}

/// Whether a blocklist file with these contents names `domain`; a missing file
/// names none.
pub open spec fn file_blocks(contents: Option<&str>, domain: Seq<char>) -> bool {
    match contents {
        Some(text) => blocks(text@, domain),
        None => false,
    }
}

/// The weights that a reputation file with these contents gives, none for a
/// missing file; nothing where the contents are not TOML.
pub open spec fn file_weights(contents: Option<&str>) -> Option<Map<Seq<char>, Binary64>> {
    match contents {
        Some(text) => match toml_document(text@) {
            Some(document) => Some(document_weights(document)),
            None => None,
        },
        None => Some(Map::empty()),
    }
}

// --- Laws ---

/// Each action weighs more than the next one down: pin, raise, neutral, lower,
/// block.
pub proof fn law_actions_are_ordered()
    ensures
        action_weight("pin"@)->0.place() > action_weight("raise"@)->0.place(),
        action_weight("raise"@)->0.place() > action_weight("neutral"@)->0.place(),
        action_weight("neutral"@)->0.place() > action_weight("lower"@)->0.place(),
        action_weight("lower"@)->0.place() > action_weight("block"@)->0.place(),
        action_weight("block"@)->0.spec_is_zero(),
{
    reveal_strlit("pin");
    reveal_strlit("raise");
    reveal_strlit("neutral");
    reveal_strlit("lower");
    reveal_strlit("block");
    assert("pin"@[0] == 'p' && "raise"@[0] == 'r' && "neutral"@[0] == 'n');
    assert("lower"@[0] == 'l' && "block"@[0] == 'b');
}

/// A domain with a reputation weighs what the reputation says, whether it is
/// blocked or not: only a weight of zero blocks it.
pub proof fn law_reputation_overrides_blocklist(
    reputation: Map<Seq<char>, Binary64>,
    blocklist: Set<Seq<char>>,
    domain: Seq<char>,
)
    requires
        reputation.contains_key(domain),
    ensures
        domain_weight(reputation, blocklist, domain) == reputation[domain],
{
}

/// A blocked domain without a reputation weighs zero.
pub proof fn law_blocked_weighs_zero(
    reputation: Map<Seq<char>, Binary64>,
    blocklist: Set<Seq<char>>,
    domain: Seq<char>,
)
    requires
        blocklist.contains(domain),
        !reputation.contains_key(domain),
    ensures
        domain_weight(reputation, blocklist, domain) == Binary64::spec_zero(),
{
}

/// A subdomain that is not listed itself weighs what its parent weighs.
pub proof fn law_subdomain_inherits(
    reputation: Map<Seq<char>, Binary64>,
    blocklist: Set<Seq<char>>,
    label: Seq<char>,
    domain: Seq<char>,
)
    requires
        !label.contains('.'),
        !reputation.contains_key(label.push('.') + domain),
        !blocklist.contains(label.push('.') + domain),
    ensures
        domain_weight(reputation, blocklist, label.push('.') + domain) == domain_weight(
            reputation,
            blocklist,
            domain,
        ),
{
    let whole = label.push('.') + domain;
    assert(whole[label.len() as int] == '.');
    whole.index_of_first_ensures('.');
    let first = whole.index_of_first('.').unwrap();
    if first < label.len() {
        assert(label[first] == whole[first]);
    }
    assert(parent(whole) =~= domain);
}

/// Whether `domain` is `zone` or one of its subdomains.
pub open spec fn lies_in(domain: Seq<char>, zone: Seq<char>) -> bool {
    domain == zone || ends(domain, seq!['.'] + zone)
}

/// A domain weighs one where neither it nor a parent of it is listed.
pub proof fn law_unknown_is_neutral(
    reputation: Map<Seq<char>, Binary64>,
    blocklist: Set<Seq<char>>,
    domain: Seq<char>,
)
    requires
        forall|zone: Seq<char>| #[trigger]
            lies_in(domain, zone) ==> !reputation.contains_key(zone) && !blocklist.contains(zone),
    ensures
        domain_weight(reputation, blocklist, domain) == Binary64::spec_one(),
    decreases domain.len(),
{
    assert(lies_in(domain, domain));
    if domain.contains('.') {
        domain.index_of_first_ensures('.');
        let at = domain.index_of_first('.').unwrap();
        let up = parent(domain);
        assert forall|zone: Seq<char>| #[trigger] lies_in(up, zone) implies lies_in(
            domain,
            zone,
        ) by {
            let tail = seq!['.'] + zone;
            if up == zone {
                assert(domain.subrange(at, at + tail.len()) =~= tail);
            } else {
                let from = up.len() - tail.len();
                assert(up.subrange(from, from + tail.len()) == tail);
                assert(domain.subrange(at + 1 + from, at + 1 + from + tail.len()) =~= up.subrange(
                    from,
                    from + tail.len(),
                ));
            }
        }
        law_unknown_is_neutral(reputation, blocklist, up);
    }
}

/// What a blocklist names is never empty, never a comment, and has no white
/// space at its ends.
pub proof fn law_blocklist_entries(text: Seq<char>, domain: Seq<char>)
    requires
        blocks(text, domain),
    ensures
        domain.len() > 0,
        !begins(domain, "#"@),
        !is_white_space(domain[0]),
        !is_white_space(domain.last()),
{
    let i = choose|i: int|
        0 <= i < split(text, Separator::Newline).len() && blocked_domain(
            #[trigger] split(text, Separator::Newline)[i],
        ) == Some(domain);
    let line = split(text, Separator::Newline)[i];
    lemma_trim_start(line);
    lemma_trim_end(trim_start(line));
}

/// Without files every domain weighs one.
pub proof fn law_missing_files_are_neutral(domain: Seq<char>)
    ensures
        file_weights(None) == Some(Map::<Seq<char>, Binary64>::empty()),
        !file_blocks(None, domain),
        domain_weight(Map::empty(), Set::empty(), domain) == Binary64::spec_one(),
{
    law_unknown_is_neutral(Map::empty(), Set::empty(), domain);
}

} // verus!
