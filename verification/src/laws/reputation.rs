//! Laws of the domain reputation and of the blocklist.

use crate::data::{entry, toml_document, Tree};
use crate::laws::text::{
    is_blank, law_separators_part, law_trim, law_trimmed, law_unseparated_text_is_one_piece,
};
use crate::number::Binary64;
use crate::reputation::{
    action_categories, action_weight, action_weights, blocked_domain, blocks, category_domains,
    document_weights, file_blocks, file_weights, listed_domains, listed_weights, with_categories,
    with_domains,
};
use crate::text::{begins, is_white_space, split, trim, Separator};
use vstd::prelude::*;

verus! {

// --- Reputation ---

/// The actions have these weights, 2.0, 1.5, 1.0, 0.3 and 0.0, and nothing else
/// is an action.
pub proof fn law_weights_of_actions(action: Seq<char>)
    ensures
        action_weight("pin"@) == Some(Binary64 { bits: 0x4000_0000_0000_0000 }),
        action_weight("raise"@) == Some(Binary64 { bits: 0x3ff8_0000_0000_0000 }),
        action_weight("neutral"@) == Some(Binary64 { bits: 0x3ff0_0000_0000_0000 }),
        action_weight("lower"@) == Some(Binary64 { bits: 0x3fd3_3333_3333_3333 }),
        action_weight("block"@) == Some(Binary64 { bits: 0 }),
        action_weight(action) is Some ==> action == "pin"@ || action == "raise"@ || action
            == "neutral"@ || action == "lower"@ || action == "block"@,
{
    reveal_strlit("pin");
    reveal_strlit("raise");
    reveal_strlit("neutral");
    reveal_strlit("lower");
    reveal_strlit("block");
    assert("pin"@[0] == 'p' && "raise"@[0] == 'r' && "neutral"@[0] == 'n');
    assert("lower"@[0] == 'l' && "block"@[0] == 'b');
}

/// Whether a category lists `domain` at position `m` of its `domains`.
pub open spec fn category_lists(category: Tree, m: int, domain: Seq<char>) -> bool {
    &&& category is Table
    &&& entry(category->Table_0, "domains"@) is Some
    &&& entry(category->Table_0, "domains"@)->0 is List
    &&& 0 <= m < entry(category->Table_0, "domains"@)->0->List_0.len()
    &&& entry(category->Table_0, "domains"@)->0->List_0[m] == Tree::Text(domain)
}

/// Whether one of the categories lists `domain`.
pub open spec fn categories_list(categories: Seq<(Seq<char>, Tree)>, domain: Seq<char>) -> bool {
    exists|k: int, m: int|
        0 <= k < categories.len() && #[trigger] category_lists(categories[k].1, m, domain)
}

/// Whether the action at position `i` of a document is known and lists
/// `domain` in one of its categories.
pub open spec fn action_lists(
    actions: Seq<(Seq<char>, Tree)>,
    i: int,
    domain: Seq<char>,
) -> bool {
    &&& 0 <= i < actions.len()
    &&& action_weight(actions[i].0) is Some
    &&& actions[i].1 is Table
    &&& categories_list(actions[i].1->Table_0, domain)
}

/// Every domain that a known action lists in any of its categories weighs what
/// the last such action says, and no other domain has a weight.
pub proof fn law_listed_domains_have_the_weight_of_their_action(
    actions: Seq<(Seq<char>, Tree)>,
    i: int,
    domain: Seq<char>,
)
    ensures
        document_weights(Tree::Table(actions)).contains_key(domain) <==> exists|j: int|
            action_lists(actions, j, domain),
        action_lists(actions, i, domain) && (forall|j: int|
            i < j < actions.len() ==> !#[trigger] action_lists(actions, j, domain))
            ==> document_weights(Tree::Table(actions))[domain] == action_weight(actions[i].0)->0,
{
    assert(action_categories(Tree::Table(actions)) == actions);
    lemma_action_weights(actions, i, domain);
}

/// A category that lists a domain gives it a weight, wherever it stands among
/// the categories and whatever the others list.
pub proof fn law_every_category_counts(
    actions: Seq<(Seq<char>, Tree)>,
    i: int,
    k: int,
    m: int,
    domain: Seq<char>,
)
    requires
        0 <= i < actions.len(),
        action_weight(actions[i].0) is Some,
        actions[i].1 is Table,
        0 <= k < actions[i].1->Table_0.len(),
        category_lists(actions[i].1->Table_0[k].1, m, domain),
    ensures
        document_weights(Tree::Table(actions)).contains_key(domain),
        (forall|j: int, l: int, n: int|
            i < j < actions.len() && actions[j].1 is Table && 0 <= l < actions[j].1->Table_0.len()
                ==> !#[trigger] category_lists(actions[j].1->Table_0[l].1, n, domain))
            ==> document_weights(Tree::Table(actions))[domain] == action_weight(actions[i].0)->0,
{
    assert(categories_list(actions[i].1->Table_0, domain));
    assert(action_lists(actions, i, domain));
    law_listed_domains_have_the_weight_of_their_action(actions, i, domain);
    if forall|j: int, l: int, n: int|
        i < j < actions.len() && actions[j].1 is Table && 0 <= l < actions[j].1->Table_0.len()
            ==> !#[trigger] category_lists(actions[j].1->Table_0[l].1, n, domain) {
        assert forall|j: int| i < j < actions.len() implies !#[trigger] action_lists(
            actions,
            j,
            domain,
        ) by {}
    }
}

/// A document that is no table gives no weights.
pub proof fn law_other_documents_give_no_weights(document: Tree, domain: Seq<char>)
    requires
        !(document is Table),
    ensures
        !document_weights(document).contains_key(domain),
{
}

proof fn lemma_action_weights(actions: Seq<(Seq<char>, Tree)>, i: int, domain: Seq<char>)
    ensures
        action_weights(actions).contains_key(domain) <==> exists|j: int|
            action_lists(actions, j, domain),
        action_lists(actions, i, domain) && (forall|j: int|
            i < j < actions.len() ==> !#[trigger] action_lists(actions, j, domain))
            ==> action_weights(actions)[domain] == action_weight(actions[i].0)->0,
    decreases actions.len(),
{
    if actions.len() > 0 {
        let n = actions.len() - 1;
        let head = actions.drop_last();
        lemma_action_weights(head, i, domain);
        assert forall|j: int| 0 <= j < n implies #[trigger] action_lists(actions, j, domain)
            == action_lists(head, j, domain) by {
            assert(head[j] == actions[j]);
        }
        if exists|j: int| action_lists(head, j, domain) {
            let j = choose|j: int| action_lists(head, j, domain);
            assert(action_lists(actions, j, domain));
        }
        if exists|j: int| action_lists(actions, j, domain) {
            let j = choose|j: int| action_lists(actions, j, domain);
            if j < n {
                assert(action_lists(head, j, domain));
            }
        }
        if let Some(weight) = action_weight(actions[n].0) {
            lemma_categories(
                action_weights(head),
                action_categories(actions[n].1),
                weight,
                domain,
            );
            assert(action_lists(actions, n, domain) <==> categories_list(
                action_categories(actions[n].1),
                domain,
            ));
        } else {
            assert(!action_lists(actions, n, domain));
        }
        if action_lists(actions, i, domain) && (forall|j: int|
            i < j < actions.len() ==> !#[trigger] action_lists(actions, j, domain)) && i < n {
            assert(!action_lists(actions, n, domain));
            assert forall|j: int| i < j < head.len() implies !#[trigger] action_lists(
                head,
                j,
                domain,
            ) by {
                assert(!action_lists(actions, j, domain));
            }
        }
    }
}

proof fn lemma_categories(
    weights: Map<Seq<char>, Binary64>,
    categories: Seq<(Seq<char>, Tree)>,
    weight: Binary64,
    domain: Seq<char>,
)
    ensures
        with_categories(weights, categories, weight).contains_key(domain) <==> weights.contains_key(
            domain,
        ) || categories_list(categories, domain),
        categories_list(categories, domain) ==> with_categories(
            weights,
            categories,
            weight,
        )[domain] == weight,
        !categories_list(categories, domain) && weights.contains_key(domain) ==> with_categories(
            weights,
            categories,
            weight,
        )[domain] == weights[domain],
    decreases categories.len(),
{
    if categories.len() > 0 {
        let n = categories.len() - 1;
        let head = categories.drop_last();
        lemma_categories(weights, head, weight, domain);
        let items = category_domains(categories[n].1);
        lemma_domains(with_categories(weights, head, weight), items, weight, domain);
        if categories_list(head, domain) {
            let (k, m) = choose|k: int, m: int|
                0 <= k < head.len() && #[trigger] category_lists(head[k].1, m, domain);
            assert(category_lists(categories[k].1, m, domain));
        }
        if exists|m: int| 0 <= m < items.len() && #[trigger] items[m] == Tree::Text(domain) {
            let m = choose|m: int| 0 <= m < items.len() && #[trigger] items[m] == Tree::Text(
                domain,
            );
            assert(category_lists(categories[n].1, m, domain));
        }
        if categories_list(categories, domain) {
            let (k, m) = choose|k: int, m: int|
                0 <= k < categories.len() && #[trigger] category_lists(
                    categories[k].1,
                    m,
                    domain,
                );
            if k < n {
                assert(category_lists(head[k].1, m, domain));
            } else {
                assert(items[m] == Tree::Text(domain));
            }
        }
    }
}

proof fn lemma_domains(
    weights: Map<Seq<char>, Binary64>,
    items: Seq<Tree>,
    weight: Binary64,
    domain: Seq<char>,
)
    ensures
        ({
            let listed = exists|m: int|
                0 <= m < items.len() && #[trigger] items[m] == Tree::Text(domain);
            &&& with_domains(weights, items, weight).contains_key(domain) <==> weights.contains_key(
                domain,
            ) || listed
            &&& listed ==> with_domains(weights, items, weight)[domain] == weight
            &&& !listed && weights.contains_key(domain) ==> with_domains(
                weights,
                items,
                weight,
            )[domain] == weights[domain]
        }),
    decreases items.len(),
{
    if items.len() > 0 {
        let n = items.len() - 1;
        let head = items.drop_last();
        lemma_domains(weights, head, weight, domain);
        if exists|m: int| 0 <= m < head.len() && #[trigger] head[m] == Tree::Text(domain) {
            let m = choose|m: int| 0 <= m < head.len() && #[trigger] head[m] == Tree::Text(domain);
            assert(items[m] == Tree::Text(domain));
        }
        if exists|m: int| 0 <= m < items.len() && #[trigger] items[m] == Tree::Text(domain) {
            let m = choose|m: int| 0 <= m < items.len() && #[trigger] items[m] == Tree::Text(
                domain,
            );
            if m < n {
                assert(head[m] == Tree::Text(domain));
            }
        }
        if items[n] == Tree::Text(domain) {
            assert(items[n] == Tree::Text(domain));
        }
    }
}

// --- Blocklist ---

/// A blocklist names what its lines name.
pub proof fn law_lines_are_read_one_by_one(a: Seq<char>, b: Seq<char>, domain: Seq<char>)
    ensures
        blocks(a.push('\n') + b, domain) <==> blocks(a, domain) || blocks(b, domain),
{
    law_separators_part(a, '\n', b, Separator::Newline);
    let left = split(a, Separator::Newline);
    let right = split(b, Separator::Newline);
    let all = split(a.push('\n') + b, Separator::Newline);
    if blocks(a, domain) {
        let i = choose|i: int|
            0 <= i < left.len() && blocked_domain(#[trigger] left[i]) == Some(domain);
        assert(all[i] == left[i]);
    }
    if blocks(b, domain) {
        let i = choose|i: int|
            0 <= i < right.len() && blocked_domain(#[trigger] right[i]) == Some(domain);
        assert(all[left.len() + i] == right[i]);
    }
    if blocks(a.push('\n') + b, domain) {
        let i = choose|i: int|
            0 <= i < all.len() && blocked_domain(#[trigger] all[i]) == Some(domain);
        if i < left.len() {
            assert(all[i] == left[i]);
        } else {
            assert(all[i] == right[i - left.len()]);
        }
    }
}

/// A line names the text between the white space around it, unless that is
/// empty or begins with a number sign.
pub proof fn law_line_names_a_domain(line: Seq<char>, domain: Seq<char>)
    requires
        !line.contains('\n'),
    ensures
        blocks(line, domain) <==> {
            &&& domain.len() > 0
            &&& domain[0] != '#'
            &&& !is_white_space(domain[0])
            &&& !is_white_space(domain.last())
            &&& exists|a: Seq<char>, b: Seq<char>|
                is_blank(a) && is_blank(b) && line == #[trigger] ((a + domain) + b)
        },
{
    reveal_strlit("#");
    assert forall|i: int| 0 <= i < line.len() implies !Separator::Newline.is_sep(
        #[trigger] line[i],
    ) by {
        if line[i] == '\n' {
            assert(line.contains(line[i]));
        }
    }
    law_unseparated_text_is_one_piece(line, Separator::Newline);
    law_trim(line);
    let kept = trim(line);
    assert(blocks(line, domain) <==> blocked_domain(line) == Some(domain)) by {
        assert(split(line, Separator::Newline)[0] == line);
    }
    assert(kept.len() > 0 ==> (begins(kept, "#"@) <==> kept[0] == '#')) by {
        if kept.len() > 0 {
            assert(kept.subrange(0, 1) =~= seq![kept[0]]);
            assert("#"@ =~= seq!['#']);
            if kept[0] == '#' {
                assert(kept.subrange(0, 1) =~= "#"@);
            }
            if begins(kept, "#"@) {
                assert(kept.subrange(0, 1)[0] == '#');
            }
        }
    }
    if domain.len() > 0 && !is_white_space(domain[0]) && !is_white_space(domain.last()) && exists|
        a: Seq<char>,
        b: Seq<char>,
    |
        is_blank(a) && is_blank(b) && line == #[trigger] ((a + domain) + b) {
        let (a, b) = choose|a: Seq<char>, b: Seq<char>|
            is_blank(a) && is_blank(b) && line == #[trigger] ((a + domain) + b);
        law_trimmed(a, domain, b);
    }
}

// --- Loaded data ---

/// What a file names is what its contents name, and its weights are those of
/// the document it holds.
pub proof fn law_files_are_read(text: &str, domain: Seq<char>)
    ensures
        file_blocks(Some(text), domain) <==> blocks(text@, domain),
        file_weights(Some(text)) is Some <==> toml_document(text@) is Some,
        toml_document(text@) is Some ==> file_weights(Some(text)) == Some(
            document_weights(toml_document(text@)->0),
        ),
{
}

/// A list blocks the domains that stand in it, and of the weights that are given
/// to a domain the last one holds.
pub proof fn law_lists_are_read(
    blocked: Seq<&str>,
    weights: Seq<(&str, Binary64)>,
    i: int,
    domain: Seq<char>,
)
    ensures
        listed_domains(blocked).contains(domain) <==> exists|j: int|
            0 <= j < blocked.len() && (#[trigger] blocked[j])@ == domain,
        listed_weights(weights).contains_key(domain) <==> exists|j: int|
            0 <= j < weights.len() && (#[trigger] weights[j]).0@ == domain,
        0 <= i < weights.len() && weights[i].0@ == domain && (forall|j: int|
            i < j < weights.len() ==> (#[trigger] weights[j]).0@ != domain) ==> listed_weights(
            weights,
        )[domain] == weights[i].1,
    decreases blocked.len() + weights.len(),
{
    if blocked.len() > 0 {
        let n = blocked.len() - 1;
        let head = blocked.drop_last();
        law_lists_are_read(head, weights, i, domain);
        if exists|j: int| 0 <= j < head.len() && (#[trigger] head[j])@ == domain {
            let j = choose|j: int| 0 <= j < head.len() && (#[trigger] head[j])@ == domain;
            assert(blocked[j]@ == domain);
        }
        if exists|j: int| 0 <= j < blocked.len() && (#[trigger] blocked[j])@ == domain {
            let j = choose|j: int| 0 <= j < blocked.len() && (#[trigger] blocked[j])@ == domain;
            if j < n {
                assert(head[j]@ == domain);
            }
        }
        if blocked[n]@ == domain {
            assert(blocked[n]@ == domain);
        }
    } else if weights.len() > 0 {
        let n = weights.len() - 1;
        let head = weights.drop_last();
        law_lists_are_read(blocked, head, i, domain);
        if exists|j: int| 0 <= j < head.len() && (#[trigger] head[j]).0@ == domain {
            let j = choose|j: int| 0 <= j < head.len() && (#[trigger] head[j]).0@ == domain;
            assert(weights[j].0@ == domain);
        }
        if exists|j: int| 0 <= j < weights.len() && (#[trigger] weights[j]).0@ == domain {
            let j = choose|j: int| 0 <= j < weights.len() && (#[trigger] weights[j]).0@ == domain;
            if j < n {
                assert(head[j].0@ == domain);
            }
        }
        if weights[n].0@ == domain {
            assert(weights[n].0@ == domain);
        }
        if 0 <= i < n && (forall|j: int|
            i < j < weights.len() ==> (#[trigger] weights[j]).0@ != domain) {
            assert(weights[n].0@ != domain);
            assert(head[i] == weights[i]);
            assert forall|j: int| i < j < head.len() implies (#[trigger] head[j]).0@
                != domain by {
                assert(head[j] == weights[j]);
            }
        }
    }
}

} // verus!
