//! Laws of the source of a result: its domain and the structure of its URL.

use crate::laws::text::{
    law_separators_are_counted, law_separators_part, law_unseparated_text_is_one_piece,
};
use crate::reputation::RerankData;
use crate::source_identity::{
    domain_of, identity, parts_domain, url_domain, url_signals, Identity, IdentityValue, UrlSignals,
};
use crate::text::{begins, ends, occurs, occurs_at, split, words, Separator};
use crate::unicode::{ascii_lowercase, lowered};
use crate::web::{
    any_occurs, is_plain_host, is_plain_path, parts_of, plain_parts, ParsedUrl, UrlParts,
};
use vstd::prelude::*;
use vstd::utf8::is_ascii_chars;

verus! {

// --- URLs ---

/// A URL of a plain host and path has these as its host and path, and a text
/// without a colon is no URL.
pub proof fn law_plain_urls_are_taken_apart(host: Seq<char>, path: Seq<char>, text: Seq<char>)
    requires
        is_plain_host(host),
        is_plain_path(path),
        path.len() > 0,
        path[0] == '/',
        !text.contains(':'),
    ensures
        parts_of("https://"@ + host + path) == Some(UrlParts { host: Some(host), path }),
        url_domain("https://"@ + host + path) == Some(domain_of(host)),
        parts_of(text) is None,
        url_domain(text) is None,
{
    reveal_strlit("https://");
    let url = "https://"@ + host + path;
    assert(url.subrange(0, 8) =~= "https://"@);
    let rest = url.skip(8);
    let n = host.len() as int;
    assert(rest[n] == '/');
    rest.index_of_first_ensures('/');
    assert(rest.contains('/'));
    let at = rest.index_of_first('/').unwrap();
    if at < n {
        assert(host[at] == rest[at]);
        assert('a' <= host[at] <= 'z' || host[at] == '.');
    }
    assert(at == n);
    assert(rest.take(n) =~= host);
    assert(rest.skip(n) =~= path);
    if plain_parts(text) is Some {
        assert(text.subrange(0, 8)[5] == ':');
        assert(text.contains(text[5]));
    }
}

/// The domain of a URL comes from its host alone.
pub proof fn law_domain_comes_from_the_host(host: Seq<char>, path: Seq<char>)
    ensures
        parts_domain(UrlParts { host: Some(host), path }) == Some(domain_of(host)),
        parts_domain(UrlParts { host: None, path }) is None,
{
}

// --- Structure ---

/// Depth, tokens and subdomains are counted by the characters that part them.
pub proof fn law_signal_counts(path: Seq<char>, domain: Seq<char>)
    ensures
        url_signals(path, domain).url_depth == Set::new(
            |i: int| 0 <= i < path.len() && path[i] == '/',
        ).len(),
        url_signals(path, domain).domain_token_count == Set::new(
            |i: int| 0 <= i < domain.len() && (domain[i] == '.' || domain[i] == '-'),
        ).len() + 1,
        url_signals(path, domain).has_subdomain <==> Set::new(
            |i: int| 0 <= i < domain.len() && domain[i] == '.',
        ).len() >= 2,
{
    law_separators_are_counted(path, Separator::Slash);
    law_separators_are_counted(domain, Separator::Token);
    law_separators_are_counted(domain, Separator::Dot);
    assert(Set::new(|i: int| 0 <= i < path.len() && path[i] == '/') =~= Set::new(
        |i: int| 0 <= i < path.len() && Separator::Slash.is_sep(path[i]),
    ));
    assert(Set::new(
        |i: int| 0 <= i < domain.len() && (domain[i] == '.' || domain[i] == '-'),
    ) =~= Set::new(|i: int| 0 <= i < domain.len() && Separator::Token.is_sep(domain[i])));
    assert(Set::new(|i: int| 0 <= i < domain.len() && domain[i] == '.') =~= Set::new(
        |i: int| 0 <= i < domain.len() && Separator::Dot.is_sep(domain[i]),
    ));
}

/// The words of the slug are those of the last segment of the path, whatever
/// stands before it.
pub proof fn law_slug_is_the_last_segment(front: Seq<char>, slug: Seq<char>, domain: Seq<char>)
    requires
        !slug.contains('/'),
    ensures
        url_signals(front.push('/') + slug, domain).url_slug_word_count == words(
            slug,
            Separator::Hyphen,
        ).len(),
        url_signals(slug, domain).url_slug_word_count == words(slug, Separator::Hyphen).len(),
{
    assert forall|i: int| 0 <= i < slug.len() implies !Separator::Slash.is_sep(
        #[trigger] slug[i],
    ) by {
        if slug[i] == '/' {
            assert(slug.contains(slug[i]));
        }
    }
    law_unseparated_text_is_one_piece(slug, Separator::Slash);
    law_separators_part(front, '/', slug, Separator::Slash);
    assert(split(front.push('/') + slug, Separator::Slash).last() == slug);
}

/// What marks the path of documentation.
pub open spec fn docs_marks() -> Seq<Seq<char>> {
    seq!["/docs/"@, "/api/"@, "/reference/"@, "/manual/"@, "/wiki/"@, "/spec/"@]
}

/// What marks the path of a forum.
pub open spec fn forum_marks() -> Seq<Seq<char>> {
    seq!["/forum/"@, "/discuss/"@, "/community/"@, "/questions/"@, "/answers/"@]
}

/// The institutional top-level domains.
pub open spec fn institutional_ends() -> Seq<Seq<char>> {
    seq![".edu"@, ".gov"@, ".org"@, ".mil"@]
}

/// What marks a commercial domain.
pub open spec fn commercial_marks() -> Seq<Seq<char>> {
    seq![
        "store"@, "shop"@, "buy"@, "order"@, "supply"@, "supplies"@, "mart"@, "outlet"@, "deals"@,
        "pricing"@, "law"@, "legal"@, "attorney"@, "lawyer"@, "consult"@, "clinic"@, "therapy"@,
        "advisor"@, "seo"@, "marketing"@, "agency"@, "growth"@, "leadgen"@, "funnel"@,
    ]
}

/// A path looks like documentation or a forum where, in lowercase, it has one
/// of their marks; a domain is institutional by how it ends, and commercial by
/// what it has in it.
pub proof fn law_marks_decide(path: Seq<char>, domain: Seq<char>)
    ensures
        url_signals(path, domain).is_docs_path <==> exists|k: int|
            0 <= k < docs_marks().len() && occurs(lowered(path), #[trigger] docs_marks()[k]),
        url_signals(path, domain).is_forum_path <==> exists|k: int|
            0 <= k < forum_marks().len() && occurs(lowered(path), #[trigger] forum_marks()[k]),
        url_signals(path, domain).is_institutional_tld <==> exists|k: int|
            0 <= k < institutional_ends().len() && ends(domain, #[trigger] institutional_ends()[k]),
        url_signals(path, domain).is_commercial_pattern <==> exists|k: int|
            0 <= k < commercial_marks().len() && occurs(domain, #[trigger] commercial_marks()[k]),
{
    let low = lowered(path);
    let docs = docs_marks();
    let forum = forum_marks();
    let inst = institutional_ends();
    if url_signals(path, domain).is_docs_path {
        assert(occurs(low, docs[0]) || occurs(low, docs[1]) || occurs(low, docs[2]) || occurs(
            low,
            docs[3],
        ) || occurs(low, docs[4]) || occurs(low, docs[5]));
    }
    if url_signals(path, domain).is_forum_path {
        assert(occurs(low, forum[0]) || occurs(low, forum[1]) || occurs(low, forum[2]) || occurs(
            low,
            forum[3],
        ) || occurs(low, forum[4]));
    }
    if url_signals(path, domain).is_institutional_tld {
        assert(ends(domain, inst[0]) || ends(domain, inst[1]) || ends(domain, inst[2]) || ends(
            domain,
            inst[3],
        ));
    }
    let marks = commercial_marks();
    let words = crate::source_identity::commercial_words();
    assert(words.len() == marks.len());
    assert forall|k: int| 0 <= k < marks.len() implies #[trigger] words[k]@ == marks[k] by {}
    if any_occurs(words, domain) {
        let k = choose|k: int| 0 <= k < words.len() && occurs(domain, (#[trigger] words[k])@);
        assert(words[k]@ == marks[k]);
        assert(occurs(domain, marks[k]));
    }
    if exists|k: int| 0 <= k < marks.len() && occurs(domain, #[trigger] marks[k]) {
        let k = choose|k: int| 0 <= k < marks.len() && occurs(domain, #[trigger] marks[k]);
        assert(words[k]@ == marks[k]);
    }
}

/// The marks of a path count in any letter case.
pub proof fn law_path_marks_in_any_case(
    a: Seq<char>,
    mark: Seq<char>,
    b: Seq<char>,
    k: int,
    domain: Seq<char>,
)
    requires
        is_ascii_chars((a + mark) + b),
    ensures
        0 <= k < docs_marks().len() && ascii_lowercase(mark) == docs_marks()[k] ==> url_signals(
            (a + mark) + b,
            domain,
        ).is_docs_path,
        0 <= k < forum_marks().len() && ascii_lowercase(mark) == forum_marks()[k] ==> url_signals(
            (a + mark) + b,
            domain,
        ).is_forum_path,
{
    let path = (a + mark) + b;
    let low = lowered(path);
    let at = a.len() as int;
    assert(ascii_lowercase(mark).len() == mark.len());
    assert(low.subrange(at, at + mark.len()) =~= ascii_lowercase(mark));
    assert(occurs_at(low, ascii_lowercase(mark), at));
    law_marks_decide(path, domain);
}

/// The signals are the fields that hold them.
pub proof fn law_signals_are_their_fields(signals: UrlSignals)
    ensures
        signals@.url_depth == signals.url_depth,
        signals@.url_slug_word_count == signals.url_slug_word_count,
        signals@.is_docs_path == signals.is_docs_path,
        signals@.is_forum_path == signals.is_forum_path,
        signals@.is_institutional_tld == signals.is_institutional_tld,
        signals@.domain_token_count == signals.domain_token_count,
        signals@.has_subdomain == signals.has_subdomain,
        signals@.is_commercial_pattern == signals.is_commercial_pattern,
{
}

// --- Identity ---

/// A URL without a host says nothing of its source. Of any other, the weight of
/// its domain and the signals of its path and domain are known, unless the
/// weight is zero.
pub proof fn law_identity_of_parts(data: &RerankData, host: Seq<char>, path: Seq<char>)
    ensures
        identity(data, None) == Some(IdentityValue::Neutral),
        identity(data, Some(UrlParts { host: None, path })) == Some(IdentityValue::Neutral),
        ({
            let domain = if begins(host, "www."@) {
                host.skip(4)
            } else {
                host
            };
            let weight = data.weight(domain);
            identity(data, Some(UrlParts { host: Some(host), path })) == if weight.place() == 0 {
                None
            } else {
                Some(IdentityValue::Known { weight, signals: url_signals(path, domain) })
            }
        }),
{
}

/// An identity is what its fields hold, and a URL that was taken apart is its
/// host and its path.
pub proof fn law_identities_are_their_fields(identity: Identity, parsed: ParsedUrl)
    ensures
        identity is Neutral <==> identity@ is Neutral,
        identity is Known ==> identity@ == (IdentityValue::Known {
            weight: identity->weight,
            signals: identity->signals@,
        }),
        parsed@.path == parsed.path@,
        parsed@.host is Some <==> parsed.host is Some,
        parsed.host is Some ==> parsed@.host->0 == parsed.host->0@,
{
}

} // verus!
