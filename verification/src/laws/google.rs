//! Laws of the requests to Google and of its answers.

use crate::data::{entry, Tree};
use crate::engine::{EngineImageResult, EngineSearchResult};
use crate::google::{
    async_value, cleaned, first_found, gsa_user_agents, image_of, image_params, image_parts,
    images_of, internal_json, is_arc_id, is_blocked, is_stale, json_in_scripts,
    law_redirects_are_unwrapped, picked, result_rows, result_texts, results_of, search_params,
    suggest_params, suggestions, wrapped_destination, HttpRequest, ARC_CHARSET,
    INTERNAL_JSON_PATTERN,
};
use crate::text::{begins, occurs};
use crate::web::{
    first_group, html_inside, html_rows, pairs, percent_decoded, row_parts, url_with_query, Row,
    RowParts,
};
use vstd::prelude::*;

verus! {

// --- Arc ids ---

/// The characters of an arc_id are those at the picks, one for each.
pub proof fn law_picks_are_characters(picks: Seq<usize>)
    ensures
        picked(picks).len() == picks.len(),
        forall|i: int|
            0 <= i < picks.len() ==> #[trigger] picked(picks)[i] == ARC_CHARSET@[picks[i] as int],
{
}

/// An arc_id has 23 characters, each a letter or a digit of ASCII, a low line or
/// a hyphen, and each such character can stand in one.
pub proof fn law_characters_of_arc_ids(id: Seq<char>, c: char)
    ensures
        ARC_CHARSET@.contains(c) <==> 'a' <= c <= 'z' || 'A' <= c <= 'Z' || '0' <= c <= '9' || c
            == '_' || c == '-',
        is_arc_id(id) <==> id.len() == 23 && forall|i: int|
            0 <= i < id.len() ==> ARC_CHARSET@.contains(#[trigger] id[i]),
{
    reveal_strlit("abcdefghijklmnopqrstuvwxyzABCDEFGHIJKLMNOPQRSTUVWXYZ0123456789_-");
    let set = ARC_CHARSET@;
    if 'a' <= c <= 'z' {
        assert(set[c as int - 'a' as int] == c);
    } else if 'A' <= c <= 'Z' {
        assert(set[26 + (c as int - 'A' as int)] == c);
    } else if '0' <= c <= '9' {
        assert(set[52 + (c as int - '0' as int)] == c);
    } else if c == '_' {
        assert(set[62] == c);
    } else if c == '-' {
        assert(set[63] == c);
    }
}

/// An arc_id is stale once more than an hour of nanoseconds has passed.
pub proof fn law_arc_ids_live_an_hour(created: u128, now: u128)
    ensures
        is_stale(created, now) <==> now > created + 3600 * 1_000_000_000,
{
}

/// The parameter shows the arc_id between two fixed texts, whatever it is.
pub proof fn law_parameter_shows_the_arc_id(a: Seq<char>, b: Seq<char>)
    ensures
        async_value(a) == "arc_id:srp_"@ + a + "_100,use_ac:true,_fmt:prog"@,
        async_value(a) == async_value(b) ==> a == b,
{
    if async_value(a) == async_value(b) {
        reveal_strlit("arc_id:srp_");
        let x = async_value(a);
        let y = async_value(b);
        assert(x.len() == y.len());
        assert(a.len() == b.len());
        assert forall|i: int| 0 <= i < a.len() implies a[i] == b[i] by {
            assert(x[11 + i] == a[i]);
            assert(y[11 + i] == b[i]);
        }
        assert(a =~= b);
    }
}

/// The texts that the requests and the reading of answers rest on.
pub proof fn law_fixed_texts()
    ensures
        ARC_CHARSET@ == "abcdefghijklmnopqrstuvwxyzABCDEFGHIJKLMNOPQRSTUVWXYZ0123456789_-"@,
        INTERNAL_JSON_PATTERN@ == r#"(?:\(function\(\)\{google\.jl=\{.+?)var \w=(\{".+?\});"#@,
        gsa_user_agents().len() == 8,
        gsa_user_agents()[0]
            == "Mozilla/5.0 (iPhone14,6; CPU iPhone OS 17_7_2 like Mac OS X) AppleWebKit/605.1.15 (KHTML, like Gecko) GSA/344.0.695551749 Mobile/15E148 Safari/604.1"@,
        gsa_user_agents()[1]
            == "Mozilla/5.0 (iPhone16,2; CPU iPhone OS 18_1_1 like Mac OS X) AppleWebKit/605.1.15 (KHTML, like Gecko) GSA/345.1.700380567 Mobile/15E148 Safari/604.1"@,
        gsa_user_agents()[2]
            == "Mozilla/5.0 (iPhone15,3; CPU iPhone OS 17_6_1 like Mac OS X) AppleWebKit/605.1.15 (KHTML, like Gecko) GSA/343.0.694165092 Mobile/15E148 Safari/604.1"@,
        gsa_user_agents()[3]
            == "Mozilla/5.0 (iPhone16,1; CPU iPhone OS 18_0_1 like Mac OS X) AppleWebKit/605.1.15 (KHTML, like Gecko) GSA/344.0.695551749 Mobile/15E148 Safari/604.1"@,
        gsa_user_agents()[4]
            == "Mozilla/5.0 (iPhone14,7; CPU iPhone OS 17_5 like Mac OS X) AppleWebKit/605.1.15 (KHTML, like Gecko) GSA/342.0.693056097 Mobile/15E148 Safari/604.1"@,
        gsa_user_agents()[5]
            == "Mozilla/5.0 (iPhone15,4; CPU iPhone OS 18_1 like Mac OS X) AppleWebKit/605.1.15 (KHTML, like Gecko) GSA/345.1.700380567 Mobile/15E148 Safari/604.1"@,
        gsa_user_agents()[6]
            == "Mozilla/5.0 (iPhone16,2; CPU iPhone OS 17_7 like Mac OS X) AppleWebKit/605.1.15 (KHTML, like Gecko) GSA/343.0.694165092 Mobile/15E148 Safari/604.1"@,
        gsa_user_agents()[7]
            == "Mozilla/5.0 (iPhone15,2; CPU iPhone OS 18_0 like Mac OS X) AppleWebKit/605.1.15 (KHTML, like Gecko) GSA/344.0.695551749 Mobile/15E148 Safari/604.1"@,
{
}

// --- Requests ---

/// A search asks for the query and shows the parameter; nothing else in it
/// depends on either.
pub proof fn law_search_parameters(query: Seq<char>, param: Seq<char>)
    ensures
        search_params(query, param).len() == 8,
        search_params(query, param)[0] == ("q"@, query),
        search_params(query, param)[1] == ("hl"@, "en-US"@),
        search_params(query, param)[2] == ("ie"@, "utf8"@),
        search_params(query, param)[3] == ("oe"@, "utf8"@),
        search_params(query, param)[4] == ("filter"@, "0"@),
        search_params(query, param)[5] == ("start"@, "0"@),
        search_params(query, param)[6] == ("asearch"@, "arc"@),
        search_params(query, param)[7] == ("async"@, param),
{
}

/// Requests for suggestions and for images ask for the query, and nothing else
/// in them depends on it.
pub proof fn law_other_parameters(query: Seq<char>)
    ensures
        suggest_params(query).len() == 4,
        suggest_params(query)[0] == ("output"@, "firefox"@),
        suggest_params(query)[1] == ("client"@, "firefox"@),
        suggest_params(query)[2] == ("hl"@, "US-en"@),
        suggest_params(query)[3] == ("q"@, query),
        image_params(query).len() == 3,
        image_params(query)[0] == ("q"@, query),
        image_params(query)[1] == ("udm"@, "2"@),
        image_params(query)[2] == ("prmd"@, "ivsnmbtz"@),
{
}

/// A search is the URL with its parameters, and says who asks in the first of
/// six headers, of which the others are fixed.
pub proof fn law_search_requests(
    request: HttpRequest,
    query: Seq<char>,
    param: Seq<char>,
    agent: Seq<char>,
)
    requires
        request.is_search(query, param, agent),
    ensures
        request.url@ == url_with_query(
            "https://www.google.com/search"@,
            search_params(query, param),
        ),
        request.headers@.len() == 6,
        request.headers@[0].0@ == "User-Agent"@ && request.headers@[0].1@ == agent,
        request.headers@[1].0@ == "Accept"@ && request.headers@[1].1@ == "*/*"@,
        request.headers@[2].0@ == "Cookie"@ && request.headers@[2].1@ == "CONSENT=YES+"@,
        request.headers@[3].0@ == "Sec-Fetch-Dest"@ && request.headers@[3].1@ == "empty"@,
        request.headers@[4].0@ == "Sec-Fetch-Mode"@ && request.headers@[4].1@ == "cors"@,
        request.headers@[5].0@ == "Sec-Fetch-Site"@ && request.headers@[5].1@ == "same-origin"@,
        gsa_user_agents().len() == 8,
{
    let all = pairs(request.headers@);
    assert(all.len() == request.headers@.len());
    assert forall|i: int| 0 <= i < all.len() implies #[trigger] all[i] == (
        request.headers@[i].0@,
        request.headers@[i].1@,
    ) by {}
    assert(all[0] == ("User-Agent"@, agent));
    assert(all[1] == ("Accept"@, "*/*"@));
    assert(all[2] == ("Cookie"@, "CONSENT=YES+"@));
    assert(all[3] == ("Sec-Fetch-Dest"@, "empty"@));
    assert(all[4] == ("Sec-Fetch-Mode"@, "cors"@));
    assert(all[5] == ("Sec-Fetch-Site"@, "same-origin"@));
}

// --- Redirects ---

/// A redirect leads to what it wraps, decoded where that can be done and as it
/// is where it cannot; text without a percent sign is its own decoding.
pub proof fn law_redirects_lead_to_what_they_wrap(encoded: Seq<char>, rest: Seq<char>)
    requires
        !occurs(encoded, "&sa=U"@),
    ensures
        !encoded.contains('%') ==> cleaned("/url?q="@ + encoded + "&sa=U"@ + rest) == encoded,
        !encoded.contains('%') ==> cleaned("/url?q="@ + encoded) == encoded,
        encoded.contains('%') && percent_decoded(encoded) is Some ==> cleaned(
            "/url?q="@ + encoded + "&sa=U"@ + rest,
        ) == percent_decoded(encoded)->0,
        encoded.contains('%') && percent_decoded(encoded) is None ==> cleaned(
            "/url?q="@ + encoded + "&sa=U"@ + rest,
        ) == encoded,
        cleaned("/url?q="@ + encoded) == cleaned("/url?q="@ + encoded + "&sa=U"@ + rest),
{
    law_redirects_are_unwrapped(encoded, rest);
}

/// A URL that does not begin as a redirect does is left as it is.
pub proof fn law_other_urls_are_left(url: Seq<char>)
    requires
        !begins(url, "/url?q="@),
    ensures
        cleaned(url) == url,
        wrapped_destination(url) is None,
{
}

// --- Search results ---

/// An answer is a block page where one of two texts stands in it.
pub proof fn law_block_pages(a: Seq<char>, b: Seq<char>, body: Seq<char>)
    ensures
        is_blocked(a + "sorry.google.com"@ + b),
        is_blocked(a + "/sorry/index"@ + b),
        is_blocked(body) ==> exists|x: Seq<char>, y: Seq<char>|
            body == #[trigger] ((x + "sorry.google.com"@) + y) || body == (x + "/sorry/index"@) + y,
{
    let one = a + "sorry.google.com"@ + b;
    let two = a + "/sorry/index"@ + b;
    let at = a.len() as int;
    assert(one.subrange(at, at + "sorry.google.com"@.len()) =~= "sorry.google.com"@);
    assert(two.subrange(at, at + "/sorry/index"@.len()) =~= "/sorry/index"@);
    assert(crate::text::occurs_at(one, "sorry.google.com"@, at));
    assert(crate::text::occurs_at(two, "/sorry/index"@, at));
    if is_blocked(body) {
        crate::laws::text::law_occurrences(body, "sorry.google.com"@);
        crate::laws::text::law_occurrences(body, "/sorry/index"@);
        if occurs(body, "sorry.google.com"@) {
            let (x, y) = choose|x: Seq<char>, y: Seq<char>|
                body == #[trigger] ((x + "sorry.google.com"@) + y);
            assert(body == (x + "sorry.google.com"@) + y);
        } else {
            let (x, y) = choose|x: Seq<char>, y: Seq<char>|
                body == #[trigger] ((x + "/sorry/index"@) + y);
            let z = (x + "sorry.google.com"@) + y;
            assert(body == (x + "/sorry/index"@) + y);
        }
    }
}

/// Each element becomes one result, in its turn: with its first title, its first
/// description, and the destination of its first link; what is missing is empty.
pub proof fn law_elements_become_results(rows: Seq<RowParts>, i: int)
    requires
        0 <= i < rows.len(),
    ensures
        results_of(rows).len() == rows.len(),
        ({
            let row = rows[i];
            let result = results_of(rows)[i];
            &&& row.titles.len() > 0 ==> result.title == row.titles[0]
            &&& row.titles.len() == 0 ==> result.title.len() == 0
            &&& row.descriptions.len() > 0 ==> result.description == row.descriptions[0]
            &&& row.descriptions.len() == 0 ==> result.description.len() == 0
            &&& row.links.len() > 0 && row.links[0] is Some ==> result.url == cleaned(
                row.links[0]->0,
            )
            &&& row.links.len() == 0 || row.links[0] is None ==> result.url.len() == 0
        }),
{
    reveal_strlit("/url?q=");
    let none = Seq::<char>::empty();
    assert(!begins(none, "/url?q="@));
    law_other_urls_are_left(none);
}

/// The elements are those that the selectors of the answer select.
pub proof fn law_elements_of_answers(body: Seq<char>)
    ensures
        result_rows(body) == html_rows(
            body,
            "div.MjjYud"@,
            "div[role='link']"@,
            "a[href]"@,
            "href"@,
            "div[data-sncf='1']"@,
        ),
{
}

/// Results and elements are what their fields hold.
pub proof fn law_results_are_their_fields(
    result: EngineSearchResult,
    results: Seq<EngineSearchResult>,
    row: Row,
    rows: Seq<Row>,
)
    ensures
        result@.url == result.url@,
        result@.title == result.title@,
        result@.description == result.description@,
        result_texts(results).len() == results.len(),
        forall|i: int|
            0 <= i < results.len() ==> #[trigger] result_texts(results)[i] == results[i]@,
        row@.titles.len() == row.titles@.len(),
        forall|i: int|
            0 <= i < row.titles@.len() ==> #[trigger] row@.titles[i] == row.titles@[i]@,
        row@.descriptions.len() == row.descriptions@.len(),
        forall|i: int|
            0 <= i < row.descriptions@.len() ==> #[trigger] row@.descriptions[i]
                == row.descriptions@[i]@,
        row@.links.len() == row.links@.len(),
        forall|i: int|
            0 <= i < row.links@.len() ==> {
                &&& (#[trigger] row@.links[i]) is Some <==> row.links@[i] is Some
                &&& row.links@[i] is Some ==> row@.links[i]->0 == row.links@[i]->0@
            },
        row_parts(rows).len() == rows.len(),
        forall|i: int| 0 <= i < rows.len() ==> #[trigger] row_parts(rows)[i] == rows[i]@,
{
}

// --- Suggestions ---

/// The suggestions are the texts of the second item of a list, in their order,
/// with an empty one for what is no text; without such a list there are none.
pub proof fn law_suggestions_are_the_second_item(items: Seq<Tree>, i: int)
    ensures
        suggestions(Tree::List(items)) is Some,
        items.len() > 1 && items[1] is List ==> {
            let found = suggestions(Tree::List(items))->0;
            let list = items[1]->List_0;
            &&& found.len() == list.len()
            &&& 0 <= i < list.len() && list[i] is Text ==> found[i] == list[i]->Text_0
            &&& 0 <= i < list.len() && !(list[i] is Text) ==> found[i].len() == 0
        },
        items.len() <= 1 || !(items[1] is List) ==> suggestions(Tree::List(items))->0.len() == 0,
{
}

/// Only lists hold suggestions.
pub proof fn law_other_documents_hold_no_suggestions(document: Tree)
    requires
        !(document is List),
    ensures
        suggestions(document) is None,
{
}

// --- Images ---

/// Whether an element has the form of an image: its second item is a list whose
/// fourth item is a list of an address, a width and a height, and whose tenth
/// item is a table with, under "2003", a list with the address and the title of
/// a page in third and fourth place.
pub open spec fn shows_image(
    element: Tree,
    image_url: Seq<char>,
    width: int,
    height: int,
    page_url: Seq<char>,
    title: Seq<char>,
) -> bool {
    &&& element is List
    &&& element->List_0.len() > 1
    &&& element->List_0[1] is List
    &&& element->List_0[1]->List_0.len() > 9
    &&& element->List_0[1]->List_0[3] is List
    &&& element->List_0[1]->List_0[3]->List_0.len() == 3
    &&& element->List_0[1]->List_0[3]->List_0[0] == Tree::Text(image_url)
    &&& element->List_0[1]->List_0[3]->List_0[1] == Tree::Integer(width)
    &&& element->List_0[1]->List_0[3]->List_0[2] == Tree::Integer(height)
    &&& 0 <= width < 0x1_0000_0000_0000_0000
    &&& 0 <= height < 0x1_0000_0000_0000_0000
    &&& element->List_0[1]->List_0[9] is Table
    &&& entry(element->List_0[1]->List_0[9]->Table_0, "2003"@) is Some
    &&& entry(element->List_0[1]->List_0[9]->Table_0, "2003"@)->0 is List
    &&& entry(element->List_0[1]->List_0[9]->Table_0, "2003"@)->0->List_0.len() > 3
    &&& entry(element->List_0[1]->List_0[9]->Table_0, "2003"@)->0->List_0[2] == Tree::Text(page_url)
    &&& entry(element->List_0[1]->List_0[9]->Table_0, "2003"@)->0->List_0[3] == Tree::Text(title)
}

/// An element is read as an image exactly where it has the form of one, and the
/// image has the address, width and height of the picture, in this order, and
/// the address and title of the page.
pub proof fn law_images_are_what_elements_show(
    element: Tree,
    image_url: Seq<char>,
    width: int,
    height: int,
    page_url: Seq<char>,
    title: Seq<char>,
)
    ensures
        image_of(element) matches Some(image) ==> shows_image(
            element,
            image.image_url,
            image.width as int,
            image.height as int,
            image.page_url,
            image.title,
        ),
        shows_image(element, image_url, width, height, page_url, title) ==> image_of(element) is Some,
        shows_image(element, image_url, width, height, page_url, title) ==> {
            let image = image_of(element)->0;
            &&& image.image_url == image_url
            &&& image.width == width
            &&& image.height == height
            &&& image.page_url == page_url
            &&& image.title == title
        },
{
}

/// An element by itself gives its image, or nothing.
pub proof fn law_images_of_one_element(key: Seq<char>, element: Tree)
    ensures
        image_of(element) is Some ==> images_of(seq![(key, element)]) == seq![image_of(element)->0],
        image_of(element) is None ==> images_of(seq![(key, element)]).len() == 0,
        images_of(Seq::empty()).len() == 0,
{
    let one = seq![(key, element)];
    assert(one.drop_last() =~= Seq::empty());
    assert(images_of(one.drop_last()) =~= Seq::empty());
    if image_of(element) is Some {
        assert(images_of(one) =~= seq![image_of(element)->0]);
    }
}

/// Images are what their fields hold.
pub proof fn law_images_are_their_fields(
    image: EngineImageResult,
    images: Seq<EngineImageResult>,
)
    ensures
        image@.image_url == image.image_url@,
        image@.page_url == image.page_url@,
        image@.title == image.title@,
        image@.width == image.width,
        image@.height == image.height,
        image_parts(images).len() == images.len(),
        forall|i: int| 0 <= i < images.len() ==> #[trigger] image_parts(images)[i] == images[i]@,
{
}

/// The internal JSON is what the pattern finds in the first script in which it
/// finds anything.
pub proof fn law_first_script_with_json(body: Seq<char>, i: int)
    ensures
        ({
            let scripts = html_inside(body, "script"@);
            &&& internal_json(body) is None <==> forall|j: int|
                0 <= j < scripts.len() ==> first_group(
                    INTERNAL_JSON_PATTERN@,
                    #[trigger] scripts[j],
                ) is None
            &&& 0 <= i < scripts.len() && first_group(INTERNAL_JSON_PATTERN@, scripts[i]) is Some
                && (forall|j: int|
                0 <= j < i ==> first_group(INTERNAL_JSON_PATTERN@, #[trigger] scripts[j]) is None)
                ==> internal_json(body) == first_group(INTERNAL_JSON_PATTERN@, scripts[i])
        }),
{
    let scripts = html_inside(body, "script"@);
    let found = json_in_scripts(scripts);
    assert(found.len() == scripts.len());
    assert forall|j: int| 0 <= j < scripts.len() implies #[trigger] found[j] == first_group(
        INTERNAL_JSON_PATTERN@,
        scripts[j],
    ) by {}
    law_first_of_what_is_found(found, i);
    if internal_json(body) is None {
        assert forall|j: int| 0 <= j < scripts.len() implies first_group(
            INTERNAL_JSON_PATTERN@,
            #[trigger] scripts[j],
        ) is None by {
            assert(found[j] is None);
        }
    }
    if 0 <= i < scripts.len() && first_group(INTERNAL_JSON_PATTERN@, scripts[i]) is Some && (
    forall|j: int| 0 <= j < i ==> first_group(INTERNAL_JSON_PATTERN@, #[trigger] scripts[j]) is None) {
        assert forall|j: int| 0 <= j < i implies (#[trigger] found[j]) is None by {
            assert(first_group(INTERNAL_JSON_PATTERN@, scripts[j]) is None);
        }
    }
    if forall|j: int|
        0 <= j < scripts.len() ==> first_group(
            INTERNAL_JSON_PATTERN@,
            #[trigger] scripts[j],
        ) is None {
        assert forall|j: int| 0 <= j < found.len() implies (#[trigger] found[j]) is None by {
            assert(first_group(INTERNAL_JSON_PATTERN@, scripts[j]) is None);
        }
    }
}

/// Of what is found here and there, the first holds.
pub proof fn law_first_of_what_is_found(found: Seq<Option<Seq<char>>>, i: int)
    ensures
        first_found(found) is None <==> forall|j: int|
            0 <= j < found.len() ==> (#[trigger] found[j]) is None,
        0 <= i < found.len() && found[i] is Some && (forall|j: int|
            0 <= j < i ==> (#[trigger] found[j]) is None) ==> first_found(found) == found[i],
    decreases found.len(),
{
    if found.len() > 0 {
        if found[0] is None {
            let rest = found.drop_first();
            law_first_of_what_is_found(rest, i - 1);
            assert forall|j: int| 0 <= j < rest.len() implies #[trigger] rest[j] == found[j + 1] by {
            }
            if forall|j: int| 0 <= j < rest.len() ==> (#[trigger] rest[j]) is None {
                assert forall|j: int| 0 <= j < found.len() implies (
                #[trigger] found[j]) is None by {
                    if j > 0 {
                        assert(rest[j - 1] == found[j]);
                    }
                }
            }
            if 0 < i < found.len() {
                assert(rest[i - 1] == found[i]);
            }
        }
    }
}

} // verus!
