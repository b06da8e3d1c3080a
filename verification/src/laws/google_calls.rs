//! Laws of calls to the Google engine: what is asked, and what is read.

use crate::data::{json_document, Data, Tree};
use crate::engine::{
    EngineImageResult, EngineImagesResponse, EngineResponse, EngineSearchResult, SearchQuery,
};
use crate::google::{
    arc_id, async_param, clean_url, cleaned, destination, find_internal_json, generate_arc_id,
    get_async_param, gsa_user_agents, image_of, image_params, images_of, internal_json, is_arc_id,
    parse_autocomplete_response, parse_images_response, parse_response, read_image, read_images,
    read_rows, read_suggestions, request, request_autocomplete, request_images, request_with,
    result_rows, search_params, suggest_params, suggestions, user_agent, ArcId, GoogleError,
    HttpRequest, ARC_CHARSET, INTERNAL_JSON_PATTERN,
};
use crate::laws::google::{law_first_of_what_is_found, law_search_requests, shows_image};
use crate::text::occurs;
use crate::web::{first_group, is_pattern, pairs, percent_decoded, url_with_query, Row, RowParts};
use vstd::prelude::*;

verus! {

// --- Arc ids and requests ---

/// An arc_id is made of the picked characters, is shown between fixed texts, and
/// is stale after an hour.
pub proof fn law_made_arc_ids(
    picks: &Vec<usize>,
    id: String,
    generated: String,
    text: &str,
    param: String,
    arc: &ArcId,
    now: u128,
    stale: bool,
)
    requires
        call_ensures(arc_id, (picks,), id),
        call_ensures(generate_arc_id, (), generated),
        call_ensures(async_param, (text,), param),
        call_ensures(ArcId::stale, (arc, now), stale),
    ensures
        id@.len() == picks@.len(),
        forall|i: int|
            0 <= i < picks@.len() ==> #[trigger] id@[i] == ARC_CHARSET@[picks@[i] as int],
        generated@.len() == 23,
        forall|i: int|
            0 <= i < generated@.len() ==> ARC_CHARSET@.contains(#[trigger] generated@[i]),
        param@ == "arc_id:srp_"@ + text@ + "_100,use_ac:true,_fmt:prog"@,
        stale <==> now > arc.created + 3600 * 1_000_000_000,
{
}

/// A fresh arc_id is used again, and a stale one makes way for a new one that is
/// fresh from now on.
pub proof fn law_used_arc_ids(now: u128, fresh: String, search: &SearchQuery)
    ensures
        forall|arc: &mut ArcId| #[trigger]
            call_ensures(ArcId::rotate, (arc, now, fresh), ()) ==> if now > arc.created + 3600
                * 1_000_000_000 {
                final(arc).id == fresh && final(arc).created == now
            } else {
                final(arc).id == arc.id && final(arc).created == arc.created
            },
        forall|arc: &mut ArcId, r: String| #[trigger]
            call_ensures(get_async_param, (arc, now), r) ==> {
                &&& r@ == "arc_id:srp_"@ + final(arc).id@ + "_100,use_ac:true,_fmt:prog"@
                &&& now > arc.created + 3600 * 1_000_000_000 ==> final(arc).created == now
                    && is_arc_id(final(arc).id@)
                &&& now <= arc.created + 3600 * 1_000_000_000 ==> *final(arc) == *arc
            },
        forall|arc: &mut ArcId, r: HttpRequest| #[trigger]
            call_ensures(request, (search, arc, now), r) ==> {
                &&& r.url@ == url_with_query(
                    "https://www.google.com/search"@,
                    search_params(
                        search.query@,
                        "arc_id:srp_"@ + final(arc).id@ + "_100,use_ac:true,_fmt:prog"@,
                    ),
                )
                &&& r.headers@.len() == 6
                &&& r.headers@[0].0@ == "User-Agent"@ && gsa_user_agents().contains(
                    r.headers@[0].1@,
                )
                &&& now > arc.created + 3600 * 1_000_000_000 ==> final(arc).created == now
                    && is_arc_id(final(arc).id@)
                &&& now <= arc.created + 3600 * 1_000_000_000 ==> *final(arc) == *arc
            },
{
    assert forall|arc: &mut ArcId, r: HttpRequest| #[trigger]
        call_ensures(request, (search, arc, now), r) implies {
        &&& r.url@ == url_with_query(
            "https://www.google.com/search"@,
            search_params(
                search.query@,
                "arc_id:srp_"@ + final(arc).id@ + "_100,use_ac:true,_fmt:prog"@,
            ),
        )
        &&& r.headers@.len() == 6
        &&& r.headers@[0].0@ == "User-Agent"@ && gsa_user_agents().contains(r.headers@[0].1@)
        &&& now > arc.created + 3600 * 1_000_000_000 ==> final(arc).created == now && is_arc_id(
            final(arc).id@,
        )
        &&& now <= arc.created + 3600 * 1_000_000_000 ==> *final(arc) == *arc
    } by {
        let param = crate::google::async_value(final(arc).id@);
        let i = choose|i: int|
            0 <= i < gsa_user_agents().len() && r.is_search(
                search.query@,
                param,
                #[trigger] gsa_user_agents()[i],
            );
        law_search_requests(r, search.query@, param, gsa_user_agents()[i]);
    }
}

/// Requests ask Google for the query with the parameters that belong to them.
pub proof fn law_made_requests(
    query: &str,
    param: &str,
    agent: &'static str,
    r: HttpRequest,
    suggest: String,
    images: String,
    i: usize,
    named: &'static str,
)
    requires
        call_ensures(request_with, (query, param, agent), r),
        call_ensures(request_autocomplete, (query,), suggest),
        call_ensures(request_images, (query,), images),
        i < 8,
        call_ensures(user_agent, (i,), named),
    ensures
        r.url@ == url_with_query(
            "https://www.google.com/search"@,
            seq![
                ("q"@, query@),
                ("hl"@, "en-US"@),
                ("ie"@, "utf8"@),
                ("oe"@, "utf8"@),
                ("filter"@, "0"@),
                ("start"@, "0"@),
                ("asearch"@, "arc"@),
                ("async"@, param@),
            ],
        ),
        pairs(r.headers@) == seq![
            ("User-Agent"@, agent@),
            ("Accept"@, "*/*"@),
            ("Cookie"@, "CONSENT=YES+"@),
            ("Sec-Fetch-Dest"@, "empty"@),
            ("Sec-Fetch-Mode"@, "cors"@),
            ("Sec-Fetch-Site"@, "same-origin"@),
        ],
        suggest@ == url_with_query(
            "https://suggestqueries.google.com/complete/search"@,
            seq![
                ("output"@, "firefox"@),
                ("client"@, "firefox"@),
                ("hl"@, "US-en"@),
                ("q"@, query@),
            ],
        ),
        images@ == url_with_query(
            "https://www.google.com/search"@,
            seq![("q"@, query@), ("udm"@, "2"@), ("prmd"@, "ivsnmbtz"@)],
        ),
        named@ == gsa_user_agents()[i as int],
{
    assert(search_params(query@, param@) =~= seq![
        ("q"@, query@),
        ("hl"@, "en-US"@),
        ("ie"@, "utf8"@),
        ("oe"@, "utf8"@),
        ("filter"@, "0"@),
        ("start"@, "0"@),
        ("asearch"@, "arc"@),
        ("async"@, param@),
    ]);
    assert(pairs(r.headers@) =~= seq![
        ("User-Agent"@, agent@),
        ("Accept"@, "*/*"@),
        ("Cookie"@, "CONSENT=YES+"@),
        ("Sec-Fetch-Dest"@, "empty"@),
        ("Sec-Fetch-Mode"@, "cors"@),
        ("Sec-Fetch-Site"@, "same-origin"@),
    ]);
    assert(suggest_params(query@) =~= seq![
        ("output"@, "firefox"@),
        ("client"@, "firefox"@),
        ("hl"@, "US-en"@),
        ("q"@, query@),
    ]);
    assert(image_params(query@) =~= seq![("q"@, query@), ("udm"@, "2"@), ("prmd"@, "ivsnmbtz"@)]);
}

// --- Search results ---

/// What wraps a destination gives it, decoded where that can be done.
pub proof fn law_cleaned_urls(
    url: &str,
    r: String,
    found: Option<String>,
    encoded: Seq<char>,
    rest: Seq<char>,
)
    requires
        call_ensures(clean_url, (url,), r),
        call_ensures(destination, (url,), found),
    ensures
        !crate::text::begins(url@, "/url?q="@) ==> r@ == url@ && found is None,
        url@ == "/url?q="@ + encoded + "&sa=U"@ + rest && !occurs(encoded, "&sa=U"@) ==> {
            &&& found is Some && found->0@ == encoded
            &&& !encoded.contains('%') ==> r@ == encoded
            &&& encoded.contains('%') && percent_decoded(encoded) is Some ==> r@
                == percent_decoded(encoded)->0
            &&& encoded.contains('%') && percent_decoded(encoded) is None ==> r@ == encoded
        },
{
    if url@ == "/url?q="@ + encoded + "&sa=U"@ + rest && !occurs(encoded, "&sa=U"@) {
        crate::laws::google::law_redirects_lead_to_what_they_wrap(encoded, rest);
        crate::google::law_redirects_are_unwrapped(encoded, rest);
        reveal_strlit("/url?q=");
        assert(url@.subrange(0, 7) =~= "/url?q="@);
    }
}

/// Answers that are block pages are refused, and each element of any other gives
/// a result in its turn.
pub proof fn law_parsed_answers(
    body: &str,
    r: Result<EngineResponse, GoogleError>,
    rows: &Vec<Row>,
    read: Vec<EngineSearchResult>,
    i: int,
)
    requires
        call_ensures(parse_response, (body,), r),
        call_ensures(read_rows, (rows,), read),
    ensures
        r is Err <==> occurs(body@, "sorry.google.com"@) || occurs(body@, "/sorry/index"@),
        r is Err ==> r->Err_0 == GoogleError::Blocked,
        r matches Ok(response) ==> response.search_results@.len() == result_rows(body@).len(),
        r is Ok && 0 <= i < result_rows(body@).len() ==> is_result(
            result_rows(body@)[i],
            r->Ok_0.search_results@[i],
        ),
        read@.len() == rows@.len(),
        0 <= i < rows@.len() ==> is_result(rows@[i]@, read@[i]),
{
    let parts = crate::web::row_parts(rows@);
    let texts = crate::google::result_texts(read@);
    assert(parts.len() == rows@.len() && texts.len() == read@.len());
    if 0 <= i < rows@.len() {
        crate::laws::google::law_elements_become_results(parts, i);
        assert(texts[i] == read@[i]@ && parts[i] == rows@[i]@);
    }
    if let Ok(response) = r {
        let found = crate::google::result_texts(response.search_results@);
        assert(found.len() == response.search_results@.len());
        assert(found.len() == result_rows(body@).len());
        if 0 <= i < result_rows(body@).len() {
            crate::laws::google::law_elements_become_results(result_rows(body@), i);
            assert(found[i] == response.search_results@[i]@);
        }
    }
}

/// Whether `result` has the first title and description of an element, and the
/// destination of its first link.
pub open spec fn is_result(row: RowParts, result: EngineSearchResult) -> bool {
    &&& row.titles.len() > 0 ==> result.title@ == row.titles[0]
    &&& row.titles.len() == 0 ==> result.title@.len() == 0
    &&& row.descriptions.len() > 0 ==> result.description@ == row.descriptions[0]
    &&& row.descriptions.len() == 0 ==> result.description@.len() == 0
    &&& row.links.len() > 0 && row.links[0] is Some ==> result.url@ == cleaned(row.links[0]->0)
    &&& row.links.len() == 0 || row.links[0] is None ==> result.url@.len() == 0
}

// --- Suggestions ---

/// The suggestions are the texts of the second item of a list.
pub proof fn law_parsed_suggestions(
    body: &str,
    r: Result<Vec<String>, GoogleError>,
    document: &Data,
    read: Result<Vec<String>, GoogleError>,
    i: int,
)
    requires
        call_ensures(parse_autocomplete_response, (body,), r),
        call_ensures(read_suggestions, (document,), read),
    ensures
        r is Ok <==> json_document(body@) is Some && json_document(body@)->0 is List,
        r is Err ==> r->Err_0 == GoogleError::InvalidJson,
        r is Ok ==> are_suggestions(json_document(body@)->0->List_0, r->Ok_0, i),
        read is Ok <==> document@ is List,
        read is Err ==> read->Err_0 == GoogleError::InvalidJson,
        read is Ok ==> are_suggestions(document@->List_0, read->Ok_0, i),
{
    if let Ok(found) = r {
        lemma_suggestions(json_document(body@)->0, found, i);
    }
    if let Ok(found) = read {
        lemma_suggestions(document@, found, i);
    }
}

/// Whether `found` are the texts of the second of `items`, as the one at
/// position `i` shows.
pub open spec fn are_suggestions(items: Seq<Tree>, found: Vec<String>, i: int) -> bool {
    &&& items.len() > 1 && items[1] is List ==> {
        let list = items[1]->List_0;
        &&& found@.len() == list.len()
        &&& 0 <= i < list.len() && list[i] is Text ==> found@[i]@ == list[i]->Text_0
        &&& 0 <= i < list.len() && !(list[i] is Text) ==> found@[i]@.len() == 0
    }
    &&& items.len() <= 1 || !(items[1] is List) ==> found@.len() == 0
}

proof fn lemma_suggestions(document: Tree, found: Vec<String>, i: int)
    requires
        suggestions(document) == Some(crate::web::texts(found@)),
    ensures
        document is List,
        are_suggestions(document->List_0, found, i),
{
    let all = crate::web::texts(found@);
    assert(all.len() == found@.len());
    crate::laws::google::law_suggestions_are_the_second_item(document->List_0, i);
    if 0 <= i < found@.len() {
        assert(all[i] == found@[i]@);
    }
}

// --- Images ---

/// An element is read as the image that it shows.
pub proof fn law_read_image(
    element: &Data,
    r: Option<EngineImageResult>,
    image_url: Seq<char>,
    width: int,
    height: int,
    page_url: Seq<char>,
    title: Seq<char>,
)
    requires
        call_ensures(read_image, (element,), r),
    ensures
        r matches Some(image) ==> shows_image(
            element@,
            image.image_url@,
            image.width as int,
            image.height as int,
            image.page_url@,
            image.title@,
        ),
        shows_image(element@, image_url, width, height, page_url, title) ==> {
            &&& r is Some
            &&& r->0.image_url@ == image_url
            &&& r->0.width == width
            &&& r->0.height == height
            &&& r->0.page_url@ == page_url
            &&& r->0.title@ == title
        },
{
    crate::laws::google::law_images_are_what_elements_show(
        element@,
        image_url,
        width,
        height,
        page_url,
        title,
    );
    if let Some(image) = r {
        assert(image_of(element@) == Some(image@));
        assert(image@.width == image.width);
    }
}

/// The images of a document are those of its entries, and those of an answer
/// are the ones of its internal JSON.
pub proof fn law_parsed_images(
    document: &Data,
    read: Result<Vec<EngineImageResult>, GoogleError>,
    body: &str,
    r: Result<EngineImagesResponse, GoogleError>,
)
    requires
        call_ensures(read_images, (document,), read),
        call_ensures(parse_images_response, (body,), r),
    ensures
        read is Ok <==> document@ is Table,
        read is Err ==> read->Err_0 == GoogleError::InvalidJson,
        read matches Ok(images) ==> are_images(document@->Table_0, images@),
        r is Ok <==> {
            &&& is_pattern(INTERNAL_JSON_PATTERN@)
            &&& internal_json(body@) is Some
            &&& json_document(internal_json(body@)->0) is Some
            &&& json_document(internal_json(body@)->0)->0 is Table
        },
        r matches Ok(response) ==> are_images(
            json_document(internal_json(body@)->0)->0->Table_0,
            response.image_results@,
        ),
        r is Err && !is_pattern(INTERNAL_JSON_PATTERN@) ==> r->Err_0
            == GoogleError::InvalidPattern,
        r is Err && is_pattern(INTERNAL_JSON_PATTERN@) && internal_json(body@) is None ==> r->Err_0
            == GoogleError::NoInternalJson,
        r is Err && is_pattern(INTERNAL_JSON_PATTERN@) && internal_json(body@) is Some ==> r->Err_0
            == GoogleError::InvalidJson,
{
    if let Ok(images) = read {
        lemma_images(document@->Table_0, images@);
    }
    if let Ok(response) = r {
        lemma_images(
            json_document(internal_json(body@)->0)->0->Table_0,
            response.image_results@,
        );
    }
}

/// Whether `images` are the ones that entries show: each stands for an entry, in
/// their order, and each entry that shows an image has one.
pub open spec fn are_images(
    entries: Seq<(Seq<char>, Tree)>,
    images: Seq<EngineImageResult>,
) -> bool {
    exists|from: Seq<int>|
        {
            &&& #[trigger] from.len() == images.len()
            &&& forall|k: int|
                0 <= k < from.len() ==> {
                    &&& 0 <= #[trigger] from[k] < entries.len()
                    &&& shows_image(
                        entries[from[k]].1,
                        images[k].image_url@,
                        images[k].width as int,
                        images[k].height as int,
                        images[k].page_url@,
                        images[k].title@,
                    )
                }
            &&& forall|k: int, l: int| 0 <= k < l < from.len() ==> from[k] < from[l]
            &&& forall|j: int|
                0 <= j < entries.len() && image_of((#[trigger] entries[j]).1) is Some
                    ==> from.contains(j)
        }
}

proof fn lemma_images(entries: Seq<(Seq<char>, Tree)>, images: Seq<EngineImageResult>)
    requires
        crate::google::image_parts(images) == images_of(entries),
    ensures
        are_images(entries, images),
{
    let from = lemma_image_positions(entries);
    let all = crate::google::image_parts(images);
    assert(all.len() == images.len());
    assert forall|k: int| 0 <= k < from.len() implies {
        &&& 0 <= #[trigger] from[k] < entries.len()
        &&& shows_image(
            entries[from[k]].1,
            images[k].image_url@,
            images[k].width as int,
            images[k].height as int,
            images[k].page_url@,
            images[k].title@,
        )
    } by {
        let image = images_of(entries)[k];
        assert(all[k] == images[k]@);
        crate::laws::google::law_images_are_what_elements_show(
            entries[from[k]].1,
            image.image_url,
            image.width as int,
            image.height as int,
            image.page_url,
            image.title,
        );
    }
    assert(from.len() == images.len());
}

proof fn lemma_image_positions(entries: Seq<(Seq<char>, Tree)>) -> (from: Seq<int>)
    ensures
        from.len() == images_of(entries).len(),
        forall|k: int|
            0 <= k < from.len() ==> 0 <= #[trigger] from[k] < entries.len() && image_of(
                entries[from[k]].1,
            ) == Some(images_of(entries)[k]),
        forall|k: int, l: int| 0 <= k < l < from.len() ==> from[k] < from[l],
        forall|j: int|
            0 <= j < entries.len() && image_of((#[trigger] entries[j]).1) is Some ==> from.contains(
                j,
            ),
    decreases entries.len(),
{
    if entries.len() == 0 {
        Seq::empty()
    } else {
        let n = entries.len() - 1;
        let head = entries.drop_last();
        let some = lemma_image_positions(head);
        let from = if image_of(entries[n].1) is Some {
            some.push(n)
        } else {
            some
        };
        assert forall|k: int| 0 <= k < from.len() implies 0 <= #[trigger] from[k] < entries.len()
            && image_of(entries[from[k]].1) == Some(images_of(entries)[k]) by {
            if k < some.len() {
                assert(from[k] == some[k]);
                assert(head[some[k]] == entries[some[k]]);
            }
        }
        assert forall|j: int|
            0 <= j < entries.len() && image_of((#[trigger] entries[j]).1) is Some implies from.contains(
            j,
        ) by {
            if j < n {
                assert(head[j] == entries[j]);
                let k = choose|k: int| 0 <= k < some.len() && some[k] == j;
                assert(from[k] == j);
            } else {
                assert(from[some.len() as int] == n);
            }
        }
        from
    }
}

/// The internal JSON is what the pattern finds in the first script in which it
/// finds anything.
pub proof fn law_found_json(
    scripts: &Vec<String>,
    r: Result<Option<String>, GoogleError>,
    i: int,
)
    requires
        call_ensures(find_internal_json, (scripts,), r),
    ensures
        r is Ok <==> is_pattern(INTERNAL_JSON_PATTERN@),
        r is Err ==> r->Err_0 == GoogleError::InvalidPattern,
        r matches Ok(found) ==> {
            &&& found is None <==> forall|j: int|
                0 <= j < scripts@.len() ==> first_group(
                    INTERNAL_JSON_PATTERN@,
                    (#[trigger] scripts@[j])@,
                ) is None
            &&& 0 <= i < scripts@.len() && first_group(
                INTERNAL_JSON_PATTERN@,
                scripts@[i]@,
            ) is Some && (forall|j: int|
                0 <= j < i ==> first_group(
                    INTERNAL_JSON_PATTERN@,
                    (#[trigger] scripts@[j])@,
                ) is None) ==> found is Some && Some(found->0@) == first_group(
                INTERNAL_JSON_PATTERN@,
                scripts@[i]@,
            )
        },
{
    let texts = crate::web::texts(scripts@);
    let found = crate::google::json_in_scripts(texts);
    assert(found.len() == scripts@.len());
    assert forall|j: int| 0 <= j < scripts@.len() implies #[trigger] found[j] == first_group(
        INTERNAL_JSON_PATTERN@,
        scripts@[j]@,
    ) by {
        assert(texts[j] == scripts@[j]@);
    }
    law_first_of_what_is_found(found, i);
    if forall|j: int|
        0 <= j < scripts@.len() ==> first_group(
            INTERNAL_JSON_PATTERN@,
            (#[trigger] scripts@[j])@,
        ) is None {
        assert forall|j: int| 0 <= j < found.len() implies (#[trigger] found[j]) is None by {
            assert(first_group(INTERNAL_JSON_PATTERN@, scripts@[j]@) is None);
        }
    }
    if forall|j: int| 0 <= j < found.len() ==> (#[trigger] found[j]) is None {
        assert forall|j: int| 0 <= j < scripts@.len() implies first_group(
            INTERNAL_JSON_PATTERN@,
            (#[trigger] scripts@[j])@,
        ) is None by {
            assert(found[j] is None);
        }
    }
    if 0 <= i < scripts@.len() && (forall|j: int|
        0 <= j < i ==> first_group(INTERNAL_JSON_PATTERN@, (#[trigger] scripts@[j])@) is None) {
        assert forall|j: int| 0 <= j < i implies (#[trigger] found[j]) is None by {
            assert(first_group(INTERNAL_JSON_PATTERN@, scripts@[j]@) is None);
        }
    }
}

} // verus!
