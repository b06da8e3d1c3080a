use metasearch::engine::{EngineImageResult, EngineSearchResult, SearchQuery};
use metasearch::google::{
    arc_id, async_param, blocked, clean_url, decoded_or, destination, find_internal_json,
    generate_arc_id, get_async_param, parse_autocomplete_response, parse_images_response,
    parse_response, read_image, read_images, read_rows, read_suggestions, request,
    request_autocomplete, request_images, request_with, user_agent, ArcId, GoogleError,
    ARC_CHARSET, ARC_CHARSET_LEN, ARC_ID_LEN, ARC_ID_TTL, GSA_USER_AGENTS_LEN,
};
use metasearch::data::{read_json, Data};
use metasearch::web::Row;

fn text(s: &str) -> String {
    s.to_string()
}

fn well_formed(id: &str) -> bool {
    id.len() == ARC_ID_LEN && id.chars().all(|c| ARC_CHARSET.contains(c))
}

// --- Arc ids ---

#[test]
fn arc_ids_are_picked_from_the_charset() {
    assert_eq!(ARC_CHARSET.len(), ARC_CHARSET_LEN);
    let picks: Vec<usize> = (0..ARC_ID_LEN).map(|i| (i * 3) % ARC_CHARSET_LEN).collect();
    assert_eq!(arc_id(&picks), "adgjmpsvyBEHKNQTWZ258-c");
    assert_eq!(arc_id(&vec![63; ARC_ID_LEN]), "-".repeat(ARC_ID_LEN));
}

#[test]
fn generated_arc_ids_are_well_formed_and_differ() {
    let a = generate_arc_id();
    let b = generate_arc_id();
    assert!(well_formed(&a), "{a}");
    assert!(well_formed(&b), "{b}");
    assert_ne!(a, b);
}

#[test]
fn async_param_shows_the_arc_id() {
    assert_eq!(async_param("abc"), "arc_id:srp_abc_100,use_ac:true,_fmt:prog");
}

#[test]
fn fresh_arc_ids_are_kept() {
    let mut arc = ArcId { id: text("abc"), created: 5 };
    let param = get_async_param(&mut arc, 5 + ARC_ID_TTL);
    assert_eq!(param, "arc_id:srp_abc_100,use_ac:true,_fmt:prog");
    assert_eq!(arc, ArcId { id: text("abc"), created: 5 });
    // A clock behind the creation time counts as no time at all.
    assert!(!arc.stale(0));
}

#[test]
fn stale_arc_ids_are_rotated() {
    let now = 6 + ARC_ID_TTL;
    let mut arc = ArcId { id: text("abc"), created: 5 };
    let param = get_async_param(&mut arc, now);
    assert_eq!(arc.created, now);
    assert!(well_formed(&arc.id));
    assert_eq!(param, async_param(&arc.id));
    let mut again = ArcId { id: text("abc"), created: 5 };
    again.rotate(now, text("def"));
    assert_eq!(again, ArcId { id: text("def"), created: now });
}

#[test]
fn arc_ids_live_an_hour() {
    assert_eq!(ARC_ID_TTL, 3600 * 1_000_000_000);
}

// --- Requests ---

#[test]
fn search_request_is_exact() {
    let request = request_with("kd tree & more", "a,b", "agent");
    assert_eq!(
        request.url,
        "https://www.google.com/search?q=kd+tree+%26+more&hl=en-US&ie=utf8&oe=utf8&filter=0\
         &start=0&asearch=arc&async=a%2Cb",
    );
    assert_eq!(
        request.headers,
        vec![
            ("User-Agent", "agent"),
            ("Accept", "*/*"),
            ("Cookie", "CONSENT=YES+"),
            ("Sec-Fetch-Dest", "empty"),
            ("Sec-Fetch-Mode", "cors"),
            ("Sec-Fetch-Site", "same-origin"),
        ],
    );
}

#[test]
fn search_request_uses_the_arc_id_and_a_known_agent() {
    let agents: Vec<&str> = (0..GSA_USER_AGENTS_LEN).map(user_agent).collect();
    let mut arc = ArcId { id: text("abc"), created: 0 };
    let search = SearchQuery { query: text("rust") };
    let request = request(&search, &mut arc, 1);
    assert_eq!(
        request.url,
        "https://www.google.com/search?q=rust&hl=en-US&ie=utf8&oe=utf8&filter=0&start=0\
         &asearch=arc&async=arc_id%3Asrp_abc_100%2Cuse_ac%3Atrue%2C_fmt%3Aprog",
    );
    assert!(agents.contains(&request.headers[0].1));
}

#[test]
fn user_agents_are_all_different() {
    let agents: std::collections::BTreeSet<&str> =
        (0..GSA_USER_AGENTS_LEN).map(user_agent).collect();
    assert_eq!(agents.len(), 8);
    assert!(agents.iter().all(|a| a.contains(" GSA/") && a.starts_with("Mozilla/5.0 (iPhone")));
    assert_eq!(
        user_agent(0),
        "Mozilla/5.0 (iPhone14,6; CPU iPhone OS 17_7_2 like Mac OS X) AppleWebKit/605.1.15 \
         (KHTML, like Gecko) GSA/344.0.695551749 Mobile/15E148 Safari/604.1",
    );
    assert_eq!(
        user_agent(7),
        "Mozilla/5.0 (iPhone15,2; CPU iPhone OS 18_0 like Mac OS X) AppleWebKit/605.1.15 \
         (KHTML, like Gecko) GSA/344.0.695551749 Mobile/15E148 Safari/604.1",
    );
}

#[test]
fn autocomplete_request_is_exact() {
    assert_eq!(
        request_autocomplete("na\u{ef}ve"),
        "https://suggestqueries.google.com/complete/search?output=firefox&client=firefox&hl=US-en\
         &q=na%C3%AFve",
    );
}

#[test]
fn images_request_is_exact() {
    assert_eq!(
        request_images("cats"),
        "https://www.google.com/search?q=cats&udm=2&prmd=ivsnmbtz",
    );
}

// --- Redirects ---

#[test]
fn redirects_are_unwrapped_and_decoded() {
    assert_eq!(
        clean_url("/url?q=https://example.com/a%20b%3Fc&sa=U&ved=xyz"),
        "https://example.com/a b?c",
    );
    assert_eq!(clean_url("/url?q=https://example.com/"), "https://example.com/");
    assert_eq!(destination("/url?q=a&sa=U&sa=U"), Some(text("a")));
    assert_eq!(destination("/url?q=&sa=U"), Some(String::new()));
}

#[test]
fn other_urls_pass_through() {
    assert_eq!(clean_url("https://example.com/a%20b&sa=U"), "https://example.com/a%20b&sa=U");
    assert_eq!(clean_url(""), "");
    assert_eq!(destination("/search?q=a"), None);
}

#[test]
fn undecodable_destinations_stay_encoded() {
    assert_eq!(clean_url("/url?q=https://example.com/%FF&sa=U"), "https://example.com/%FF");
    assert_eq!(decoded_or(text("a"), None), "a");
    assert_eq!(decoded_or(text("a"), Some(text("b"))), "b");
}

// --- Search results ---

#[test]
fn block_pages_are_errors() {
    for page in ["<a href='https://sorry.google.com/x'>", "moved to /sorry/index?continue=1"] {
        assert!(blocked(page));
        assert_eq!(parse_response(page), Err(GoogleError::Blocked));
    }
    assert!(!blocked("/sorry/"));
}

#[test]
fn results_are_scraped() {
    let page = "<html><body>\
        <div class='MjjYud other'>\
          <a>no link</a>\
          <a href='/url?q=https://example.com/%C3%A9&amp;sa=U&amp;ved=1'>\
            <div role='link'>First <b>title</b></div></a>\
          <div data-sncf='1'>First <em>text</em></div>\
          <div data-sncf='2'>not this</div>\
          <div data-sncf='1'>nor this</div>\
        </div>\
        <div class='other'><a href='https://ignored.com'></a></div>\
        <div class='MjjYud'><a href='https://plain.com/'></a></div>\
        <div class='MjjYud'></div>\
        </body></html>";
    let response = parse_response(page).unwrap();
    assert_eq!(
        response.search_results,
        vec![
            EngineSearchResult {
                url: text("https://example.com/\u{e9}"),
                title: text("First title"),
                description: text("First text"),
            },
            EngineSearchResult {
                url: text("https://plain.com/"),
                title: String::new(),
                description: String::new(),
            },
            EngineSearchResult {
                url: String::new(),
                title: String::new(),
                description: String::new(),
            },
        ],
    );
}

#[test]
fn rows_become_results() {
    let rows = vec![Row {
        titles: vec![text("t"), text("second")],
        links: vec![Some(text("/url?q=https://a.com/&sa=U")), Some(text("https://b.com/"))],
        descriptions: vec![],
    }];
    assert_eq!(
        read_rows(&rows),
        vec![EngineSearchResult {
            url: text("https://a.com/"),
            title: text("t"),
            description: String::new(),
        }],
    );
    let bare = Row {
        titles: vec![],
        links: vec![None, Some(text("https://b.com/"))],
        descriptions: vec![text("d")],
    };
    assert_eq!(
        read_rows(&vec![bare]),
        vec![EngineSearchResult {
            url: String::new(),
            title: String::new(),
            description: text("d"),
        }],
    );
    assert!(parse_response("").unwrap().search_results.is_empty());
}

// --- Suggestions ---

#[test]
fn suggestions_are_the_second_item() {
    assert_eq!(
        parse_autocomplete_response(r#"["rus",["rust","russia",3,"rustic"],[],{}]"#),
        Ok(vec![text("rust"), text("russia"), String::new(), text("rustic")]),
    );
    assert_eq!(parse_autocomplete_response(r#"["rus"]"#), Ok(vec![]));
    assert_eq!(parse_autocomplete_response(r#"["rus","rust"]"#), Ok(vec![]));
    assert_eq!(parse_autocomplete_response("[]"), Ok(vec![]));
}

#[test]
fn suggestions_need_a_json_list() {
    assert_eq!(parse_autocomplete_response("{}"), Err(GoogleError::InvalidJson));
    assert_eq!(parse_autocomplete_response("[1"), Err(GoogleError::InvalidJson));
    assert_eq!(parse_autocomplete_response(""), Err(GoogleError::InvalidJson));
    assert_eq!(read_suggestions(&Data::Other), Err(GoogleError::InvalidJson));
}

// --- Images ---

fn page(json: &str) -> String {
    format!(
        "<html><script>var x = 1;</script>\
         <script>(function(){{google.jl={{a:1}};var m={json};}})();</script>\
         <script>(function(){{google.jl={{b:2}};var n={{\"late\":1}};}})();</script></html>",
    )
}

const ELEMENT: &str = r#"[0,[0,0,0,["https://i.com/a.png",640,480],0,0,0,0,0,{"2003":[0,0,"https://p.com/","Page"]}]]"#;

fn cat() -> EngineImageResult {
    EngineImageResult {
        image_url: text("https://i.com/a.png"),
        page_url: text("https://p.com/"),
        title: text("Page"),
        width: 640,
        height: 480,
    }
}

#[test]
fn images_are_read_from_the_first_script_with_json() {
    let body = page(&format!("{{\"x\":{ELEMENT},\"y\":[1,2],\"z\":{ELEMENT}}}"));
    let response = parse_images_response(&body).unwrap();
    assert_eq!(response.image_results, vec![cat(), cat()]);
}

#[test]
fn pages_without_internal_json_are_errors() {
    assert_eq!(
        parse_images_response("<script>var m={\"a\":1};</script>"),
        Err(GoogleError::NoInternalJson),
    );
    assert_eq!(parse_images_response(""), Err(GoogleError::NoInternalJson));
}

#[test]
fn broken_internal_json_is_an_error() {
    assert_eq!(parse_images_response(&page("{\"a\":}")), Err(GoogleError::InvalidJson));
    assert_eq!(
        read_images(&read_json("[1]").unwrap()),
        Err(GoogleError::InvalidJson),
    );
}

#[test]
fn internal_json_is_the_first_group() {
    let scripts = vec![
        text("nothing"),
        text("(function(){google.jl={};var a={\"k\":1};var b={\"l\":2};"),
        text("(function(){google.jl={};var a={\"later\":1};"),
    ];
    assert_eq!(find_internal_json(&scripts), Ok(Some(text("{\"k\":1}"))));
    assert_eq!(find_internal_json(&vec![]), Ok(None));
}

#[test]
fn elements_that_describe_no_image_are_skipped() {
    let image = |json: &str| read_image(&read_json(json).unwrap());
    assert_eq!(image(ELEMENT), Some(cat()));
    for broken in [
        "1",
        "[0]",
        "[0,{}]",
        "[0,[0,0,0]]",
        // The picture is a list of just three items of the right kinds.
        r#"[0,[0,0,0,["u",1],0,0,0,0,0,{"2003":[0,0,"p","t"]}]]"#,
        r#"[0,[0,0,0,["u",1,2,3],0,0,0,0,0,{"2003":[0,0,"p","t"]}]]"#,
        r#"[0,[0,0,0,["u",-1,2],0,0,0,0,0,{"2003":[0,0,"p","t"]}]]"#,
        r#"[0,[0,0,0,["u",1.5,2],0,0,0,0,0,{"2003":[0,0,"p","t"]}]]"#,
        r#"[0,[0,0,0,[1,1,2],0,0,0,0,0,{"2003":[0,0,"p","t"]}]]"#,
        // The page is a list under "2003" with two texts.
        r#"[0,[0,0,0,["u",1,2]]]"#,
        r#"[0,[0,0,0,["u",1,2],0,0,0,0,0,{"2004":[0,0,"p","t"]}]]"#,
        r#"[0,[0,0,0,["u",1,2],0,0,0,0,0,{"2003":{}}]]"#,
        r#"[0,[0,0,0,["u",1,2],0,0,0,0,0,{"2003":[0,0,1,"t"]}]]"#,
        r#"[0,[0,0,0,["u",1,2],0,0,0,0,0,{"2003":[0,0,"p"]}]]"#,
    ] {
        assert_eq!(image(broken), None, "{broken}");
    }
}

#[test]
fn images_are_read_one_by_one() {
    let images = |json: &str| read_images(&read_json(json).unwrap()).unwrap();
    assert_eq!(images(&format!("{{\"a\":{ELEMENT}}}")), vec![cat()]);
    assert_eq!(images("{\"a\":1}"), vec![]);
    assert_eq!(images(&format!("{{\"a\":1,\"b\":{ELEMENT},\"c\":null}}")), vec![cat()]);
}

#[test]
fn too_large_numbers_are_no_sizes() {
    let element = Data::List(vec![
        Data::Other,
        Data::List(vec![
            Data::Other,
            Data::Other,
            Data::Other,
            Data::List(vec![
                Data::Text(text("u")),
                Data::Integer(18_446_744_073_709_551_616),
                Data::Integer(1),
            ]),
        ]),
    ]);
    assert_eq!(read_image(&element), None);
}
