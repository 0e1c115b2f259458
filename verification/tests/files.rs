//! The file formats and the provider payloads on concrete texts, including
//! a cross-check of the rendered text against serde_json itself.

use mal_plan::manga::fetch_all;
use mal_plan::manga::parse_page;
use mal_plan::manga::Manga;
use mal_plan::manga::MangaType;
use mal_plan::manga::StrNum;
use mal_plan::read_handled_items;
use mal_plan::reconcile::reconcile;
use mal_plan::triage::triage_run;
use mal_plan::triage::TriageState;
use mal_plan::write_handled_items;
use mal_plan::Cache;
use mal_plan::Config;
use mal_plan::HandledHow;
use mal_plan::HandledItem;
use mal_plan::Item;
use mal_plan::ItemMediaType;
use mal_plan::ListType;
use mal_plan::Sort;
use mal_plan::Timestamp;

fn item(id: u32, amount: i16, publishing_status: u8) -> Item {
    Item {
        item_type: ListType::Manga,
        id,
        amount,
        title: format!("title {}", id),
        publishing_status,
        url: format!("https://example.org/{}", id),
        media_type: ItemMediaType::Manga,
    }
}

// ------------------------------------------------------------ configuration

#[test]
fn config_round_trips_through_its_file_text() {
    let config = Config { user: String::from("alice") };
    let text = config.write();
    let back = Config::read(&text).unwrap();
    assert_eq!(back.user, "alice");
}

#[test]
fn config_text_is_plain_json() {
    let config = Config { user: String::from("a\"b\\c") };
    let text = config.write();
    let v: serde_json::Value = serde_json::from_str(&text).unwrap();
    assert_eq!(v["user"].as_str().unwrap(), "a\"b\\c");
}

#[test]
fn config_read_rejects_other_shapes() {
    assert!(Config::read("not json").is_none());
    assert!(Config::read("[1, 2]").is_none());
    assert!(Config::read("{\"user\": 5}").is_none());
}

// ------------------------------------------------------------------- ledger

#[test]
fn ledger_round_trips_through_its_file_text() {
    let ledger = vec![
        HandledItem { item_id: 7, item_type: ListType::Manga, how: HandledHow::Added },
        HandledItem { item_id: 9, item_type: ListType::Anime, how: HandledHow::NotFound },
        HandledItem { item_id: 1, item_type: ListType::Manga, how: HandledHow::NotFinished },
    ];
    let text = write_handled_items(&ledger);
    assert_eq!(read_handled_items(&text), ledger);
}

#[test]
fn ledger_text_spells_records_the_upstream_way() {
    let ledger = vec![HandledItem {
        item_id: 7,
        item_type: ListType::Manga,
        how: HandledHow::Added,
    }];
    let text = write_handled_items(&ledger);
    let v: serde_json::Value = serde_json::from_str(&text).unwrap();
    assert_eq!(v[0]["item_id"].as_u64().unwrap(), 7);
    assert_eq!(v[0]["item_type"].as_str().unwrap(), "Manga");
    assert_eq!(v[0]["how"].as_str().unwrap(), "Added");
}

#[test]
fn unreadable_ledger_degrades_to_empty() {
    assert_eq!(read_handled_items(""), vec![]);
    assert_eq!(read_handled_items("{}"), vec![]);
    assert_eq!(read_handled_items("[{\"item_id\": 1}]"), vec![]);
}

#[test]
fn empty_ledger_file_reads_as_no_decisions() {
    assert_eq!(read_handled_items("[]"), vec![]);
}

// -------------------------------------------------------------------- cache

#[test]
fn cache_round_trips_through_its_file_text() {
    let list = vec![
        Item {
            item_type: ListType::Manga,
            id: 3,
            amount: -7,
            title: String::from("Ups & \"downs\" — 終"),
            publishing_status: 2,
            url: String::from("https://example.org/3"),
            media_type: ItemMediaType::OneShot,
        },
        item(12, 250, 2),
    ];
    let cache = Cache::new(
        Timestamp { secs: 1000, nanos: 999_999_999 },
        String::from("alice"),
        list,
    );
    let text = cache.write();
    let back = Cache::read(&text).unwrap();
    assert_eq!(back, cache);
}

#[test]
fn cache_file_names_carry_the_list_prefix() {
    assert_eq!(Cache::get_file("manga"), "manga_cache.json");
    assert_eq!(Cache::get_file("anime"), "anime_cache.json");
}

#[test]
fn cache_read_rejects_wrong_shapes() {
    assert!(Cache::read("").is_none());
    assert!(Cache::read("[]").is_none());
    assert!(Cache::read("{\"user\": \"alice\", \"list\": []}").is_none());
    assert!(
        Cache::read(
            "{\"fetched_at\": {\"secs\": 1, \"nanos\": 0}, \"user\": \"a\", \"list\": [{}]}"
        )
        .is_none()
    );
}

#[test]
fn cache_accepts_fields_in_any_order() {
    let text = "{\"list\": [], \"user\": \"bob\", \"fetched_at\": {\"nanos\": 2, \"secs\": 1}}";
    let cache = Cache::read(text).unwrap();
    assert_eq!(cache.user, "bob");
    assert_eq!(cache.fetched_at, Timestamp { secs: 1, nanos: 2 });
    assert!(cache.list.is_empty());
}

// -------------------------------------------------------- provider payloads

fn page_record(manga_id: u32, title: &str, chapters: i16) -> String {
    format!(
        "{{\"id\": 1, \"status\": 6, \"manga_id\": {}, \"manga_title\": \"{}\", \
         \"manga_num_chapters\": {}, \"manga_publishing_status\": 2, \
         \"manga_url\": \"https://example.org\", \"manga_media_type_string\": \"Manga\"}}",
        manga_id, title, chapters
    )
}

#[test]
fn page_parses_records_and_projects_items() {
    let text = format!("[{}, {}]", page_record(7, "Seven", 10), page_record(8, "Eight", -1));
    let page = parse_page(&text).unwrap();
    assert_eq!(page.len(), 2);
    let x = page[0].to_item();
    assert_eq!(x.item_type, ListType::Manga);
    assert_eq!(x.id, 7);
    assert_eq!(x.title, "Seven");
    assert_eq!(x.amount, 10);
    assert_eq!(x.publishing_status, 2);
    assert_eq!(x.media_type, ItemMediaType::Manga);
}

#[test]
fn numeric_title_is_normalized_to_a_string() {
    let text = "[{\"id\": 1, \"status\": 6, \"manga_id\": 2, \"manga_title\": 86, \
                \"manga_num_chapters\": 5, \"manga_publishing_status\": 2, \
                \"manga_url\": \"u\", \"manga_media_type_string\": \"One-shot\"}]";
    let page = parse_page(text).unwrap();
    let x = page[0].to_item();
    assert_eq!(x.title, "86");
    assert_eq!(x.media_type, ItemMediaType::OneShot);
}

#[test]
fn empty_page_signals_end_of_pagination() {
    let page = parse_page("[]").unwrap();
    assert!(page.is_empty());
    let (list, done) = fetch_all(vec![], page);
    assert!(done);
    assert!(list.is_empty());
}

#[test]
fn malformed_page_fails_whole_decode() {
    assert!(parse_page("not json").is_none());
    assert!(parse_page("{}").is_none());
    // A fractional chapter count fits no integer field.
    let text = "[{\"id\": 1, \"status\": 6, \"manga_id\": 2, \"manga_title\": \"t\", \
                \"manga_num_chapters\": 3.5, \"manga_publishing_status\": 2, \
                \"manga_url\": \"u\", \"manga_media_type_string\": \"Manga\"}]";
    assert!(parse_page(text).is_none());
}

#[test]
fn pagination_accumulates_and_offsets_by_length() {
    let first = parse_page(&format!("[{}]", page_record(1, "a", 1))).unwrap();
    let (list, done) = fetch_all(vec![], first);
    assert!(!done);
    assert_eq!(list.len(), 1); // the next request's offset
    let second = parse_page(&format!("[{}]", page_record(2, "b", 2))).unwrap();
    let (list, done) = fetch_all(list, second);
    assert!(!done);
    assert_eq!(list.len(), 2);
    let (list, done) = fetch_all(list, vec![]);
    assert!(done);
    assert_eq!(list[0].manga_id, 1);
    assert_eq!(list[1].manga_id, 2);
}

#[test]
fn feed_titles_spell_numbers_in_decimal() {
    assert_eq!(StrNum::Num(0).to_string(), "0");
    assert_eq!(StrNum::Num(1007).to_string(), "1007");
    assert_eq!(StrNum::Num(-5).to_string(), "-5");
    assert_eq!(StrNum::Num(i64::MIN).to_string(), "-9223372036854775808");
    assert_eq!(StrNum::Str(String::from("86")).to_string(), "86");
}

#[test]
fn feed_spells_every_media_category() {
    for (name, expect) in [
        ("Manga", ItemMediaType::Manga),
        ("Novel", ItemMediaType::Novel),
        ("One-shot", ItemMediaType::OneShot),
        ("Doujinshi", ItemMediaType::Doujinshi),
        ("Manhwa", ItemMediaType::Manhwa),
        ("Manhua", ItemMediaType::Manhua),
    ] {
        let text = format!(
            "[{{\"id\": 1, \"status\": 6, \"manga_id\": 2, \"manga_title\": \"t\", \
             \"manga_num_chapters\": 5, \"manga_publishing_status\": 2, \
             \"manga_url\": \"u\", \"manga_media_type_string\": \"{}\"}}]",
            name
        );
        let page = parse_page(&text).unwrap();
        assert_eq!(page[0].to_item().media_type, expect);
    }
}

#[test]
fn oversized_numbers_fail_their_fields() {
    let text = "[{\"id\": 4294967296, \"status\": 6, \"manga_id\": 2, \"manga_title\": \"t\", \
                \"manga_num_chapters\": 5, \"manga_publishing_status\": 2, \
                \"manga_url\": \"u\", \"manga_media_type_string\": \"Manga\"}]";
    assert!(parse_page(text).is_none());
}

// -------------------------------------------------- scenarios across a run

#[test]
fn empty_fetch_clears_state_and_writes_empty_cache() {
    let ledger = vec![
        HandledItem { item_id: 1, item_type: ListType::Manga, how: HandledHow::Added },
        HandledItem { item_id: 2, item_type: ListType::Anime, how: HandledHow::NotFound },
    ];
    let (working, pruned) = reconcile(vec![], ledger, ListType::Manga, Sort::Desc);
    assert!(working.is_empty());
    assert_eq!(
        pruned,
        vec![HandledItem { item_id: 2, item_type: ListType::Anime, how: HandledHow::NotFound }]
    );
    let out = triage_run(TriageState::new(pruned), working, vec![]).unwrap();
    let cache = Cache::new(Timestamp { secs: 9, nanos: 0 }, String::from("alice"), out.remaining);
    let text = cache.write();
    let back = Cache::read(&text).unwrap();
    assert!(back.list.is_empty());
}

#[test]
fn added_item_stays_out_of_the_next_cache() {
    let fresh = vec![item(7, 10, 2)];
    let (working, pruned) = reconcile(fresh, vec![], ListType::Manga, Sort::Desc);
    assert_eq!(working, vec![item(7, 10, 2)]);
    let out = triage_run(TriageState::new(pruned), working, vec!['d']).unwrap();
    assert_eq!(
        out.handled,
        vec![HandledItem { item_id: 7, item_type: ListType::Manga, how: HandledHow::Added }]
    );
    assert!(out.remaining.is_empty());
    // The next run starts from the written cache and ledger: id 7 is gone
    // from the cache and recorded in the ledger.
    let cache = Cache::new(Timestamp { secs: 1, nanos: 0 }, String::from("alice"), out.remaining);
    let back = Cache::read(&cache.write()).unwrap();
    assert!(back.list.iter().all(|x| x.id != 7));
    let ledger_back = read_handled_items(&write_handled_items(&out.handled));
    assert_eq!(ledger_back, out.handled);
}

#[test]
fn provider_records_survive_their_own_page_text() {
    let records = vec![Manga {
        id: 5,
        status: 6,
        manga_id: 77,
        manga_title: StrNum::Str(String::from("A title")),
        manga_num_chapters: 12,
        manga_publishing_status: 2,
        manga_url: String::from("https://example.org/77"),
        manga_media_type_string: MangaType::Manhwa,
    }];
    let text = "[{\"id\": 5, \"status\": 6, \"manga_id\": 77, \"manga_title\": \"A title\", \
                \"manga_num_chapters\": 12, \"manga_publishing_status\": 2, \
                \"manga_url\": \"https://example.org/77\", \
                \"manga_media_type_string\": \"Manhwa\"}]";
    assert_eq!(parse_page(text).unwrap(), records);
}
