//! The synchronization and triage engine on concrete runs: freshness,
//! reconciliation, sorting, and the interactive state machine.

use mal_plan::reconcile::reconcile;
use mal_plan::should_fetch;
use mal_plan::triage::triage_auto;
use mal_plan::triage::triage_run;
use mal_plan::triage::triage_step;
use mal_plan::triage::Notice;
use mal_plan::triage::StepResult;
use mal_plan::triage::TriageState;
use mal_plan::Cache;
use mal_plan::HandledHow;
use mal_plan::HandledItem;
use mal_plan::Item;
use mal_plan::ItemMediaType;
use mal_plan::ListType;
use mal_plan::Sort;
use mal_plan::Timestamp;
use mal_plan::MAX_CACHE_AGE;

fn item(id: u32, amount: i16, publishing_status: u8) -> Item {
    Item {
        item_type: ListType::Manga,
        id,
        amount,
        title: format!("title {}", id),
        publishing_status,
        url: format!("https://example.org/{}", id),
        media_type: ItemMediaType::Manga,
    }
}

fn decision(item_id: u32, item_type: ListType, how: HandledHow) -> HandledItem {
    HandledItem { item_id, item_type, how }
}

fn ts(secs: u64) -> Timestamp {
    Timestamp { secs, nanos: 0 }
}

const DAY: u64 = 60 * 60 * 24;

// ----------------------------------------------------------------- freshness

#[test]
fn fresh_cache_same_user_skips_fetch() {
    let cache = Some(Cache::new(ts(100), String::from("alice"), vec![]));
    let now = ts(100 + MAX_CACHE_AGE);
    assert!(!should_fetch(false, &cache, &String::from("alice"), now));
}

#[test]
fn cached_snapshot_two_days_old_is_reused() {
    let now = ts(10 * DAY);
    let cache = Some(Cache::new(
        ts(now.secs - 2 * DAY),
        String::from("alice"),
        vec![item(1, 4, 2)],
    ));
    assert!(!should_fetch(false, &cache, &String::from("alice"), now));
}

#[test]
fn other_users_snapshot_forces_fetch_even_at_age_zero() {
    let now = ts(500);
    let cache = Some(Cache::new(now, String::from("bob"), vec![]));
    assert!(should_fetch(false, &cache, &String::from("alice"), now));
}

#[test]
fn stale_cache_forces_fetch() {
    let cache = Some(Cache::new(ts(100), String::from("alice"), vec![]));
    let now = ts(100 + MAX_CACHE_AGE + 1);
    assert!(should_fetch(false, &cache, &String::from("alice"), now));
}

#[test]
fn snapshot_from_the_future_counts_as_stale() {
    let cache = Some(Cache::new(ts(1000), String::from("alice"), vec![]));
    assert!(should_fetch(false, &cache, &String::from("alice"), ts(999)));
}

#[test]
fn missing_cache_forces_fetch() {
    assert!(should_fetch(false, &None, &String::from("alice"), ts(0)));
}

#[test]
fn cache_bypass_forces_fetch() {
    let cache = Some(Cache::new(ts(100), String::from("alice"), vec![]));
    assert!(should_fetch(true, &cache, &String::from("alice"), ts(100)));
}

#[test]
fn sub_second_freshness_borrows_from_the_seconds() {
    let fetched = Timestamp { secs: 100, nanos: 500_000_000 };
    let cache = Some(Cache::new(fetched, String::from("alice"), vec![]));
    // 3 days minus half a second of full seconds: still fresh.
    let now = Timestamp { secs: 100 + MAX_CACHE_AGE, nanos: 400_000_000 };
    assert!(!should_fetch(false, &cache, &String::from("alice"), now));
    // One more second crosses the limit.
    let later = Timestamp { secs: 101 + MAX_CACHE_AGE, nanos: 500_000_000 };
    assert!(should_fetch(false, &cache, &String::from("alice"), later));
}

// --------------------------------------------------------------- reconciler

#[test]
fn prune_keeps_present_ids_and_other_kinds() {
    let fresh = vec![item(1, 1, 2), item(2, 5, 2)];
    let ledger = vec![
        decision(1, ListType::Manga, HandledHow::Added),
        decision(3, ListType::Manga, HandledHow::NotFound),
        decision(4, ListType::Anime, HandledHow::NotFinished),
    ];
    let (_, pruned) = reconcile(fresh, ledger, ListType::Manga, Sort::Desc);
    assert_eq!(
        pruned,
        vec![
            decision(1, ListType::Manga, HandledHow::Added),
            decision(4, ListType::Anime, HandledHow::NotFinished),
        ]
    );
}

#[test]
fn working_list_drops_unfinished_and_handled_items() {
    let fresh = vec![item(1, 1, 2), item(2, 2, 1), item(3, 3, 2), item(4, 4, 2)];
    let ledger = vec![decision(3, ListType::Manga, HandledHow::Added)];
    let (working, pruned) = reconcile(fresh, ledger, ListType::Manga, Sort::Asc);
    assert_eq!(working, vec![item(1, 1, 2), item(4, 4, 2)]);
    assert_eq!(pruned, vec![decision(3, ListType::Manga, HandledHow::Added)]);
}

#[test]
fn decision_for_other_kind_does_not_suppress_item() {
    let fresh = vec![item(6, 1, 2)];
    let ledger = vec![decision(6, ListType::Anime, HandledHow::Added)];
    let (working, pruned) = reconcile(fresh, ledger, ListType::Manga, Sort::Asc);
    assert_eq!(working, vec![item(6, 1, 2)]);
    assert_eq!(pruned, vec![decision(6, ListType::Anime, HandledHow::Added)]);
}

#[test]
fn sort_descending_by_amount() {
    let fresh = vec![item(1, 3, 2), item(2, 9, 2), item(3, -2, 2), item(4, 7, 2)];
    let (working, _) = reconcile(fresh, vec![], ListType::Manga, Sort::Desc);
    let amounts: Vec<i16> = working.iter().map(|x| x.amount).collect();
    assert_eq!(amounts, vec![9, 7, 3, -2]);
}

#[test]
fn sort_ascending_by_amount() {
    let fresh = vec![item(1, 3, 2), item(2, 9, 2), item(3, -2, 2), item(4, 7, 2)];
    let (working, _) = reconcile(fresh, vec![], ListType::Manga, Sort::Asc);
    let amounts: Vec<i16> = working.iter().map(|x| x.amount).collect();
    assert_eq!(amounts, vec![-2, 3, 7, 9]);
}

#[test]
fn empty_fetch_empties_working_list_and_prunes_kind() {
    let ledger = vec![
        decision(1, ListType::Manga, HandledHow::Added),
        decision(2, ListType::Anime, HandledHow::NotFound),
    ];
    let (working, pruned) = reconcile(vec![], ledger, ListType::Manga, Sort::Desc);
    assert!(working.is_empty());
    assert_eq!(pruned, vec![decision(2, ListType::Anime, HandledHow::NotFound)]);
}

#[test]
fn two_items_descending_present_larger_first() {
    let fresh = vec![item(1, 5, 2), item(2, 20, 2)];
    let (working, _) = reconcile(fresh, vec![], ListType::Manga, Sort::Desc);
    assert_eq!(working, vec![item(2, 20, 2), item(1, 5, 2)]);
}

// ------------------------------------------------------------------- triage

#[test]
fn sort_value_gives_the_sign() {
    assert_eq!(Sort::Asc.value(), 1);
    assert_eq!(Sort::Desc.value(), -1);
}

#[test]
fn handle_records_id_kind_and_decision() {
    let handled = item(7, 10, 2).handle(HandledHow::Added);
    assert_eq!(handled, decision(7, ListType::Manga, HandledHow::Added));
}

#[test]
fn deciding_d_records_added_and_leaves_remaining_empty() {
    let x = item(7, 10, 2);
    let out = triage_run(TriageState::new(vec![]), vec![x], vec!['d']).unwrap();
    assert_eq!(out.handled, vec![decision(7, ListType::Manga, HandledHow::Added)]);
    assert!(out.remaining.is_empty());
    assert!(!out.quitting);
}

#[test]
fn deciding_e_records_not_found() {
    let out = triage_run(TriageState::new(vec![]), vec![item(1, 0, 2)], vec!['e']).unwrap();
    assert_eq!(out.handled, vec![decision(1, ListType::Manga, HandledHow::NotFound)]);
}

#[test]
fn deciding_n_records_not_finished() {
    let out = triage_run(TriageState::new(vec![]), vec![item(1, 0, 2)], vec!['n']).unwrap();
    assert_eq!(out.handled, vec![decision(1, ListType::Manga, HandledHow::NotFinished)]);
}

#[test]
fn skipping_keeps_item_for_next_run_without_recording() {
    let x = item(3, 4, 2);
    let out = triage_run(TriageState::new(vec![]), vec![x], vec!['s']).unwrap();
    assert!(out.handled.is_empty());
    assert_eq!(out.remaining, vec![item(3, 4, 2)]);
}

#[test]
fn quit_sends_current_and_all_later_items_to_remaining() {
    let items = vec![item(1, 1, 2), item(2, 2, 2), item(3, 3, 2)];
    let out = triage_run(TriageState::new(vec![]), items, vec!['d', 'q']).unwrap();
    assert_eq!(out.handled, vec![decision(1, ListType::Manga, HandledHow::Added)]);
    assert_eq!(out.remaining, vec![item(2, 2, 2), item(3, 3, 2)]);
    assert!(out.quitting);
}

#[test]
fn quitting_state_consumes_no_input() {
    let items = vec![item(1, 1, 2), item(2, 2, 2)];
    let mut st = TriageState::new(vec![]);
    st.quitting = true;
    let out = triage_run(st, items, vec![]).unwrap();
    assert_eq!(out.remaining, vec![item(1, 1, 2), item(2, 2, 2)]);
    assert!(out.handled.is_empty());
}

#[test]
fn invalid_then_help_then_skip_reprompts_twice() {
    let mut st = TriageState::new(vec![]);
    let x = item(9, 2, 2);
    let x = match triage_step(&mut st, x, 'x') {
        StepResult::Again(x, Notice::Unknown) => x,
        r => panic!("expected an unknown-input re-prompt, got {:?}", r),
    };
    let x = match triage_step(&mut st, x, 'h') {
        StepResult::Again(x, Notice::Help) => x,
        r => panic!("expected a help re-prompt, got {:?}", r),
    };
    match triage_step(&mut st, x, 's') {
        StepResult::Advanced => {}
        r => panic!("expected to advance, got {:?}", r),
    }
    assert!(st.handled.is_empty());
    assert_eq!(st.remaining, vec![item(9, 2, 2)]);
}

#[test]
fn exhausted_input_aborts_the_run() {
    let items = vec![item(1, 1, 2), item(2, 2, 2)];
    assert!(triage_run(TriageState::new(vec![]), items, vec!['d']).is_none());
}

#[test]
fn auto_skip_appends_without_recording() {
    let mut st = TriageState::new(vec![decision(5, ListType::Manga, HandledHow::Added)]);
    st.quitting = true;
    triage_auto(&mut st, item(6, 0, 2));
    assert_eq!(st.handled, vec![decision(5, ListType::Manga, HandledHow::Added)]);
    assert_eq!(st.remaining, vec![item(6, 0, 2)]);
}
