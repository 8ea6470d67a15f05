use fabric_completion::cache::{derive_cache_key, CacheStore};
use fabric_completion::dispatch::{
    cache_clear_token, cache_filename, cache_namespace, cleared_marker, complete,
    finish_short_list, get_cached, Outcome,
};
use fabric_completion::tasks::{complete_fab_command_args, parse_task_args, parse_task_list};
use fabric_completion::text::{replace_str, split_lines, str_eq, trim};

#[test]
fn trim_removes_surrounding_whitespace() {
    assert_eq!(trim("  deploy \t"), "deploy".to_string());
    assert_eq!(trim("deploy"), "deploy".to_string());
    assert_eq!(trim("a b"), "a b".to_string());
    assert_eq!(trim(" \t\r\n"), String::new());
    assert_eq!(trim(""), String::new());
}

#[test]
fn split_lines_matches_line_reading() {
    assert_eq!(
        split_lines("a\nb\n"),
        vec!["a".to_string(), "b".to_string()]
    );
    assert_eq!(split_lines("a\nb"), vec!["a".to_string(), "b".to_string()]);
    assert_eq!(split_lines(""), Vec::<String>::new());
    assert_eq!(split_lines("\n"), vec![String::new()]);
    assert_eq!(
        split_lines("a\n\nb"),
        vec!["a".to_string(), String::new(), "b".to_string()]
    );
}

#[test]
fn replace_rewrites_every_occurrence() {
    assert_eq!(
        replace_str("Arguments: mode=None", "Arguments: ", "deploy:"),
        "deploy:mode=None".to_string()
    );
    assert_eq!(replace_str("x AB y AB", "AB", "C"), "x C y C".to_string());
    assert_eq!(replace_str("plain", "AB", "C"), "plain".to_string());
}

#[test]
fn str_eq_compares_by_characters() {
    assert!(str_eq("deploy", "deploy"));
    assert!(!str_eq("deploy", "dep"));
    assert!(!str_eq("deploy", "deplox"));
    assert!(str_eq("", ""));
}

#[test]
fn derive_cache_key_concatenates_namespace_and_directory() {
    assert_eq!(
        derive_cache_key("fab_completion", "/home/me/project"),
        "fab_completion/home/me/project".to_string()
    );
    assert_eq!(cache_namespace(), "fab_completion");
    assert_eq!(cache_filename(), "tasks");
}

#[test]
fn cache_write_is_isolated_per_directory() {
    let k1 = derive_cache_key("fab_completion", "/home/me/one");
    let k2 = derive_cache_key("fab_completion", "/home/me/two");
    let mut store = CacheStore::new();
    store.set(&k2, vec!["kept".to_string()]);
    store.set(&k1, vec!["deploy".to_string()]);
    assert_eq!(store.get(&k2), vec!["kept".to_string()]);
    let k3 = derive_cache_key("fab_completion", "/home/me/three");
    assert_eq!(store.get(&k3), Vec::<String>::new());
}

#[test]
fn set_then_get_round_trips_and_empty_is_miss() {
    let key = "fab_completion/home/me/project".to_string();
    let mut store = CacheStore::new();
    store.set(&key, vec!["deploy".to_string(), "test".to_string()]);
    assert_eq!(
        store.get(&key),
        vec!["deploy".to_string(), "test".to_string()]
    );
    store.set(&key, Vec::new());
    assert_eq!(store.get(&key), Vec::<String>::new());
    let (_, needs_fetch) = get_cached(&store, &key);
    assert!(needs_fetch);
}

#[test]
fn clear_then_get_returns_nothing() {
    let key = "fab_completion/home/me/project".to_string();
    let mut store = CacheStore::new();
    store.set(&key, vec!["deploy".to_string()]);
    store.clear(&key);
    assert_eq!(store.get(&key), Vec::<String>::new());
    let mut empty = CacheStore::new();
    empty.clear(&key);
    assert_eq!(empty.get(&key), Vec::<String>::new());
}

#[test]
fn cache_hit_does_not_refetch() {
    let key = "fab_completion/home/me/project".to_string();
    let mut store = CacheStore::new();
    store.set(&key, vec!["deploy".to_string(), "test".to_string()]);
    let outcome = complete(
        1,
        &"x".to_string(),
        &"fab".to_string(),
        &mut store,
        &key,
    );
    assert!(!matches!(outcome, Outcome::RunShortList { .. }));
}

#[test]
fn top_level_completion_offers_tasks_and_sentinel() {
    let key = "fab_completion/home/me/project".to_string();
    let mut store = CacheStore::new();
    store.set(&key, vec!["deploy".to_string(), "test".to_string()]);
    let outcome = complete(
        1,
        &"dep".to_string(),
        &"fab".to_string(),
        &mut store,
        &key,
    );
    match outcome {
        Outcome::Done { candidates } => assert_eq!(
            candidates,
            vec![
                "deploy".to_string(),
                "test".to_string(),
                "_cache_clear".to_string()
            ]
        ),
        _ => panic!("expected candidates"),
    }
}

#[test]
fn exact_task_name_delegates_to_argument_completion() {
    let key = "fab_completion/home/me/project".to_string();
    let mut store = CacheStore::new();
    store.set(&key, vec!["deploy".to_string(), "test".to_string()]);
    let outcome = complete(
        1,
        &"deploy".to_string(),
        &"fab".to_string(),
        &mut store,
        &key,
    );
    match outcome {
        Outcome::RunDescribe { task } => assert_eq!(task, "deploy".to_string()),
        _ => panic!("expected delegation to argument completion"),
    }
}

#[test]
fn sentinel_as_previous_word_clears_and_repopulates() {
    let key = "fab_completion/home/me/project".to_string();
    let mut store = CacheStore::new();
    store.set(&key, vec!["stale".to_string()]);
    let outcome = complete(
        2,
        &"".to_string(),
        &"_cache_clear".to_string(),
        &mut store,
        &key,
    );
    match outcome {
        Outcome::RunShortList { after_clear } => assert!(after_clear),
        _ => panic!("expected a repopulating fetch"),
    }
    assert_eq!(store.get(&key), Vec::<String>::new());
    assert_eq!(cleared_marker(), "_CACHE_CLEARED");
    let candidates = finish_short_list(&mut store, &key, "deploy\ntest\n", true);
    assert_eq!(candidates, Vec::<String>::new());
    assert_eq!(
        store.get(&key),
        vec!["deploy".to_string(), "test".to_string()]
    );
}

#[test]
fn miss_fetches_stores_and_offers() {
    let key = "fab_completion/home/me/project".to_string();
    let mut store = CacheStore::new();
    let outcome = complete(
        1,
        &"dep".to_string(),
        &"fab".to_string(),
        &mut store,
        &key,
    );
    match outcome {
        Outcome::RunShortList { after_clear } => assert!(!after_clear),
        _ => panic!("expected a fetch on a cache miss"),
    }
    let candidates = finish_short_list(&mut store, &key, " deploy \ntest\n", false);
    assert_eq!(
        candidates,
        vec![
            "deploy".to_string(),
            "test".to_string(),
            "_cache_clear".to_string()
        ]
    );
    assert_eq!(
        store.get(&key),
        vec!["deploy".to_string(), "test".to_string()]
    );
}

#[test]
fn empty_listing_is_stored_untrusted_and_forces_retry() {
    let key = "fab_completion/home/me/project".to_string();
    let mut store = CacheStore::new();
    let candidates = finish_short_list(&mut store, &key, "", false);
    assert_eq!(candidates, vec!["_cache_clear".to_string()]);
    let (cached, needs_fetch) = get_cached(&store, &key);
    assert_eq!(cached, Vec::<String>::new());
    assert!(needs_fetch);
}

#[test]
fn second_position_without_sentinel_describes_current_word() {
    let key = "fab_completion/home/me/project".to_string();
    let mut store = CacheStore::new();
    store.set(&key, vec!["deploy".to_string()]);
    let outcome = complete(
        2,
        &"deploy".to_string(),
        &"fab".to_string(),
        &mut store,
        &key,
    );
    match outcome {
        Outcome::RunDescribe { task } => assert_eq!(task, "deploy".to_string()),
        _ => panic!("expected a detail fetch"),
    }
    assert_eq!(store.get(&key), vec!["deploy".to_string()]);
}

#[test]
fn positions_past_the_second_offer_nothing() {
    let key = "fab_completion/home/me/project".to_string();
    let mut store = CacheStore::new();
    store.set(&key, vec!["deploy".to_string()]);
    let outcome = complete(
        3,
        &"x".to_string(),
        &"y".to_string(),
        &mut store,
        &key,
    );
    match outcome {
        Outcome::Done { candidates } => assert_eq!(candidates, Vec::<String>::new()),
        _ => panic!("expected no candidates"),
    }
}

#[test]
fn parse_task_list_trims_and_keeps_blank_lines() {
    assert_eq!(
        parse_task_list("  deploy \ntest\n\n"),
        vec!["deploy".to_string(), "test".to_string(), String::new()]
    );
    assert_eq!(parse_task_list(""), Vec::<String>::new());
}

#[test]
fn detail_output_parses_to_argument_candidates() {
    let candidates = complete_fab_command_args(
        &"deploy".to_string(),
        "\nDisplaying...\n\nNo docstring\nArguments: mode=None\n",
    );
    assert!(candidates.contains(&"deploy:mode=None".to_string()));
    assert!(candidates.contains(&"deploy".to_string()));
    assert_eq!(
        candidates,
        vec![
            "No docstring".to_string(),
            "deploy:mode=None".to_string(),
            "deploy".to_string()
        ]
    );
}

#[test]
fn short_detail_output_yields_only_the_fallback() {
    assert_eq!(
        parse_task_args("one\ntwo", &"deploy".to_string()),
        Vec::<String>::new()
    );
    assert_eq!(
        complete_fab_command_args(&"deploy".to_string(), "one\ntwo"),
        vec!["deploy".to_string()]
    );
}

#[test]
fn sentinel_token_is_the_reserved_word() {
    assert_eq!(cache_clear_token(), "_cache_clear");
}
