//! Option handling and the parsing of enumeration names.

use mal_plan::Error;
use mal_plan::InputOptions;
use mal_plan::ListType;
use mal_plan::Options;
use mal_plan::Sort;

fn args(list: &[&str]) -> Vec<String> {
    list.iter().map(|a| String::from(*a)).collect()
}

#[test]
fn no_arguments_keep_the_defaults() {
    let options = InputOptions::from_args(vec![]).unwrap();
    assert!(!options.save && !options.help && !options.no_cache && !options.ignore_config);
    assert!(options.user.is_none());
    assert_eq!(options.list, ListType::Manga);
    assert_eq!(options.sort, Sort::Desc);
}

#[test]
fn long_flags_set_their_options() {
    let options = InputOptions::from_args(args(&[
        "--save", "--user", "alice", "--list", "anime", "--sort", "asc", "--no-cache",
    ]))
    .unwrap();
    assert!(options.save && options.no_cache);
    assert_eq!(options.user.as_deref(), Some("alice"));
    assert_eq!(options.list, ListType::Anime);
    assert_eq!(options.sort, Sort::Asc);
}

#[test]
fn list_shorthands_pick_the_kind() {
    let options = InputOptions::from_args(args(&["--anime"])).unwrap();
    assert_eq!(options.list, ListType::Anime);
    let options = InputOptions::from_args(args(&["--anime", "--manga"])).unwrap();
    assert_eq!(options.list, ListType::Manga);
}

#[test]
fn bundled_short_flags_set_each_flag() {
    let options = InputOptions::from_args(args(&["-sn", "-i"])).unwrap();
    assert!(options.save && options.no_cache && options.ignore_config);
    assert!(!options.help);
    let options = InputOptions::from_args(args(&["-h"])).unwrap();
    assert!(options.help);
}

#[test]
fn a_value_flag_at_the_end_leaves_the_default() {
    let options = InputOptions::from_args(args(&["--save", "--user"])).unwrap();
    assert!(options.save);
    assert!(options.user.is_none());
    let options = InputOptions::from_args(args(&["--sort"])).unwrap();
    assert_eq!(options.sort, Sort::Desc);
}

#[test]
fn unknown_arguments_are_errors() {
    let e = InputOptions::from_args(args(&["frob"])).unwrap_err();
    assert_eq!(e, Error::ArgumentError(String::from("frob")));
    assert_eq!(
        e.message(),
        "Unknown argument frob. Use --help to see all options"
    );
    let e = InputOptions::from_args(args(&["-sx"])).unwrap_err();
    assert_eq!(e, Error::ArgumentError(String::from("-sx")));
    let e = InputOptions::from_args(args(&["--frob"])).unwrap_err();
    assert_eq!(e, Error::ArgumentError(String::from("--frob")));
}

#[test]
fn a_bad_list_value_is_a_list_error() {
    let e = InputOptions::from_args(args(&["--list", "Comics"])).unwrap_err();
    assert_eq!(e, Error::ListError(String::from("comics")));
    let e = InputOptions::from_args(args(&["--sort", "UP"])).unwrap_err();
    assert_eq!(e, Error::SortError(String::from("up")));
}

#[test]
fn defaults_fetch_manga_descending_with_cache_and_config() {
    let options = InputOptions::new();
    assert!(!options.save);
    assert!(options.user.is_none());
    assert_eq!(options.list, ListType::Manga);
    assert!(!options.help);
    assert_eq!(options.sort, Sort::Desc);
    assert!(!options.no_cache);
    assert!(!options.ignore_config);
}

#[test]
fn setters_flip_their_flag_only() {
    let mut options = InputOptions::new();
    options.set_help();
    options.set_save();
    options.set_no_cache();
    options.set_ignore_config();
    assert!(options.help && options.save && options.no_cache && options.ignore_config);
    assert!(options.user.is_none());
    assert_eq!(options.list, ListType::Manga);
}

#[test]
fn settling_options_takes_the_user() {
    let mut options = InputOptions::new();
    options.user = Some(String::from("alice"));
    options.set_save();
    let options = Options::from_input(options);
    assert_eq!(options.user, "alice");
    assert!(options.save);
    assert_eq!(options.list, ListType::Manga);
}

#[test]
fn list_kind_names_ignore_letter_case() {
    assert_eq!(ListType::from_str("manga").unwrap(), ListType::Manga);
    assert_eq!(ListType::from_str("MANGA").unwrap(), ListType::Manga);
    assert_eq!(ListType::from_str("Anime").unwrap(), ListType::Anime);
}

#[test]
fn unknown_list_kind_is_an_error_with_a_message() {
    let e = ListType::from_str("comics").unwrap_err();
    assert_eq!(e, Error::ListError(String::from("comics")));
    assert_eq!(
        e.message(),
        "Unknown list type comics. allowed values: manga, anime"
    );
}

#[test]
fn parse_errors_name_the_folded_string() {
    let e = ListType::from_str("Comics").unwrap_err();
    assert_eq!(e, Error::ListError(String::from("comics")));
    assert_eq!(
        e.message(),
        "Unknown list type comics. allowed values: manga, anime"
    );
    let e = Sort::from_str("SideWays").unwrap_err();
    assert_eq!(e, Error::SortError(String::from("sideways")));
    assert_eq!(
        e.message(),
        "Unknown sort type sideways. allowed values: asc, desc"
    );
}

#[test]
fn sort_names_ignore_letter_case() {
    assert_eq!(Sort::from_str("asc").unwrap(), Sort::Asc);
    assert_eq!(Sort::from_str("DESC").unwrap(), Sort::Desc);
    assert_eq!(Sort::from_str("Desc").unwrap(), Sort::Desc);
}

#[test]
fn unknown_sort_is_an_error_with_a_message() {
    let e = Sort::from_str("sideways").unwrap_err();
    assert_eq!(e, Error::SortError(String::from("sideways")));
    assert_eq!(
        e.message(),
        "Unknown sort type sideways. allowed values: asc, desc"
    );
}
