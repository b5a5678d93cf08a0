use solid::profile::{
    default_profile, place_file, profile_lines, profile_of, target, Place, Target,
};
use solid::SolidError;

fn names() -> Vec<String> {
    vec!["perso".to_string(), "work".to_string()]
}

fn file(t: &Target) -> Option<String> {
    place_file(&t.place)
}

fn work() -> Option<String> {
    Some("work".to_string())
}

#[test]
fn a_bare_path_goes_to_the_default_profile() {
    let t = target("a.txt", false, None, &names(), work());
    assert_eq!(file(&t).as_deref(), Some("profiles/work.json"));
    assert_eq!(t.path, "a.txt");
}

#[test]
fn an_alias_and_the_option_reach_the_same_profile() {
    let t = target("perso:b.txt", false, None, &names(), work());
    assert_eq!(file(&t).as_deref(), Some("profiles/perso.json"));
    assert_eq!(t.path, "b.txt");
    let t = target("perso:/", false, None, &names(), work());
    assert_eq!(t.path, "/");
    let t = target("b.txt", false, Some("perso".to_string()), &names(), work());
    assert_eq!(file(&t).as_deref(), Some("profiles/perso.json"));
    assert_eq!(t.path, "b.txt");
    let t = target("perso:b.txt", false, work(), &names(), None);
    assert_eq!(file(&t).as_deref(), Some("profiles/perso.json"));
}

#[test]
fn what_names_no_profile_is_a_path() {
    let t = target("other:b.txt", false, None, &names(), work());
    assert_eq!(file(&t).as_deref(), Some("profiles/work.json"));
    assert_eq!(t.path, "other:b.txt");
    let http = vec!["http".to_string()];
    let t = target("http://h/x", false, None, &http, None);
    assert!(matches!(t.place, Place::Session));
    assert_eq!(t.path, "http://h/x");
    let t = target("http:x", false, None, &http, None);
    assert_eq!(file(&t).as_deref(), Some("profiles/http.json"));
}

#[test]
fn without_profiles_there_is_one_session() {
    let t = target("a:b", false, None, &vec![], None);
    assert_eq!(file(&t).as_deref(), Some("session.json"));
    assert_eq!(t.path, "a:b");
}

#[test]
fn a_named_session_file_comes_first() {
    let t = target("perso:b.txt", true, work(), &names(), work());
    assert!(matches!(t.place, Place::Override));
    assert_eq!(file(&t), None);
    assert_eq!(t.path, "perso:b.txt");
}

#[test]
fn a_profile_is_named_by_its_file() {
    assert_eq!(profile_of("work.json").as_deref(), Some("work"));
    assert_eq!(profile_of("a.b.json").as_deref(), Some("a.b"));
    assert_eq!(profile_of("work.jso"), None);
    assert_eq!(profile_of("json"), None);
    assert_eq!(profile_of(""), None);
}

#[test]
fn profiles_have_files_of_their_own() {
    let a = place_file(&Place::Profile("a".to_string()));
    let b = place_file(&Place::Profile("b".to_string()));
    assert_ne!(a, b);
    assert_ne!(a, place_file(&Place::Session));
    let named = a.unwrap();
    assert_eq!(named.split('/').collect::<Vec<_>>(), vec!["profiles", "a.json"]);
}

#[test]
fn the_default_is_read_from_the_configuration() {
    assert_eq!(default_profile(br#"{"default":"work"}"#), Ok(work()));
    assert_eq!(default_profile(br#"{"default":1}"#), Ok(None));
    assert_eq!(default_profile(b"{}"), Ok(None));
    assert_eq!(default_profile(b"{"), Err(SolidError::ConfigInvalid));
}

#[test]
fn the_default_is_marked() {
    assert_eq!(profile_lines(&names(), Some("work")), vec!["  perso", "* work"]);
    assert_eq!(profile_lines(&names(), None), vec!["  perso", "  work"]);
    assert_eq!(profile_lines(&vec![], Some("work")), Vec::<String>::new());
}
