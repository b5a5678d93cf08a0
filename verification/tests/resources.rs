use solid::resource::{container_url, content_type, listing};
use solid::{can_urldec, guess_type, parse_contains, resolve, urldec, urlenc};

#[test]
fn slashes_at_the_seam_do_not_matter() {
    assert_eq!(resolve("http://h/p///", "///a/b"), "http://h/p/a/b");
    assert_eq!(resolve("http://h/p", ""), "http://h/p/");
    assert_eq!(resolve("", "a"), "/a");
    assert_eq!(resolve("http://h/p", "http:/x"), "http://h/p/http:/x");
    assert_eq!(resolve("http://h/p", "http://x"), "http://x");
}

#[test]
fn a_resolved_path_resolves_to_itself() {
    let url = resolve("https://h/p/", "a b.ttl");
    assert_eq!(url, "https://h/p/a b.ttl");
    assert_eq!(resolve("https://h/p/", &url), url);
}

#[test]
fn a_base_needs_no_trailing_slash() {
    assert_eq!(resolve("https://h/p//", "/x"), resolve("https://h/p", "/x"));
}

#[test]
fn every_known_extension_has_its_type() {
    assert_eq!(guess_type("x.jsonld"), "application/ld+json");
    assert_eq!(guess_type("x.txt"), "text/plain");
    assert_eq!(guess_type("x.html"), "text/html");
    assert_eq!(guess_type("x.htm"), "text/html");
    assert_eq!(guess_type("x.md"), "text/markdown");
    assert_eq!(guess_type("x.csv"), "text/csv");
    assert_eq!(guess_type("x.tar.md"), "text/markdown");
    assert_eq!(guess_type("x.TTL"), "application/octet-stream");
    assert_eq!(guess_type("ttl"), "text/turtle");
    assert_eq!(guess_type("x."), "application/octet-stream");
    assert_eq!(guess_type(""), "application/octet-stream");
}

#[test]
fn a_given_type_is_used_as_it_is() {
    assert_eq!(content_type(Some("image/png".to_string()), "a.ttl"), "image/png");
    assert_eq!(content_type(None, "a.ttl"), "text/turtle");
}

#[test]
fn a_container_ends_in_a_slash() {
    assert_eq!(container_url("http://h/p", "sub"), "http://h/p/sub/");
    assert_eq!(container_url("http://h/p", "sub/"), "http://h/p/sub/");
    assert_eq!(container_url("http://h/p", "/"), "http://h/p/");
}

#[test]
fn children_are_shown_by_what_they_add() {
    let ttl = "<> ldp:contains <http://h/p/a.txt>, <http://h/p/sub/>, <http://h/p/>, <http://o/x> .";
    assert_eq!(
        listing("http://h/p/", ttl),
        vec!["a.txt", "sub/", "http://h/p/", "http://o/x"]
    );
}

#[test]
fn a_repeated_prefix_is_stripped_as_often_as_it_stands_there() {
    let ttl = "<> ldp:contains <ababc> .";
    assert_eq!(listing("ab", ttl), vec!["c"]);
    assert_eq!(listing("", ttl), vec!["ababc"]);
}

#[test]
fn dots_in_iris_do_not_end_a_list() {
    let ttl = "<> ldp:contains <a.b.c> ,\n\t<d.ttl>,,\r<e> ; <x> <y> .";
    assert_eq!(parse_contains(ttl), vec!["a.b.c", "d.ttl", "e"]);
}

#[test]
fn lists_end_at_any_other_token() {
    assert_eq!(parse_contains("ldp:contains <a> . <b>"), vec!["a"]);
    assert_eq!(parse_contains("ldp:contains <a> ; <b>"), vec!["a"]);
    assert_eq!(parse_contains("ldp:contains \"x\" <b>"), Vec::<String>::new());
    assert_eq!(parse_contains("ldp:contains"), Vec::<String>::new());
    assert_eq!(parse_contains(""), Vec::<String>::new());
}

#[test]
fn an_iri_without_an_end_is_no_child() {
    assert_eq!(parse_contains("ldp:contains <a>, <b"), vec!["a"]);
    assert_eq!(parse_contains("ldp:contains <b ldp:contains <c>"), vec!["b ldp:contains <c"]);
}

#[test]
fn several_statements_are_read_in_order() {
    let ttl = "ldp:contains <1>. x ldp:contains <2>, <3>. <http://www.w3.org/ns/ldp#contains> <4>.";
    assert_eq!(parse_contains(ttl), vec!["1", "2", "3", "4"]);
}

#[test]
fn the_full_predicate_inside_an_iri_is_shortened_too() {
    let ttl = "ldp:contains <a<http://www.w3.org/ns/ldp#contains>";
    assert_eq!(parse_contains(ttl), Vec::<String>::new());
    assert_eq!(parse_contains("ldp:contains <é>, <日本>"), vec!["é", "日本"]);
}

#[test]
fn only_unreserved_characters_stand_for_themselves() {
    assert_eq!(urlenc("AZaz09-_.~"), "AZaz09-_.~");
    assert_eq!(urlenc("a b/c?d=e&f"), "a%20b%2Fc%3Fd%3De%26f");
    assert_eq!(urlenc("é\n"), "%C3%A9%0A");
    assert_eq!(urlenc(""), "");
}

#[test]
fn escapes_and_pluses_are_decoded() {
    assert_eq!(urldec("a+b%20c"), "a b c");
    assert_eq!(urldec("%c3%A9"), "é");
    assert_eq!(urldec("%2"), "%2");
    assert_eq!(urldec("100%"), "100%");
    assert_eq!(urldec("%zz%41"), "%zzA");
    assert_eq!(urldec("%+5x"), "\u{5}x");
    assert_eq!(urldec("%-5x"), "%-5x");
    assert_eq!(urldec("%FF"), "\u{FFFD}");
    assert_eq!(urldec("a%E2%82b"), "a\u{FFFD}b");
}

#[test]
fn escapes_that_end_inside_a_character_cannot_be_decoded() {
    assert!(can_urldec("%41é"));
    assert!(can_urldec("%é"));
    assert!(!can_urldec("%aé"));
    assert!(can_urldec("%a"));
    assert!(can_urldec("é%"));
}

#[test]
fn every_text_survives_encoding() {
    for s in ["", "%", "%41", "a+b", "é日本\u{10FFFF}", "&=?#/", "\u{0}\u{7f}\u{80}"] {
        let coded = urlenc(s);
        assert!(can_urldec(&coded));
        assert_eq!(urldec(&coded), s);
        assert!(!coded.contains('&') && !coded.contains('=') && !coded.contains('?'));
    }
}

#[test]
fn a_shown_name_leads_back_to_its_child() {
    let url = container_url("https://h/p", "sub");
    let shown = listing(&url, "ldp:contains <https://h/p/sub/a:b.txt>.");
    assert_eq!(shown, vec!["a:b.txt"]);
    assert_eq!(resolve(&url, &shown[0]), "https://h/p/sub/a:b.txt");
    assert_eq!(container_url(&url, &url), url);
}
