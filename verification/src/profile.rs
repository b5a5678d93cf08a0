//! Profiles: several sessions side by side, each under a name.
use vstd::prelude::*;
use crate::error::SolidError;
use crate::json;
use crate::resource;
use crate::text;

verus! {

/// Where a session is kept.
pub enum Place {
    /// In a file that was named explicitly.
    Override,
    /// In the one session file.
    Session,
    /// In the file of a profile.
    Profile(String),
}

/// What a path on the command line addresses: a session, and a path on its pod.
pub struct Target {
    pub place: Place,
    pub path: String,
}

/// The file that a profile is kept in, below the directory of profiles.
pub open spec fn profile_file(name: Seq<char>) -> Seq<char> {
    name + ".json"@
}

/// The profile that a file holds, if it holds one.
pub open spec fn held_profile(file: Seq<char>) -> Option<Seq<char>> {
    let n = file.len() - 5;
    if text::occurs_at(file, n, ".json"@) {
        Some(file.take(n))
    } else {
        None
    }
}

/// The file of a place, below the configuration directory.
pub open spec fn place_path(place: Place) -> Option<Seq<char>> {
    match place {
        Place::Override => None,
        Place::Session => Some("session.json"@),
        Place::Profile(name) => Some("profiles/"@ + profile_file(name@)),
    }
}

/// The alias that a path starts with, and the rest behind the colon. A path
/// starts with an alias if what stands before its first colon is the name of a
/// profile; a full URL never does.
pub open spec fn alias(path: Seq<char>, profiles: Seq<Seq<char>>) -> Option<
    (Seq<char>, Seq<char>),
> {
    if resource::is_full_url(path) {
        None
    } else {
        match text::find_char(path, 0, ':') {
            Some(p) => if profiles.contains(path.take(p)) {
                Some((path.take(p), path.skip(p + 1)))
            } else {
                None
            },
            None => None,
        }
    }
}

/// The place is that of a profile.
pub open spec fn is_profile(place: Place, name: Seq<char>) -> bool {
    place matches Place::Profile(n) && n@ == name
}

/// What a path addresses. A session file that was named explicitly comes first,
/// then the alias in the path, then the profile asked for, then the default
/// profile, and last the one session file.
pub open spec fn is_target(
    t: Target,
    path: Seq<char>,
    overridden: bool,
    asked: Option<Seq<char>>,
    profiles: Seq<Seq<char>>,
    default: Option<Seq<char>>,
) -> bool {
    if overridden {
        t.place is Override && t.path@ == path
    } else {
        match alias(path, profiles) {
            Some((name, rest)) => is_profile(t.place, name) && t.path@ == rest,
            None => t.path@ == path && match (asked, default) {
                (Some(name), _) => is_profile(t.place, name),
                (None, Some(name)) => is_profile(t.place, name),
                (None, None) => t.place is Session,
            },
        }
    }
}

/// The profile that a file holds, if it holds one.
pub fn profile_of(file: &str) -> (name: Option<String>)
    ensures
        text::opt_text(name) == held_profile(file@),
{
    let v = text::chars_of(file);
    let n: usize = v.len();
    proof {
        reveal_strlit(".json");
    }
    if n < 5 || !text::matches_at(&v, n - 5, &text::chars_of(".json")) {
        return None;
    }
    assert(v@.subrange(0, n - 5) =~= v@.take(n - 5));
    Some(text::text_between(&v, 0, n - 5))
}

/// The file of a place, below the configuration directory.
pub fn place_file(place: &Place) -> (file: Option<String>)
    ensures
        text::opt_text(file) == place_path(*place),
{
    match place {
        Place::Override => None,
        Place::Session => Some("session.json".to_owned()),
        Place::Profile(name) => {
            let file = "profiles/".to_owned().concat(name.as_str()).concat(".json");
            assert(file@ =~= "profiles/"@ + profile_file(name@));
            Some(file)
        },
    }
}

/// The default profile that a configuration file names.
pub fn default_profile(config: &[u8]) -> (r: Result<Option<String>, SolidError>)
    ensures
        match json::parsed_strings(config@) {
            None => r == Err::<Option<String>, SolidError>(SolidError::ConfigInvalid),
            Some(members) => r matches Ok(name) && text::opt_text(name) == members.get(
                "default"@,
            ),
        },
{
    match json::parse(config) {
        Err(_) => Err(SolidError::ConfigInvalid),
        Ok(value) => Ok(json::string_member(&value, "default")),
    }
}

/// Whether a name is in a list.
fn is_listed(names: &Vec<String>, name: &str) -> (r: bool)
    ensures
        r == text::texts(names@).contains(name@),
{
    let mut i: usize = 0;
    while i < names.len()
        invariant
            i <= names@.len(),
            forall|k: int| 0 <= k < i ==> text::texts(names@)[k] != name@,
        decreases names@.len() - i,
    {
        assert(text::texts(names@)[i as int] == names@[i as int]@);
        if text::same(names[i].as_str(), name) {
            return true;
        }
        i += 1;
    }
    false
}

/// What a path addresses, given whether a session file was named explicitly,
/// the profile asked for, the profiles that exist, and the default profile.
pub fn target(
    path: &str,
    overridden: bool,
    asked: Option<String>,
    profiles: &Vec<String>,
    default: Option<String>,
) -> (t: Target)
    ensures
        is_target(
            t,
            path@,
            overridden,
            text::opt_text(asked),
            text::texts(profiles@),
            text::opt_text(default),
        ),
{
    if overridden {
        return Target { place: Place::Override, path: path.to_owned() };
    }
    let full = text::starts_with(path, "http://") || text::starts_with(path, "https://");
    if !full {
        let v = text::chars_of(path);
        let n: usize = v.len();
        proof {
            text::lemma_find_char(v@, 0, ':');
        }
        if let Some(p) = text::find_one(&v, 0, ':') {
            let name = text::text_between(&v, 0, p);
            assert(name@ =~= path@.take(p as int));
            if is_listed(profiles, name.as_str()) {
                let rest = text::text_between(&v, p + 1, n);
                assert(rest@ =~= path@.skip(p + 1));
                return Target { place: Place::Profile(name), path: rest };
            }
        }
    }
    let place = match asked {
        Some(name) => Place::Profile(name),
        None => match default {
            Some(name) => Place::Profile(name),
            None => Place::Session,
        },
    };
    Target { place, path: path.to_owned() }
}

/// How a profile is listed: the default one is marked.
pub open spec fn listed_profile(name: Seq<char>, default: Option<Seq<char>>) -> Seq<char> {
    if default == Some(name) {
        "* "@ + name
    } else {
        "  "@ + name
    }
}

/// The lines that list the profiles.
pub fn profile_lines(names: &Vec<String>, default: Option<&str>) -> (lines: Vec<String>)
    ensures
        text::texts(lines@) == text::texts(names@).map_values(
            |name: Seq<char>| listed_profile(name, text::opt_str(default)),
        ),
{
    let mut lines: Vec<String> = Vec::new();
    let mut i: usize = 0;
    while i < names.len()
        invariant
            i <= names@.len(),
            lines@.len() == i,
            forall|k: int|
                0 <= k < i ==> #[trigger] lines@[k]@ == listed_profile(
                    names@[k]@,
                    text::opt_str(default),
                ),
        decreases names@.len() - i,
    {
        let marked = match default {
            Some(d) => text::same(d, names[i].as_str()),
            None => false,
        };
        let mark: &str = if marked {
            "* "
        } else {
            "  "
        };
        lines.push(mark.to_owned().concat(names[i].as_str()));
        i += 1;
    }
    assert(text::texts(lines@) =~= text::texts(names@).map_values(
        |name: Seq<char>| listed_profile(name, text::opt_str(default)),
    ));
    lines
}

/// The file of a profile holds that profile.
pub proof fn law_file_holds_its_profile(name: Seq<char>)
    ensures
        held_profile(profile_file(name)) == Some(name),
{
    reveal_strlit(".json");
    let file = profile_file(name);
    assert(file.subrange(file.len() - 5, file.len() as int) =~= ".json"@);
    assert(file.take(file.len() - 5) =~= name);
}

/// A profile whose name holds no slash is kept in a file of its own, directly in
/// the directory of profiles; the one session file stands outside of it.
pub proof fn law_profiles_are_isolated(a: String, b: String)
    requires
        !a@.contains('/'),
        !b@.contains('/'),
    ensures
        text::pieces(place_path(Place::Profile(a))->0, '/') == seq!["profiles"@, profile_file(a@)],
        text::pieces(place_path(Place::Session)->0, '/') == seq!["session.json"@],
        place_path(Place::Profile(a)) == place_path(Place::Profile(b)) ==> a@ == b@,
        place_path(Place::Profile(a)) != place_path(Place::Session),
{
    lemma_profile_path(a);
    lemma_profile_path(b);
    reveal_strlit("session.json");
    text::lemma_only_piece("session.json"@, '/');
    law_file_holds_its_profile(a@);
    law_file_holds_its_profile(b@);
    let p = text::pieces(place_path(Place::Profile(a))->0, '/');
    let q = text::pieces(place_path(Place::Profile(b))->0, '/');
    assert(p.len() == 2 && p[1] == profile_file(a@));
    assert(q.len() == 2 && q[1] == profile_file(b@));
    assert(text::pieces(place_path(Place::Session)->0, '/').len() == 1);
}

proof fn lemma_profile_path(name: String)
    requires
        !name@.contains('/'),
    ensures
        text::pieces(place_path(Place::Profile(name))->0, '/') == seq![
            "profiles"@,
            profile_file(name@),
        ],
{
    reveal_strlit("profiles/");
    reveal_strlit("profiles");
    reveal_strlit(".json");
    let file = profile_file(name@);
    assert forall|i: int| 0 <= i < file.len() implies file[i] != '/' by {
        if i < name@.len() {
            assert(name@.contains(name@[i]));
        }
    }
    assert("profiles/"@ =~= "profiles"@ + seq!['/']);
    text::lemma_first_piece("profiles"@, file, '/');
    text::lemma_only_piece(file, '/');
    assert(seq!["profiles"@] + seq![file] =~= seq!["profiles"@, file]);
}

/// An alias and the option mean the same: a path behind the alias of a profile
/// addresses what the bare path addresses when the profile is asked for.
pub proof fn law_alias_is_the_option(
    by_alias: Target,
    by_option: Target,
    name: Seq<char>,
    path: Seq<char>,
    profiles: Seq<Seq<char>>,
    asked: Option<Seq<char>>,
    default: Option<Seq<char>>,
)
    requires
        profiles.contains(name),
        !name.contains(':'),
        !resource::is_full_url(name + seq![':'] + path),
        alias(path, profiles) is None,
        is_target(by_alias, name + seq![':'] + path, false, asked, profiles, default),
        is_target(by_option, path, false, Some(name), profiles, default),
    ensures
        is_profile(by_alias.place, name),
        is_profile(by_option.place, name),
        by_alias.path@ == path,
        by_option.path@ == path,
{
    let s = name + seq![':'] + path;
    let p = name.len() as int;
    assert forall|q: int| 0 <= q < p implies s[q] != ':' by {
        assert(name.contains(name[q]));
    }
    assert(s[p] == ':');
    text::lemma_find_char_is(s, 0, ':', p);
    assert(s.take(p) =~= name);
    assert(s.skip(p + 1) =~= path);
}

/// Without profiles every path means the one session, whatever it holds.
pub proof fn law_no_profiles_one_session(t: Target, path: Seq<char>)
    requires
        is_target(t, path, false, None, Seq::empty(), None),
    ensures
        t.place is Session,
        t.path@ == path,
{
}

/// A file holds a profile only if it is called after it.
pub proof fn law_profile_names_its_file(file: Seq<char>, name: Seq<char>)
    ensures
        held_profile(file) == Some(name) <==> file == name + ".json"@,
{
    reveal_strlit(".json");
    if file == name + ".json"@ {
        law_file_holds_its_profile(name);
    }
    if held_profile(file) == Some(name) {
        let n = file.len() - 5;
        assert(file =~= file.take(n) + file.subrange(n, file.len() as int));
    }
}

/// Where sessions are kept.
pub proof fn law_place_paths(name: String)
    ensures
        place_path(Place::Session) == Some("session.json"@),
        place_path(Place::Profile(name)) == Some("profiles/"@ + name@ + ".json"@),
        place_path(Place::Override) is None,
{
    assert("profiles/"@ + (name@ + ".json"@) =~= "profiles/"@ + name@ + ".json"@);
}

/// A path starts with an alias exactly if a profile of that name is there and the
/// path is no full URL. The path behind the alias is what stands behind the
/// colon.
pub proof fn law_alias(
    name: Seq<char>,
    rest: Seq<char>,
    profiles: Seq<Seq<char>>,
    tail: Seq<char>,
)
    requires
        !name.contains(':'),
    ensures
        profiles.contains(name) && !resource::is_full_url(name.push(':') + rest) ==> alias(
            name.push(':') + rest,
            profiles,
        ) == Some((name, rest)),
        !profiles.contains(name) ==> alias(name.push(':') + rest, profiles) is None,
        alias(name, profiles) is None,
        alias("http://"@ + tail, profiles) is None,
        alias("https://"@ + tail, profiles) is None,
{
    let s = name.push(':') + rest;
    let p = name.len() as int;
    assert forall|q: int| 0 <= q < p implies name[q] != ':' by {
        assert(name.contains(name[q]));
    }
    assert(s[p] == ':');
    text::lemma_find_char_is(s, 0, ':', p);
    assert(s.take(p) =~= name);
    assert(s.skip(p + 1) =~= rest);
    text::lemma_find_char(name, 0, ':');
    let plain = "http://"@ + tail;
    let secure = "https://"@ + tail;
    assert(plain.subrange(0, "http://"@.len() as int) =~= "http://"@);
    assert(secure.subrange(0, "https://"@.len() as int) =~= "https://"@);
}

/// What a path addresses: the file named explicitly if there is one; else the
/// profile of its alias; else the profile asked for; else the default profile;
/// else the one session.
pub proof fn law_target(
    t: Target,
    path: Seq<char>,
    overridden: bool,
    asked: Option<Seq<char>>,
    profiles: Seq<Seq<char>>,
    default: Option<Seq<char>>,
)
    requires
        is_target(t, path, overridden, asked, profiles, default),
    ensures
        overridden ==> t.place is Override && t.path@ == path,
        !overridden ==> match alias(path, profiles) {
            Some((name, rest)) => t.path@ == rest && place_path(t.place) == Some(
                "profiles/"@ + profile_file(name),
            ),
            None => {
                &&& t.path@ == path
                &&& asked is Some ==> place_path(t.place) == Some(
                    "profiles/"@ + profile_file(asked->0),
                )
                &&& asked is None && default is Some ==> place_path(t.place) == Some(
                    "profiles/"@ + profile_file(default->0),
                )
                &&& asked is None && default is None ==> place_path(t.place) == Some(
                    "session.json"@,
                )
            },
        },
{
}

/// Every profile is listed by its name behind a mark of two characters, which is
/// a star and a space for the default one and two spaces for the others.
pub proof fn law_listed_profile(name: Seq<char>, default: Option<Seq<char>>)
    ensures
        listed_profile(name, Some(name)) == "* "@ + name,
        default != Some(name) ==> listed_profile(name, default) == "  "@ + name,
{
}

} // verus!
