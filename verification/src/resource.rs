//! Addresses of resources on a pod, and what is shown and sent for them.
use vstd::prelude::*;
use crate::text;
use crate::turtle;

verus! {

/// A path that is already a full URL.
pub open spec fn is_full_url(path: Seq<char>) -> bool {
    text::occurs_at(path, 0, "http://"@) || text::occurs_at(path, 0, "https://"@)
}

/// The URL of a path: itself if it is a full URL, else the path below the pod
/// base, with one slash between the two.
pub open spec fn resolved(base: Seq<char>, path: Seq<char>) -> Seq<char> {
    if is_full_url(path) {
        path
    } else {
        text::trimmed_end(base, '/') + seq!['/'] + text::trimmed_start(path, '/')
    }
}

/// The media type that goes with a file extension.
pub open spec fn media_type(ext: Seq<char>) -> Seq<char> {
    if ext == "ttl"@ {
        "text/turtle"@
    } else if ext == "json"@ {
        "application/json"@
    } else if ext == "jsonld"@ {
        "application/ld+json"@
    } else if ext == "txt"@ {
        "text/plain"@
    } else if ext == "html"@ || ext == "htm"@ {
        "text/html"@
    } else if ext == "md"@ {
        "text/markdown"@
    } else if ext == "csv"@ {
        "text/csv"@
    } else {
        "application/octet-stream"@
    }
}

/// The URL of a container: it ends in a slash.
pub open spec fn container(url: Seq<char>) -> Seq<char> {
    if url.len() > 0 && url.last() == '/' {
        url
    } else {
        url.push('/')
    }
}

/// How a child of a container is shown: by what its IRI adds to the
/// container's, or by its IRI if that is nothing.
pub open spec fn shown_name(url: Seq<char>, child: Seq<char>) -> Seq<char> {
    let name = text::stripped(child, url);
    if name.len() == 0 {
        child
    } else {
        name
    }
}

/// Resolve a path against the pod base.
pub fn resolve(base: &str, path: &str) -> (url: String)
    ensures
        url@ == resolved(base@, path@),
{
    if text::starts_with(path, "http://") || text::starts_with(path, "https://") {
        path.to_owned()
    } else {
        let mut url = text::trim_end(base, '/');
        url.push('/');
        url.append(text::trim_start(path, '/').as_str());
        url
    }
}

/// Guess a media type from what stands after the last dot.
pub fn guess_type(url: &str) -> (ct: String)
    ensures
        ct@ == media_type(text::after_last(url@, '.')),
{
    let ext = text::tail_after(url, '.');
    let ct: &str = if text::equals(&ext, "ttl") {
        "text/turtle"
    } else if text::equals(&ext, "json") {
        "application/json"
    } else if text::equals(&ext, "jsonld") {
        "application/ld+json"
    } else if text::equals(&ext, "txt") {
        "text/plain"
    } else if text::equals(&ext, "html") || text::equals(&ext, "htm") {
        "text/html"
    } else if text::equals(&ext, "md") {
        "text/markdown"
    } else if text::equals(&ext, "csv") {
        "text/csv"
    } else {
        "application/octet-stream"
    };
    ct.to_owned()
}

/// The media type a resource is written with: the one given, else the guessed one.
pub fn content_type(given: Option<String>, url: &str) -> (ct: String)
    ensures
        ct@ == match given {
            Some(g) => g@,
            None => media_type(text::after_last(url@, '.')),
        },
{
    match given {
        Some(g) => g,
        None => guess_type(url),
    }
}

/// The URL that lists a container.
pub fn container_url(base: &str, path: &str) -> (url: String)
    ensures
        url@ == container(resolved(base@, path@)),
{
    let mut url = resolve(base, path);
    let v = text::chars_of(url.as_str());
    if v.len() == 0 || v[v.len() - 1] != '/' {
        url.push('/');
    }
    url
}

/// The lines shown for a container, given its URL and its Turtle description.
pub fn listing(url: &str, ttl: &str) -> (lines: Vec<String>)
    ensures
        text::texts(lines@) == turtle::children(ttl@).map_values(
            |child: Seq<char>| shown_name(url@, child),
        ),
{
    let kids = turtle::parse_contains(ttl);
    let mut lines: Vec<String> = Vec::new();
    let mut i: usize = 0;
    while i < kids.len()
        invariant
            i <= kids@.len(),
            lines@.len() == i,
            forall|k: int|
                0 <= k < i ==> #[trigger] lines@[k]@ == shown_name(url@, kids@[k]@),
        decreases kids@.len() - i,
    {
        let name = text::strip(kids[i].as_str(), url);
        let line: String = if name.as_str().is_empty() {
            kids[i].clone()
        } else {
            name
        };
        lines.push(line);
        i += 1;
    }
    assert(text::texts(lines@) =~= text::texts(kids@).map_values(
        |child: Seq<char>| shown_name(url@, child),
    ));
    lines
}

/// Slashes at the seam do not matter: a base that ends in one more and a path
/// that starts with one more resolve to the same URL.
pub proof fn law_slashes_at_the_seam(base: Seq<char>, path: Seq<char>)
    requires
        !is_full_url(path),
    ensures
        resolved(base.push('/'), path) == resolved(base, path),
        resolved(base, seq!['/'] + path) == resolved(base, path),
{
    reveal_strlit("http://");
    reveal_strlit("https://");
    assert(base.push('/').drop_last() =~= base);
    let slashed = seq!['/'] + path;
    assert(slashed.drop_first() =~= path);
    assert(!is_full_url(slashed)) by {
        if text::occurs_at(slashed, 0, "http://"@) {
            assert(slashed.subrange(0, 7)[0] == '/');
        }
        if text::occurs_at(slashed, 0, "https://"@) {
            assert(slashed.subrange(0, 8)[0] == '/');
        }
    }
}

/// What is shown for a child leads back to it: below a container, a child is
/// shown by the name that it adds, and that name resolves to the child. The
/// container ends in one slash, and the name neither starts with a slash, nor
/// with the container's own URL, nor is it a full URL.
pub proof fn law_shown_name_leads_back(url: Seq<char>, name: Seq<char>)
    requires
        url.len() > 1,
        url.last() == '/',
        url[url.len() - 2] != '/',
        name.len() > 0,
        name[0] != '/',
        !is_full_url(name),
        !text::occurs_at(name, 0, url),
    ensures
        shown_name(url, url + name) == name,
        resolved(url, name) == url + name,
        container(url) == url,
{
    let child = url + name;
    assert(child.subrange(0, url.len() as int) =~= url);
    assert(child.skip(url.len() as int) =~= name);
    assert(text::stripped(name, url) == name);
    let head = url.drop_last();
    assert(head.last() != '/');
    assert(text::trimmed_end(head, '/') == head);
    assert(text::trimmed_end(url, '/') == head);
    assert(head + seq!['/'] =~= url);
}

/// A container's URL is made to end in a slash once.
pub proof fn law_container_once(url: Seq<char>)
    ensures
        container(container(url)) == container(url),
        container(url).last() == '/',
{
}

proof fn lemma_trimmed_end(s: Seq<char>, c: char)
    ensures
        text::trimmed_end(text::trimmed_end(s, c), c) == text::trimmed_end(s, c),
    decreases s.len(),
{
    if s.len() > 0 && s.last() == c {
        lemma_trimmed_end(s.drop_last(), c);
    }
}

/// A base may be kept without its trailing slashes: paths resolve the same.
pub proof fn law_base_needs_no_slash(base: Seq<char>, path: Seq<char>)
    ensures
        resolved(text::trimmed_end(base, '/'), path) == resolved(base, path),
{
    lemma_trimmed_end(base, '/');
}

/// Resolving once is enough: below a base that is a full URL, what a path
/// resolves to resolves to itself.
pub proof fn law_resolved_is_full(base: Seq<char>, path: Seq<char>)
    requires
        is_full_url(text::trimmed_end(base, '/')),
    ensures
        is_full_url(resolved(base, path)),
        resolved(base, resolved(base, path)) == resolved(base, path),
{
    reveal_strlit("http://");
    reveal_strlit("https://");
    let head = text::trimmed_end(base, '/');
    let url = resolved(base, path);
    if !is_full_url(path) {
        if text::occurs_at(head, 0, "http://"@) {
            assert(url.subrange(0, 7) =~= head.subrange(0, 7));
        } else {
            assert(url.subrange(0, 8) =~= head.subrange(0, 8));
        }
    }
}

/// A full URL is taken as it is, whatever the base.
pub proof fn law_full_url_is_kept(base: Seq<char>, rest: Seq<char>)
    ensures
        resolved(base, "http://"@ + rest) == "http://"@ + rest,
        resolved(base, "https://"@ + rest) == "https://"@ + rest,
{
    let plain = "http://"@ + rest;
    let secure = "https://"@ + rest;
    assert(plain.subrange(0, "http://"@.len() as int) =~= "http://"@);
    assert(secure.subrange(0, "https://"@.len() as int) =~= "https://"@);
}

/// Any other path is put below the base with one slash between the two, however
/// many slashes the base ends in and the path starts with.
pub proof fn law_relative_path_goes_below_the_base(
    head: Seq<char>,
    trail: Seq<char>,
    lead: Seq<char>,
    tail: Seq<char>,
)
    requires
        head.len() > 0 ==> head.last() != '/',
        forall|k: int| 0 <= k < trail.len() ==> #[trigger] trail[k] == '/',
        forall|k: int| 0 <= k < lead.len() ==> #[trigger] lead[k] == '/',
        tail.len() > 0 ==> tail[0] != '/',
        forall|rest: Seq<char>| lead + tail != #[trigger] ("http://"@ + rest),
        forall|rest: Seq<char>| lead + tail != #[trigger] ("https://"@ + rest),
    ensures
        resolved(head + trail, lead + tail) == head + seq!['/'] + tail,
{
    let base = head + trail;
    let path = lead + tail;
    if text::occurs_at(path, 0, "http://"@) {
        let rest = path.skip("http://"@.len() as int);
        text::law_occurrence(path, rest, rest, path, 0);
        assert(path =~= "http://"@ + rest) by {
            assert(path.subrange(0, "http://"@.len() as int) == "http://"@);
            assert(path =~= path.subrange(0, "http://"@.len() as int) + rest);
        }
    }
    if text::occurs_at(path, 0, "https://"@) {
        let rest = path.skip("https://"@.len() as int);
        assert(path =~= "https://"@ + rest) by {
            assert(path.subrange(0, "https://"@.len() as int) == "https://"@);
            assert(path =~= path.subrange(0, "https://"@.len() as int) + rest);
        }
    }
    text::law_trimmed_end(base, '/');
    let t = text::trimmed_end(base, '/');
    if t.len() < head.len() {
        assert(base[head.len() - 1] == head.last());
    }
    if t.len() > head.len() {
        assert(base[t.len() - 1] == trail[t.len() - 1 - head.len()]);
    }
    assert(t =~= head);
    text::law_trimmed_start(path, '/');
    let u = text::trimmed_start(path, '/');
    if u.len() < tail.len() {
        assert(path[lead.len() as int] == tail[0]);
    }
    if u.len() > tail.len() {
        assert(path[path.len() - u.len()] == lead[path.len() - u.len()]);
    }
    assert(u =~= tail);
}

/// The extension of a resource, which is what stands behind its last dot, says
/// what its media type is, whatever stands before it.
pub proof fn law_extension_gives_the_type(stem: Seq<char>)
    ensures
        media_type(text::after_last(stem + ".ttl"@, '.')) == "text/turtle"@,
        media_type(text::after_last(stem + ".json"@, '.')) == "application/json"@,
        media_type(text::after_last(stem + ".jsonld"@, '.')) == "application/ld+json"@,
        media_type(text::after_last(stem + ".txt"@, '.')) == "text/plain"@,
        media_type(text::after_last(stem + ".html"@, '.')) == "text/html"@,
        media_type(text::after_last(stem + ".htm"@, '.')) == "text/html"@,
        media_type(text::after_last(stem + ".md"@, '.')) == "text/markdown"@,
        media_type(text::after_last(stem + ".csv"@, '.')) == "text/csv"@,
{
    lemma_extension_names();
    reveal_strlit(".ttl");
    reveal_strlit("ttl");
    reveal_strlit(".json");
    reveal_strlit("json");
    reveal_strlit(".jsonld");
    reveal_strlit("jsonld");
    reveal_strlit(".txt");
    reveal_strlit("txt");
    reveal_strlit(".html");
    reveal_strlit("html");
    reveal_strlit(".htm");
    reveal_strlit("htm");
    reveal_strlit(".md");
    reveal_strlit("md");
    reveal_strlit(".csv");
    reveal_strlit("csv");
    lemma_extension(stem, ".ttl"@, "ttl"@);
    lemma_extension(stem, ".json"@, "json"@);
    lemma_extension(stem, ".jsonld"@, "jsonld"@);
    lemma_extension(stem, ".txt"@, "txt"@);
    lemma_extension(stem, ".html"@, "html"@);
    lemma_extension(stem, ".htm"@, "htm"@);
    lemma_extension(stem, ".md"@, "md"@);
    lemma_extension(stem, ".csv"@, "csv"@);
}

proof fn lemma_extension(stem: Seq<char>, dotted: Seq<char>, ext: Seq<char>)
    requires
        dotted =~= seq!['.'] + ext,
        !ext.contains('.'),
    ensures
        text::after_last(stem + dotted, '.') == ext,
{
    text::law_after_last(stem, ext, '.');
    assert(stem + dotted =~= stem.push('.') + ext);
}

/// No two extensions are the same, but for their lengths.
proof fn lemma_extension_names()
    ensures
        "ttl"@.len() == 3 && "txt"@.len() == 3 && "htm"@.len() == 3 && "csv"@.len() == 3,
        "json"@.len() == 4 && "html"@.len() == 4 && "md"@.len() == 2 && "jsonld"@.len() == 6,
        "ttl"@[1] == 't' && "txt"@[1] == 'x' && "htm"@[0] == 'h' && "csv"@[0] == 'c',
        "ttl"@[0] == 't' && "txt"@[0] == 't' && "json"@[0] == 'j' && "html"@[0] == 'h',
{
    reveal_strlit("ttl");
    reveal_strlit("txt");
    reveal_strlit("htm");
    reveal_strlit("csv");
    reveal_strlit("json");
    reveal_strlit("html");
    reveal_strlit("md");
    reveal_strlit("jsonld");
}

/// Any other extension, and any text without a dot that is no such extension
/// itself, means plain bytes.
pub proof fn law_other_extensions_are_bytes(stem: Seq<char>, ext: Seq<char>)
    requires
        !ext.contains('.'),
        ext != "ttl"@ && ext != "json"@ && ext != "jsonld"@ && ext != "txt"@,
        ext != "html"@ && ext != "htm"@ && ext != "md"@ && ext != "csv"@,
    ensures
        media_type(text::after_last(stem.push('.') + ext, '.')) == "application/octet-stream"@,
        media_type(text::after_last(ext, '.')) == "application/octet-stream"@,
{
    text::law_after_last(stem, ext, '.');
}

/// A container's URL gets a slash at its end if it has none.
pub proof fn law_container_ends_in_a_slash(url: Seq<char>)
    ensures
        container(url.push('/')) == url.push('/'),
        url.len() == 0 || url[url.len() - 1] != '/' ==> container(url) == url.push('/'),
{
}

/// A child is shown by what stands behind the container's URL. One that does not
/// start with it, and the container itself, are shown in full.
pub proof fn law_shown_name(url: Seq<char>, name: Seq<char>, child: Seq<char>)
    requires
        url.len() > 0,
    ensures
        name.len() > 0 && (name.len() < url.len() || name.take(url.len() as int) != url)
            ==> shown_name(url, url + name) == name,
        child.len() < url.len() || child.take(url.len() as int) != url ==> shown_name(url, child)
            == child,
        shown_name(url, url) == url,
        shown_name(Seq::empty(), child) == child,
{
    text::law_stripped(name, url);
    text::law_stripped(child, url);
    text::law_stripped(Seq::empty(), url);
    text::law_stripped(child, Seq::empty());
    assert(url + Seq::<char>::empty() =~= url);
}

/// A container whose description lists children below its URL is shown by their
/// names, in order.
pub proof fn law_listing_shows_the_names(
    url: Seq<char>,
    names: Seq<Seq<char>>,
    prefix: Seq<char>,
    parts: Seq<(Seq<char>, Seq<char>)>,
    gap: Seq<char>,
    suffix: Seq<char>,
)
    requires
        url.len() > 0,
        parts.len() == names.len(),
        forall|i: int|
            0 <= i < names.len() ==> {
                &&& (#[trigger] parts[i]).1 == url + names[i]
                &&& names[i].len() > 0
                &&& names[i].len() < url.len() || names[i].take(url.len() as int) != url
            },
        turtle::are_objects(parts),
        turtle::is_gap(gap),
        turtle::ends_objects(suffix),
        ({
            let doc = prefix + "ldp:contains"@ + turtle::object_text(parts) + gap + suffix;
            &&& forall|q: int|
                0 <= q ==> !text::occurs_at(doc, q, "<http://www.w3.org/ns/ldp#contains>"@)
            &&& text::find_from(doc, 0, "ldp:contains"@) == Some(prefix.len() as int)
            &&& text::find_from(doc, doc.len() - suffix.len(), "ldp:contains"@) is None
        }),
    ensures
        turtle::children(
            prefix + "ldp:contains"@ + turtle::object_text(parts) + gap + suffix,
        ).map_values(|child: Seq<char>| shown_name(url, child)) == names,
{
    turtle::law_one_statement_gives_the_children(prefix, parts, gap, suffix);
    let shown = turtle::iris(parts).map_values(|child: Seq<char>| shown_name(url, child));
    assert forall|i: int| 0 <= i < names.len() implies shown[i] == names[i] by {
        assert(parts[i].1 == url + names[i]);
        law_shown_name(url, names[i], names[i]);
    }
    assert(shown =~= names);
}

} // verus!
