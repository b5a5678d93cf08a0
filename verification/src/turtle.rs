//! Listing the children of an LDP container from its Turtle description.
//!
//! This is not a Turtle parser: it only looks for `ldp:contains` statements
//! and reads the IRIs that follow the predicate.
use vstd::prelude::*;
use crate::text;

verus! {

/// The containment predicate, written out as an IRI reference.
pub const CONTAINS_IRI: &'static str = "<http://www.w3.org/ns/ldp#contains>";

/// The containment predicate, written with its usual prefix.
pub const CONTAINS: &'static str = "ldp:contains";

/// What may stand between a predicate and an object, or between two objects.
pub open spec fn is_separator(c: char) -> bool {
    c == ' ' || c == '\t' || c == '\n' || c == '\r' || c == ','
}

/// The first position at or after `i` that holds no separator.
pub open spec fn skip_separators(s: Seq<char>, i: int) -> int
    decreases s.len() - i,
{
    if 0 <= i < s.len() && is_separator(s[i]) {
        skip_separators(s, i + 1)
    } else {
        i
    }
}

pub proof fn lemma_skip_separators(s: Seq<char>, i: int)
    requires
        0 <= i <= s.len(),
    ensures
        i <= skip_separators(s, i) <= s.len(),
        forall|k: int| i <= k < skip_separators(s, i) ==> is_separator(s[k]),
        skip_separators(s, i) < s.len() ==> !is_separator(s[skip_separators(s, i)]),
    decreases s.len() - i,
{
    if i < s.len() && is_separator(s[i]) {
        lemma_skip_separators(s, i + 1);
    }
}

/// Separators up to the end, or up to a position that holds none, are what is
/// skipped.
proof fn lemma_skip_is(s: Seq<char>, i: int, j: int)
    requires
        0 <= i <= j <= s.len(),
        forall|k: int| i <= k < j ==> is_separator(s[k]),
        j < s.len() ==> !is_separator(s[j]),
    ensures
        skip_separators(s, i) == j,
    decreases j - i,
{
    if i < j {
        lemma_skip_is(s, i + 1, j);
    }
}

/// The object list that starts at position `i`: the `<...>` IRIs that follow
/// one another with only separators between them, and the position of whatever
/// comes after them.
pub open spec fn object_list(s: Seq<char>, i: int) -> (Seq<Seq<char>>, int)
    decreases s.len() - i,
{
    let open = skip_separators(s, i);
    if 0 <= i && open < s.len() && s[open] == '<' {
        match text::find_char(s, open + 1, '>') {
            Some(close) => {
                proof {
                    if i <= s.len() {
                        lemma_skip_separators(s, i);
                        text::lemma_find_char(s, open + 1, '>');
                    }
                }
                let (more, end) = object_list(s, close + 1);
                (seq![s.subrange(open + 1, close)] + more, end)
            },
            None => (Seq::empty(), open),
        }
    } else {
        (Seq::empty(), open)
    }
}

pub proof fn lemma_object_list_end(s: Seq<char>, i: int)
    requires
        0 <= i <= s.len(),
    ensures
        i <= object_list(s, i).1 <= s.len(),
    decreases s.len() - i,
{
    lemma_skip_separators(s, i);
    let open = skip_separators(s, i);
    if open < s.len() && s[open] == '<' {
        text::lemma_find_char(s, open + 1, '>');
        if let Some(close) = text::find_char(s, open + 1, '>') {
            lemma_object_list_end(s, close + 1);
        }
    }
}

/// The objects of every containment statement from position `i` on.
pub open spec fn children_from(s: Seq<char>, i: int) -> Seq<Seq<char>>
    decreases s.len() - i,
{
    match text::find_from(s, i, CONTAINS@) {
        Some(p) => {
            proof {
                reveal_strlit("ldp:contains");
                if 0 <= i {
                    text::lemma_find_from(s, i, CONTAINS@);
                    lemma_object_list_end(s, p + CONTAINS@.len());
                }
            }
            let (objects, end) = object_list(s, p + CONTAINS@.len());
            objects + children_from(s, end)
        },
        None => Seq::empty(),
    }
}

/// The children listed in a Turtle document: the objects of its containment
/// statements, the full form of the predicate standing for the prefixed one.
pub open spec fn children(ttl: Seq<char>) -> Seq<Seq<char>> {
    children_from(text::replaced_from(ttl, 0, CONTAINS_IRI@, CONTAINS@), 0)
}

/// Append the object list that starts at position `start`; the position of
/// whatever comes after it is returned.
fn read_objects(s: &Vec<char>, start: usize, kids: &mut Vec<String>) -> (end: usize)
    requires
        start <= s@.len(),
    ensures
        end == object_list(s@, start as int).1,
        text::texts(final(kids)@) == text::texts(old(kids)@) + object_list(s@, start as int).0,
        start <= end <= s@.len(),
{
    let ghost before = text::texts(kids@);
    let mut i: usize = start;
    proof {
        lemma_object_list_end(s@, start as int);
    }
    loop
        invariant
            before == text::texts(old(kids)@),
            start <= i <= s@.len(),
            object_list(s@, start as int).1 == object_list(s@, i as int).1,
            start <= object_list(s@, start as int).1 <= s@.len(),
            before + object_list(s@, start as int).0 == text::texts(kids@) + object_list(
                s@,
                i as int,
            ).0,
        decreases s@.len() - i,
    {
        let ghost from = i as int;
        while i < s.len() && (s[i] == ' ' || s[i] == '\t' || s[i] == '\n' || s[i] == '\r' || s[i]
            == ',')
            invariant
                from <= i <= s@.len(),
                skip_separators(s@, from) == skip_separators(s@, i as int),
            decreases s@.len() - i,
        {
            i += 1;
        }
        if i < s.len() && s[i] == '<' {
            proof {
                text::lemma_find_char(s@, i + 1, '>');
            }
            if let Some(close) = text::find_one(s, i + 1, '>') {
                let ghost seen = kids@;
                let ghost more = object_list(s@, close + 1).0;
                kids.push(text::text_between(s, i + 1, close));
                assert(text::texts(kids@) =~= text::texts(seen).push(
                    s@.subrange(i + 1, close as int),
                ));
                assert(text::texts(seen) + (seq![s@.subrange(i + 1, close as int)] + more)
                    =~= text::texts(kids@) + more);
                i = close + 1;
                continue ;
            }
        }
        assert(object_list(s@, from) == (Seq::<Seq<char>>::empty(), i as int));
        assert(text::texts(kids@) + Seq::<Seq<char>>::empty() =~= text::texts(kids@));
        return i;
    }
}

/// Pull the child IRIs out of the `ldp:contains` statements of a Turtle
/// document, in the order in which they stand.
///
/// After the predicate come `<...>` IRIs separated only by whitespace and
/// commas; the list stops at the next `;` or `.` or other token. Dots inside an
/// IRI do not end the list.
pub fn parse_contains(ttl: &str) -> (kids: Vec<String>)
    ensures
        text::texts(kids@) == children(ttl@),
{
    let predicate = text::chars_of(CONTAINS);
    let s = text::replace(&text::chars_of(ttl), &text::chars_of(CONTAINS_IRI), &predicate);
    proof {
        reveal_strlit("ldp:contains");
        reveal_strlit("<http://www.w3.org/ns/ldp#contains>");
    }
    let n: usize = s.len();
    let mut kids: Vec<String> = Vec::new();
    let mut search: usize = 0;
    assert(text::texts(kids@) + children_from(s@, 0) =~= children_from(s@, 0));
    loop
        invariant
            n == s@.len(),
            s@ == text::replaced_from(ttl@, 0, CONTAINS_IRI@, CONTAINS@),
            predicate@ == CONTAINS@,
            predicate@.len() > 0,
            search <= s@.len(),
            children_from(s@, 0) == text::texts(kids@) + children_from(s@, search as int),
        decreases s@.len() - search,
    {
        proof {
            text::lemma_find_from(s@, search as int, CONTAINS@);
        }
        match text::find_text(&s, search, &predicate) {
            Some(found) => {
                let ghost seen = text::texts(kids@);
                let start: usize = found + predicate.len();
                search = read_objects(&s, start, &mut kids);
                let ghost objects = object_list(s@, start as int).0;
                let ghost rest = children_from(s@, search as int);
                assert(seen + (objects + rest) =~= seen + objects + rest);
            },
            None => {
                assert(text::texts(kids@) + Seq::<Seq<char>>::empty() =~= text::texts(kids@));
                return kids;
            },
        }
    }
}

/// The text holds white space and commas only.
pub open spec fn is_gap(s: Seq<char>) -> bool {
    forall|k: int|
        0 <= k < s.len() ==> #[trigger] s[k] == ' ' || s[k] == '\t' || s[k] == '\n' || s[k] == '\r'
            || s[k] == ','
}

/// IRIs written as an object list, each one behind a gap.
pub open spec fn object_text(parts: Seq<(Seq<char>, Seq<char>)>) -> Seq<char>
    decreases parts.len(),
{
    if parts.len() == 0 {
        Seq::empty()
    } else {
        parts[0].0 + seq!['<'] + parts[0].1 + seq!['>'] + object_text(parts.drop_first())
    }
}

/// The IRIs of an object list.
pub open spec fn iris(parts: Seq<(Seq<char>, Seq<char>)>) -> Seq<Seq<char>> {
    parts.map_values(|part: (Seq<char>, Seq<char>)| part.1)
}

/// The parts make up an object list: gaps, and IRIs that end where they should.
pub open spec fn are_objects(parts: Seq<(Seq<char>, Seq<char>)>) -> bool {
    forall|k: int|
        0 <= k < parts.len() ==> is_gap((#[trigger] parts[k]).0) && !parts[k].1.contains('>')
}

/// What ends an object list: the end of the text, or anything but white space, a
/// comma and another IRI.
pub open spec fn ends_objects(suffix: Seq<char>) -> bool {
    suffix.len() > 0 ==> {
        &&& suffix[0] != ' ' && suffix[0] != '\t' && suffix[0] != '\n' && suffix[0] != '\r'
        &&& suffix[0] != ','
        &&& suffix[0] == '<' ==> !suffix.contains('>')
    }
}

/// The objects that are read from a written object list are those written.
proof fn lemma_object_list_of_text(
    s: Seq<char>,
    i: int,
    parts: Seq<(Seq<char>, Seq<char>)>,
    gap: Seq<char>,
    suffix: Seq<char>,
)
    requires
        0 <= i <= s.len(),
        s.skip(i) == object_text(parts) + gap + suffix,
        are_objects(parts),
        is_gap(gap),
        ends_objects(suffix),
    ensures
        object_list(s, i) == (iris(parts), s.len() - suffix.len()),
    decreases parts.len(),
{
    let t = object_text(parts) + gap + suffix;
    assert forall|k: int| 0 <= k < t.len() implies #[trigger] t[k] == s[i + k] by {
        assert(s.skip(i)[k] == s[i + k]);
    }
    assert(s.len() == i + t.len());
    if parts.len() == 0 {
        let end = i + gap.len();
        assert forall|k: int| i <= k < end implies is_separator(s[k]) by {
            assert(t[k - i] == gap[k - i]);
        }
        assert(end < s.len() ==> s[end] == suffix[0]) by {
            if end < s.len() {
                assert(t[end - i] == suffix[0]);
            }
        }
        lemma_skip_is(s, i, end);
        if end < s.len() && s[end] == '<' {
            text::lemma_find_char(s, end + 1, '>');
            if let Some(close) = text::find_char(s, end + 1, '>') {
                assert(t[close - i] == suffix[close - end]);
            }
        }
        assert(iris(parts) =~= Seq::empty());
    } else {
        let lead = parts[0].0;
        let first = parts[0].1;
        let rest = parts.drop_first();
        let m = lead.len() as int;
        let open = i + m;
        let close = open + 1 + first.len();
        assert(is_gap(parts[0].0) && !parts[0].1.contains('>'));
        assert forall|k: int| i <= k < open implies is_separator(s[k]) by {
            assert(t[k - i] == lead[k - i]);
        }
        assert(t[m] == '<');
        lemma_skip_is(s, i, open);
        assert forall|k: int| 0 <= k < first.len() implies s[open + 1 + k] == #[trigger] first[k] by {
            assert(t[m + 1 + k] == first[k]);
        }
        assert(t[m + 1 + first.len()] == '>');
        assert forall|q: int| open + 1 <= q < close implies s[q] != '>' by {
            assert(s[open + 1 + (q - open - 1)] == first[q - open - 1]);
        }
        text::lemma_find_char_is(s, open + 1, '>', close);
        assert(s.subrange(open + 1, close) =~= first);
        let after = object_text(rest) + gap + suffix;
        assert(t =~= (lead + seq!['<'] + first + seq!['>']) + after);
        assert(s.skip(close + 1) =~= after) by {
            assert forall|k: int| 0 <= k < after.len() implies s.skip(close + 1)[k] == after[k] by {
                assert(t[m + 2 + first.len() + k] == after[k]);
            }
        }
        assert forall|k: int| 0 <= k < rest.len() implies is_gap((#[trigger] rest[k]).0)
            && !rest[k].1.contains('>') by {
            assert(rest[k] == parts[k + 1]);
        }
        lemma_object_list_of_text(s, close + 1, rest, gap, suffix);
        assert(seq![first] + iris(rest) =~= iris(parts));
    }
}

/// A containment statement lists exactly the IRIs written in it, in order:
/// whatever dots, semicolons or commas stand inside an IRI, whatever white
/// space and commas stand between two, and whatever comes behind them. Reading
/// goes on from where the list ends.
pub proof fn law_statement_lists_its_iris(
    prefix: Seq<char>,
    parts: Seq<(Seq<char>, Seq<char>)>,
    gap: Seq<char>,
    suffix: Seq<char>,
    from: int,
)
    requires
        are_objects(parts),
        is_gap(gap),
        ends_objects(suffix),
        text::find_from(
            prefix + CONTAINS@ + object_text(parts) + gap + suffix,
            from,
            CONTAINS@,
        ) == Some(prefix.len() as int),
    ensures
        ({
            let doc = prefix + CONTAINS@ + object_text(parts) + gap + suffix;
            children_from(doc, from) == iris(parts) + children_from(doc, doc.len() - suffix.len())
        }),
{
    let doc = prefix + CONTAINS@ + object_text(parts) + gap + suffix;
    let start = (prefix.len() + CONTAINS@.len()) as int;
    assert(doc.skip(start) =~= object_text(parts) + gap + suffix);
    lemma_object_list_of_text(doc, start, parts, gap, suffix);
}

/// From a position behind which the predicate does not occur, no children are
/// read.
pub proof fn law_no_predicate_no_children(s: Seq<char>, from: int)
    requires
        0 <= from,
        forall|q: int| from <= q ==> !text::occurs_at(s, q, "ldp:contains"@),
    ensures
        children_from(s, from) == Seq::<Seq<char>>::empty(),
{
    text::lemma_find_from(s, from, CONTAINS@);
}

/// A document in which the predicate occurs in neither form, such as that of an
/// empty container, has no children.
pub proof fn law_document_without_predicate_has_no_children(ttl: Seq<char>)
    requires
        forall|q: int| 0 <= q ==> !text::occurs_at(ttl, q, "ldp:contains"@),
        forall|q: int|
            0 <= q ==> !text::occurs_at(ttl, q, "<http://www.w3.org/ns/ldp#contains>"@),
    ensures
        children(ttl) == Seq::<Seq<char>>::empty(),
{
    law_prefixed_document_is_read_as_it_is(ttl);
    law_no_predicate_no_children(ttl, 0);
}

/// A document that holds the predicate in its prefixed form only is read from its
/// start, as it is.
pub proof fn law_prefixed_document_is_read_as_it_is(ttl: Seq<char>)
    requires
        forall|q: int|
            0 <= q ==> !text::occurs_at(ttl, q, "<http://www.w3.org/ns/ldp#contains>"@),
    ensures
        children(ttl) == children_from(ttl, 0),
{
    text::lemma_replaced_absent(ttl, 0, CONTAINS_IRI@, CONTAINS@);
    assert(ttl.subrange(0, ttl.len() as int) =~= ttl);
}

/// The predicate in its two forms.
pub proof fn law_predicate()
    ensures
        CONTAINS@ == "ldp:contains"@,
        CONTAINS_IRI@ == "<http://www.w3.org/ns/ldp#contains>"@,
{
}

/// A child is an IRI of the document: it stands between an opening and a closing
/// bracket, and holds no closing bracket.
pub proof fn law_children_stand_in_brackets(s: Seq<char>, from: int, k: int)
    requires
        0 <= from <= s.len(),
        0 <= k < children_from(s, from).len(),
    ensures
        ({
            let child = children_from(s, from)[k];
            &&& !child.contains('>')
            &&& exists|p: int|
                from <= p && p + child.len() + 1 < s.len() && s[p] == '<' && #[trigger] s.subrange(
                    p + 1,
                    p + 1 + child.len(),
                ) == child && s[p + 1 + child.len()] == '>'
        }),
    decreases s.len() - from,
{
    text::lemma_find_from(s, from, CONTAINS@);
    if let Some(q) = text::find_from(s, from, CONTAINS@) {
        reveal_strlit("ldp:contains");
        let start = q + CONTAINS@.len();
        lemma_object_list_end(s, start);
        let (objects, end) = object_list(s, start);
        assert(children_from(s, from) == objects + children_from(s, end));
        if k < objects.len() {
            assert(children_from(s, from)[k] == objects[k]);
            lemma_objects_stand_in_brackets(s, start, k);
            let child = objects[k];
            let p = choose|p: int|
                start <= p && p + child.len() + 1 < s.len() && s[p] == '<' && #[trigger] s.subrange(
                    p + 1,
                    p + 1 + child.len(),
                ) == child && s[p + 1 + child.len()] == '>';
            assert(from <= p);
        } else {
            law_children_stand_in_brackets(s, end, k - objects.len());
            let child = children_from(s, from)[k];
            assert(child == children_from(s, end)[k - objects.len()]);
            let p = choose|p: int|
                end <= p && p + child.len() + 1 < s.len() && s[p] == '<' && #[trigger] s.subrange(
                    p + 1,
                    p + 1 + child.len(),
                ) == child && s[p + 1 + child.len()] == '>';
            assert(from <= p);
        }
    }
}

proof fn lemma_objects_stand_in_brackets(s: Seq<char>, i: int, k: int)
    requires
        0 <= i <= s.len(),
        0 <= k < object_list(s, i).0.len(),
    ensures
        ({
            let child = object_list(s, i).0[k];
            &&& !child.contains('>')
            &&& exists|p: int|
                i <= p && p + child.len() + 1 < s.len() && s[p] == '<' && #[trigger] s.subrange(
                    p + 1,
                    p + 1 + child.len(),
                ) == child && s[p + 1 + child.len()] == '>'
        }),
    decreases s.len() - i,
{
    lemma_skip_separators(s, i);
    let open = skip_separators(s, i);
    text::lemma_find_char(s, open + 1, '>');
    if let Some(close) = text::find_char(s, open + 1, '>') {
        let child = object_list(s, i).0[k];
        if k == 0 {
            assert(s.subrange(open + 1, open + 1 + child.len()) =~= child);
        } else {
            lemma_objects_stand_in_brackets(s, close + 1, k - 1);
            assert(child == object_list(s, close + 1).0[k - 1]);
            let p = choose|p: int|
                close + 1 <= p && p + child.len() + 1 < s.len() && s[p] == '<'
                    && #[trigger] s.subrange(p + 1, p + 1 + child.len()) == child && s[p + 1
                    + child.len()] == '>';
            assert(i <= p);
        }
    }
}

/// A document with one containment statement has the children that the
/// statement lists.
pub proof fn law_one_statement_gives_the_children(
    prefix: Seq<char>,
    parts: Seq<(Seq<char>, Seq<char>)>,
    gap: Seq<char>,
    suffix: Seq<char>,
)
    requires
        are_objects(parts),
        is_gap(gap),
        ends_objects(suffix),
        ({
            let doc = prefix + CONTAINS@ + object_text(parts) + gap + suffix;
            &&& forall|q: int| 0 <= q ==> !text::occurs_at(doc, q, CONTAINS_IRI@)
            &&& text::find_from(doc, 0, CONTAINS@) == Some(prefix.len() as int)
            &&& text::find_from(doc, doc.len() - suffix.len(), CONTAINS@) is None
        }),
    ensures
        children(prefix + CONTAINS@ + object_text(parts) + gap + suffix) == iris(parts),
{
    let doc = prefix + CONTAINS@ + object_text(parts) + gap + suffix;
    text::lemma_replaced_absent(doc, 0, CONTAINS_IRI@, CONTAINS@);
    assert(doc.subrange(0, doc.len() as int) =~= doc);
    law_statement_lists_its_iris(prefix, parts, gap, suffix, 0);
    assert(iris(parts) + Seq::<Seq<char>>::empty() =~= iris(parts));
}

proof fn lemma_full_predicate_before(a: Seq<char>, b: Seq<char>, i: int)
    requires
        0 <= i <= a.len(),
    ensures
        text::replaced_from(a + CONTAINS_IRI@ + b, i, CONTAINS_IRI@, CONTAINS@)
            == text::replaced_from(a + CONTAINS@ + b, i, CONTAINS_IRI@, CONTAINS@),
    decreases a.len() - i,
{
    reveal_strlit("ldp:contains");
    reveal_strlit("<http://www.w3.org/ns/ldp#contains>");
    let pat = CONTAINS_IRI@;
    let rep = CONTAINS@;
    let full = a + pat + b;
    let short = a + rep + b;
    let n = a.len() as int;
    if i == n {
        assert(full.subrange(n, n + pat.len()) =~= pat);
        lemma_prefixed_is_kept(a, b, 0);
        text::lemma_replaced_suffix(a + pat, b, 0, pat, rep);
        text::lemma_replaced_suffix(a + rep, b, 0, pat, rep);
        assert(rep.subrange(0, rep.len() as int) =~= rep);
    } else {
        if i + pat.len() <= n {
            assert(full.subrange(i, i + pat.len()) =~= short.subrange(i, i + pat.len()));
            if text::occurs_at(full, i, pat) {
                lemma_full_predicate_before(a, b, i + pat.len());
            } else {
                lemma_full_predicate_before(a, b, i + 1);
            }
        } else {
            let k = n - i;
            assert(!text::occurs_at(full, i, pat)) by {
                if text::occurs_at(full, i, pat) {
                    assert(full.subrange(i, i + pat.len())[k] == full[n]);
                    assert(pat[k] != '<');
                }
            }
            assert(!text::occurs_at(short, i, pat)) by {
                if text::occurs_at(short, i, pat) {
                    let w = short.subrange(i, i + pat.len());
                    if k + rep.len() >= pat.len() {
                        assert(w[pat.len() - 1] == short[i + pat.len() - 1]);
                        assert(short[i + pat.len() - 1] == rep[pat.len() - 1 - k]);
                        assert(forall|j: int| 0 <= j < rep.len() ==> rep[j] != '>');
                    } else {
                        assert(w[k + 3] == short[n + 3]);
                        assert(short[n + 3] == ':');
                        assert(pat[k + 3] == ':' ==> k == 2);
                        assert(w[k] == short[n]);
                        assert(short[n] == 'l');
                    }
                }
            }
            lemma_full_predicate_before(a, b, i + 1);
        }
        assert(full[i] == short[i]);
    }
}

/// The prefixed predicate itself contains nothing to replace.
proof fn lemma_prefixed_is_kept(a: Seq<char>, b: Seq<char>, j: int)
    requires
        0 <= j <= CONTAINS@.len(),
    ensures
        text::replaced_from(a + CONTAINS@ + b, a.len() + j, CONTAINS_IRI@, CONTAINS@)
            == CONTAINS@.subrange(j, CONTAINS@.len() as int) + text::replaced_from(
            a + CONTAINS@ + b,
            (a.len() + CONTAINS@.len()) as int,
            CONTAINS_IRI@,
            CONTAINS@,
        ),
    decreases CONTAINS@.len() - j,
{
    reveal_strlit("ldp:contains");
    reveal_strlit("<http://www.w3.org/ns/ldp#contains>");
    let rep = CONTAINS@;
    let s = a + rep + b;
    let tail = text::replaced_from(s, (a.len() + rep.len()) as int, CONTAINS_IRI@, rep);
    if j < rep.len() {
        let i = a.len() + j;
        assert(s[i] == rep[j]);
        assert(!text::occurs_at(s, i, CONTAINS_IRI@)) by {
            if text::occurs_at(s, i, CONTAINS_IRI@) {
                assert(s.subrange(i, i + CONTAINS_IRI@.len())[0] == s[i]);
            }
        }
        lemma_prefixed_is_kept(a, b, j + 1);
        assert(seq![s[i]] + (rep.subrange(j + 1, rep.len() as int) + tail) =~= rep.subrange(
            j,
            rep.len() as int,
        ) + tail);
    } else {
        assert(rep.subrange(j, rep.len() as int) + tail =~= tail);
    }
}

/// The full form of the predicate means the same as the prefixed form.
pub proof fn law_full_predicate_means_the_same(a: Seq<char>, b: Seq<char>)
    ensures
        children(a + CONTAINS_IRI@ + b) == children(a + CONTAINS@ + b),
{
    lemma_full_predicate_before(a, b, 0);
}

} // verus!
