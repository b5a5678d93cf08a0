//! Character sequences: the model of text used throughout the crate, and the
//! scanning primitives that the parsers are built from.
//!
//! A `&str` or `String` is modelled by its view, the sequence of its `char`s.
//! Positions are indices into that sequence.
use vstd::prelude::*;

verus! {

/// `std`'s `String::push` appends the given character.
pub assume_specification[ String::push ](s: &mut String, c: char)
    ensures
        final(s)@ == old(s)@.push(c),
;

/// The texts of a list of strings.
pub open spec fn texts(list: Seq<String>) -> Seq<Seq<char>> {
    list.map_values(|s: String| s@)
}

/// The text of an optional string.
pub open spec fn opt_text(s: Option<String>) -> Option<Seq<char>> {
    match s {
        Some(s) => Some(s@),
        None => None,
    }
}

/// The text of an optional string slice.
pub open spec fn opt_str(s: Option<&str>) -> Option<Seq<char>> {
    match s {
        Some(s) => Some(s@),
        None => None,
    }
}

/// `pat` occurs in `s` at position `i`.
pub open spec fn occurs_at(s: Seq<char>, i: int, pat: Seq<char>) -> bool {
    0 <= i && i + pat.len() <= s.len() && s.subrange(i, i + pat.len()) == pat
}

/// The leftmost position at or after `from` where `pat` occurs.
pub open spec fn find_from(s: Seq<char>, from: int, pat: Seq<char>) -> Option<int>
    decreases s.len() - from + 1,
{
    if from < 0 || from + pat.len() > s.len() {
        None
    } else if occurs_at(s, from, pat) {
        Some(from)
    } else {
        find_from(s, from + 1, pat)
    }
}

/// The leftmost position at or after `from` that holds the character `c`.
pub open spec fn find_char(s: Seq<char>, from: int, c: char) -> Option<int>
    decreases s.len() - from,
{
    if from < 0 || from >= s.len() {
        None
    } else if s[from] == c {
        Some(from)
    } else {
        find_char(s, from + 1, c)
    }
}

/// `s` from position `i` on, with every occurrence of `pat` replaced by `rep`,
/// taking occurrences from left to right without overlap.
pub open spec fn replaced_from(s: Seq<char>, i: int, pat: Seq<char>, rep: Seq<char>) -> Seq<char>
    decreases s.len() - i,
{
    if i < 0 || i >= s.len() {
        Seq::empty()
    } else if pat.len() > 0 && occurs_at(s, i, pat) {
        rep + replaced_from(s, i + pat.len(), pat, rep)
    } else {
        seq![s[i]] + replaced_from(s, i + 1, pat, rep)
    }
}

/// `s` without its trailing `c`s.
pub open spec fn trimmed_end(s: Seq<char>, c: char) -> Seq<char>
    decreases s.len(),
{
    if s.len() > 0 && s.last() == c {
        trimmed_end(s.drop_last(), c)
    } else {
        s
    }
}

/// `s` without its leading `c`s.
pub open spec fn trimmed_start(s: Seq<char>, c: char) -> Seq<char>
    decreases s.len(),
{
    if s.len() > 0 && s[0] == c {
        trimmed_start(s.drop_first(), c)
    } else {
        s
    }
}

/// What stands after the last `c` in `s`; all of `s` if it holds none.
pub open spec fn after_last(s: Seq<char>, c: char) -> Seq<char>
    decreases s.len(),
{
    if s.len() == 0 || s.last() == c {
        Seq::empty()
    } else {
        after_last(s.drop_last(), c).push(s.last())
    }
}

/// `s` without the copies of `pat` that it starts with.
pub open spec fn stripped(s: Seq<char>, pat: Seq<char>) -> Seq<char>
    decreases s.len(),
{
    if pat.len() > 0 && occurs_at(s, 0, pat) {
        stripped(s.skip(pat.len() as int), pat)
    } else {
        s
    }
}

/// The pieces of `s` between the `c`s.
pub open spec fn pieces(s: Seq<char>, c: char) -> Seq<Seq<char>>
    decreases s.len(),
{
    match find_char(s, 0, c) {
        Some(p) => {
            proof {
                lemma_find_char(s, 0, c);
            }
            seq![s.take(p)] + pieces(s.skip(p + 1), c)
        },
        None => seq![s],
    }
}

/// Pieces with a `c` between each two.
pub open spec fn joined(parts: Seq<Seq<char>>, c: char) -> Seq<char>
    decreases parts.len(),
{
    if parts.len() == 0 {
        Seq::empty()
    } else if parts.len() == 1 {
        parts[0]
    } else {
        parts[0] + seq![c] + joined(parts.drop_first(), c)
    }
}

/// The texts of a list of character vectors.
pub open spec fn chars_texts(list: Seq<Vec<char>>) -> Seq<Seq<char>> {
    list.map_values(|v: Vec<char>| v@)
}

/// `find_from` finds the leftmost occurrence.
pub proof fn lemma_find_from(s: Seq<char>, from: int, pat: Seq<char>)
    requires
        0 <= from,
    ensures
        match find_from(s, from, pat) {
            Some(p) => from <= p && occurs_at(s, p, pat) && forall|q: int|
                from <= q < p ==> !occurs_at(s, q, pat),
            None => forall|q: int| from <= q ==> !occurs_at(s, q, pat),
        },
    decreases s.len() - from + 1,
{
    if from + pat.len() <= s.len() && !occurs_at(s, from, pat) {
        lemma_find_from(s, from + 1, pat);
    }
}

/// `find_char` finds the leftmost position that holds the character.
pub proof fn lemma_find_char(s: Seq<char>, from: int, c: char)
    requires
        0 <= from,
    ensures
        match find_char(s, from, c) {
            Some(p) => from <= p < s.len() && s[p] == c && forall|q: int|
                from <= q < p ==> s[q] != c,
            None => forall|q: int| from <= q < s.len() ==> s[q] != c,
        },
    decreases s.len() - from,
{
    if from < s.len() && s[from] != c {
        lemma_find_char(s, from + 1, c);
    }
}

/// A position that holds the character with none before it is the one found.
pub proof fn lemma_find_char_is(s: Seq<char>, from: int, c: char, p: int)
    requires
        0 <= from <= p < s.len(),
        s[p] == c,
        forall|q: int| from <= q < p ==> s[q] != c,
    ensures
        find_char(s, from, c) == Some(p),
    decreases p - from,
{
    if from < p {
        lemma_find_char_is(s, from + 1, c, p);
    }
}

/// What is found in a suffix is what is found from its start on.
pub proof fn lemma_find_char_in_suffix(s: Seq<char>, k: int, i: int, c: char)
    requires
        0 <= k <= s.len(),
        0 <= i,
    ensures
        find_char(s.skip(k), i, c) == match find_char(s, k + i, c) {
            Some(p) => Some(p - k),
            None => None,
        },
    decreases s.len() - k - i,
{
    if k + i < s.len() && s[k + i] != c {
        lemma_find_char_in_suffix(s, k, i + 1, c);
    }
}

/// Where a piece without `c` and a `c` come first, that piece is the first one.
pub proof fn lemma_first_piece(a: Seq<char>, rest: Seq<char>, c: char)
    requires
        !a.contains(c),
    ensures
        pieces(a + seq![c] + rest, c) == seq![a] + pieces(rest, c),
{
    let s = a + seq![c] + rest;
    assert forall|q: int| 0 <= q < a.len() implies s[q] != c by {
        assert(a.contains(a[q]));
    }
    assert(s[a.len() as int] == c);
    lemma_find_char_is(s, 0, c, a.len() as int);
    assert(s.take(a.len() as int) =~= a);
    assert(s.skip(a.len() as int + 1) =~= rest);
}

/// A text without `c` is one piece.
pub proof fn lemma_only_piece(a: Seq<char>, c: char)
    requires
        !a.contains(c),
    ensures
        pieces(a, c) == seq![a],
{
    lemma_find_char(a, 0, c);
}

/// Splitting gives back what was joined.
pub proof fn law_split_undoes_join(parts: Seq<Seq<char>>, c: char)
    requires
        parts.len() > 0,
        forall|i: int| 0 <= i < parts.len() ==> !(#[trigger] parts[i]).contains(c),
    ensures
        pieces(joined(parts, c), c) == parts,
    decreases parts.len(),
{
    assert(!parts[0].contains(c));
    if parts.len() == 1 {
        lemma_only_piece(parts[0], c);
        assert(seq![parts[0]] =~= parts);
    } else {
        let rest = parts.drop_first();
        assert forall|i: int| 0 <= i < rest.len() implies !(#[trigger] rest[i]).contains(c) by {
            assert(rest[i] == parts[i + 1]);
        }
        law_split_undoes_join(rest, c);
        lemma_first_piece(parts[0], joined(rest, c), c);
        assert(seq![parts[0]] + rest =~= parts);
    }
}

/// Replacing where nothing occurs changes nothing.
pub proof fn lemma_replaced_absent(s: Seq<char>, i: int, pat: Seq<char>, rep: Seq<char>)
    requires
        0 <= i <= s.len(),
        forall|q: int| i <= q ==> !occurs_at(s, q, pat),
    ensures
        replaced_from(s, i, pat, rep) == s.subrange(i, s.len() as int),
    decreases s.len() - i,
{
    if i < s.len() {
        lemma_replaced_absent(s, i + 1, pat, rep);
        assert(seq![s[i]] + s.subrange(i + 1, s.len() as int) =~= s.subrange(i, s.len() as int));
    }
}

/// What is replaced in a suffix does not depend on what stands before it.
pub proof fn lemma_replaced_suffix(
    head: Seq<char>,
    s: Seq<char>,
    i: int,
    pat: Seq<char>,
    rep: Seq<char>,
)
    requires
        0 <= i <= s.len(),
    ensures
        replaced_from(head + s, head.len() + i, pat, rep) == replaced_from(s, i, pat, rep),
    decreases s.len() - i,
{
    if i < s.len() {
        let j = head.len() + i;
        if i + pat.len() <= s.len() {
            assert((head + s).subrange(j, j + pat.len()) =~= s.subrange(i, i + pat.len()));
        }
        if pat.len() > 0 && occurs_at(s, i, pat) {
            lemma_replaced_suffix(head, s, i + pat.len(), pat, rep);
        } else {
            lemma_replaced_suffix(head, s, i + 1, pat, rep);
        }
    }
}

/// The characters of a string slice, for random access.
pub fn chars_of(s: &str) -> (v: Vec<char>)
    ensures
        v@ == s@,
{
    let mut v: Vec<char> = Vec::new();
    for c in it: s.chars()
        invariant
            it.seq() == s@,
            v@ == s@.take(it.index()),
    {
        v.push(c);
    }
    v
}

/// The text between two positions.
pub fn text_between(v: &Vec<char>, from: usize, to: usize) -> (s: String)
    requires
        from <= to <= v@.len(),
    ensures
        s@ == v@.subrange(from as int, to as int),
{
    let mut s = String::new();
    let mut i: usize = from;
    while i < to
        invariant
            from <= i <= to <= v@.len(),
            s@ == v@.subrange(from as int, i as int),
        decreases to - i,
    {
        s.push(v[i]);
        i += 1;
    }
    s
}

/// Whether `pat` occurs in `v` at position `at`.
pub fn matches_at(v: &Vec<char>, at: usize, pat: &Vec<char>) -> (r: bool)
    requires
        at <= v@.len(),
    ensures
        r == occurs_at(v@, at as int, pat@),
{
    if pat.len() > v.len() - at {
        return false;
    }
    let n: usize = v.len();
    let mut i: usize = 0;
    while i < pat.len()
        invariant
            n == v@.len(),
            i <= pat@.len(),
            at + pat@.len() <= n,
            forall|k: int| 0 <= k < i ==> v@[at + k] == pat@[k],
        decreases pat@.len() - i,
    {
        if v[at + i] != pat[i] {
            assert(v@.subrange(at as int, at + pat@.len())[i as int] != pat@[i as int]);
            return false;
        }
        i += 1;
    }
    assert(v@.subrange(at as int, at + pat@.len()) =~= pat@);
    true
}

/// Position of the leftmost occurrence of `pat` at or after `from`.
pub fn find_text(v: &Vec<char>, from: usize, pat: &Vec<char>) -> (r: Option<usize>)
    requires
        from <= v@.len(),
    ensures
        match r {
            Some(p) => find_from(v@, from as int, pat@) == Some(p as int),
            None => find_from(v@, from as int, pat@) is None,
        },
{
    let mut i: usize = from;
    while pat.len() <= v.len() - i
        invariant
            from <= i <= v@.len(),
            find_from(v@, from as int, pat@) == find_from(v@, i as int, pat@),
        decreases v@.len() - i,
    {
        if matches_at(v, i, pat) {
            return Some(i);
        }
        assert(i < v@.len()) by {
            if i == v@.len() {
                assert(v@.subrange(i as int, i as int) =~= pat@);
            }
        }
        i += 1;
    }
    None
}

/// Position of the leftmost `c` at or after `from`.
pub fn find_one(v: &Vec<char>, from: usize, c: char) -> (r: Option<usize>)
    requires
        from <= v@.len(),
    ensures
        match r {
            Some(p) => find_char(v@, from as int, c) == Some(p as int),
            None => find_char(v@, from as int, c) is None,
        },
{
    let mut i: usize = from;
    while i < v.len()
        invariant
            from <= i <= v@.len(),
            find_char(v@, from as int, c) == find_char(v@, i as int, c),
        decreases v@.len() - i,
    {
        if v[i] == c {
            return Some(i);
        }
        i += 1;
    }
    None
}

/// Every occurrence of `pat` replaced by `rep`, from left to right.
pub fn replace(v: &Vec<char>, pat: &Vec<char>, rep: &Vec<char>) -> (out: Vec<char>)
    ensures
        out@ == replaced_from(v@, 0, pat@, rep@),
{
    let mut out: Vec<char> = Vec::new();
    let mut i: usize = 0;
    while i < v.len()
        invariant
            i <= v@.len(),
            replaced_from(v@, 0, pat@, rep@) == out@ + replaced_from(v@, i as int, pat@, rep@),
        decreases v@.len() - i,
    {
        let ghost done = out@;
        if pat.len() > 0 && matches_at(v, i, pat) {
            append(&mut out, rep);
            let ghost rest = replaced_from(v@, i + pat@.len(), pat@, rep@);
            assert(done + (rep@ + rest) =~= out@ + rest);
            i += pat.len();
        } else {
            out.push(v[i]);
            let ghost rest = replaced_from(v@, i + 1, pat@, rep@);
            assert(done + (seq![v@[i as int]] + rest) =~= out@ + rest);
            i += 1;
        }
    }
    out
}

/// Append characters.
pub fn append(out: &mut Vec<char>, more: &Vec<char>)
    ensures
        final(out)@ == old(out)@ + more@,
{
    let ghost before = out@;
    let mut i: usize = 0;
    while i < more.len()
        invariant
            i <= more@.len(),
            out@ == before + more@.take(i as int),
        decreases more@.len() - i,
    {
        out.push(more[i]);
        i += 1;
    }
    assert(more@.take(i as int) =~= more@);
}

/// Whether the characters are those of `lit`.
pub fn equals(v: &Vec<char>, lit: &str) -> (r: bool)
    ensures
        r == (v@ == lit@),
{
    let w = chars_of(lit);
    if v.len() != w.len() {
        return false;
    }
    let r = matches_at(v, 0, &w);
    assert(v@.subrange(0, v@.len() as int) =~= v@);
    r
}

/// Whether two string slices hold the same text.
pub fn same(a: &str, b: &str) -> (r: bool)
    ensures
        r == (a@ == b@),
{
    equals(&chars_of(a), b)
}

/// Whether the text starts with `pat`.
pub fn starts_with(s: &str, pat: &str) -> (r: bool)
    ensures
        r == occurs_at(s@, 0, pat@),
{
    matches_at(&chars_of(s), 0, &chars_of(pat))
}

/// The text without its trailing `c`s.
pub fn trim_end(s: &str, c: char) -> (r: String)
    ensures
        r@ == trimmed_end(s@, c),
{
    let v = chars_of(s);
    let mut n: usize = v.len();
    assert(v@.take(n as int) =~= v@);
    while n > 0 && v[n - 1] == c
        invariant
            n <= v@.len(),
            trimmed_end(v@, c) == trimmed_end(v@.take(n as int), c),
        decreases n,
    {
        assert(v@.take(n as int).drop_last() =~= v@.take(n - 1));
        n -= 1;
    }
    assert(v@.subrange(0, n as int) =~= v@.take(n as int));
    text_between(&v, 0, n)
}

/// The text without its leading `c`s.
pub fn trim_start(s: &str, c: char) -> (r: String)
    ensures
        r@ == trimmed_start(s@, c),
{
    let v = chars_of(s);
    let n: usize = v.len();
    let mut i: usize = 0;
    assert(v@.skip(0) =~= v@);
    while i < n && v[i] == c
        invariant
            n == v@.len(),
            i <= n,
            trimmed_start(v@, c) == trimmed_start(v@.skip(i as int), c),
        decreases n - i,
    {
        assert(v@.skip(i as int).drop_first() =~= v@.skip(i + 1));
        i += 1;
    }
    text_between(&v, i, n)
}

/// What stands after the last `c`.
pub fn tail_after(s: &str, c: char) -> (r: Vec<char>)
    ensures
        r@ == after_last(s@, c),
{
    let v = chars_of(s);
    let n: usize = v.len();
    let mut i: usize = n;
    while i > 0 && v[i - 1] != c
        invariant
            n == v@.len(),
            i <= n,
            forall|k: int| i <= k < n ==> v@[k] != c,
        decreases i,
    {
        i -= 1;
    }
    proof {
        lemma_after_last(v@, i as int, c);
    }
    chars_between(&v, i, n)
}

proof fn lemma_after_last(s: Seq<char>, i: int, c: char)
    requires
        0 <= i <= s.len(),
        i > 0 ==> s[i - 1] == c,
        forall|k: int| i <= k < s.len() ==> s[k] != c,
    ensures
        after_last(s, c) == s.subrange(i, s.len() as int),
    decreases s.len(),
{
    if i < s.len() {
        lemma_after_last(s.drop_last(), i, c);
        assert(s.drop_last().subrange(i, s.len() - 1).push(s.last()) =~= s.subrange(
            i,
            s.len() as int,
        ));
    }
}

/// The characters between two positions.
pub fn chars_between(v: &Vec<char>, from: usize, to: usize) -> (r: Vec<char>)
    requires
        from <= to <= v@.len(),
    ensures
        r@ == v@.subrange(from as int, to as int),
{
    let mut r: Vec<char> = Vec::new();
    let mut i: usize = from;
    while i < to
        invariant
            from <= i <= to <= v@.len(),
            r@ == v@.subrange(from as int, i as int),
        decreases to - i,
    {
        r.push(v[i]);
        i += 1;
    }
    r
}

/// The pieces between the `c`s.
pub fn split(v: &Vec<char>, c: char) -> (list: Vec<Vec<char>>)
    ensures
        chars_texts(list@) == pieces(v@, c),
{
    let n: usize = v.len();
    let mut list: Vec<Vec<char>> = Vec::new();
    let mut from: usize = 0;
    assert(v@.skip(0) =~= v@);
    assert(chars_texts(list@) + pieces(v@, c) =~= pieces(v@, c));
    loop
        invariant
            n == v@.len(),
            from <= n,
            pieces(v@, c) == chars_texts(list@) + pieces(v@.skip(from as int), c),
        decreases n - from,
    {
        let ghost done = chars_texts(list@);
        let ghost here = v@.skip(from as int);
        proof {
            lemma_find_char(v@, from as int, c);
            lemma_find_char_in_suffix(v@, from as int, 0, c);
        }
        match find_one(v, from, c) {
            Some(p) => {
                let piece = chars_between(v, from, p);
                assert(piece@ =~= here.take(p - from));
                assert(here.skip(p - from + 1) =~= v@.skip(p + 1));
                list.push(piece);
                assert(chars_texts(list@) =~= done.push(piece@));
                assert(done + (seq![piece@] + pieces(v@.skip(p + 1), c)) =~= chars_texts(list@)
                    + pieces(v@.skip(p + 1), c));
                from = p + 1;
            },
            None => {
                let piece = chars_between(v, from, n);
                assert(piece@ =~= here);
                list.push(piece);
                assert(chars_texts(list@) =~= done + seq![piece@]);
                return list;
            },
        }
    }
}

/// The text without the copies of `pat` that it starts with.
pub fn strip(s: &str, pat: &str) -> (r: String)
    ensures
        r@ == stripped(s@, pat@),
{
    let v = chars_of(s);
    let p = chars_of(pat);
    let n: usize = v.len();
    let mut i: usize = 0;
    assert(v@.skip(0) =~= v@);
    if p.len() == 0 {
        return text_between(&v, 0, n);
    }
    loop
        invariant
            n == v@.len(),
            i <= n,
            p@.len() > 0,
            v@ == s@,
            p@ == pat@,
            stripped(v@, p@) == stripped(v@.skip(i as int), p@),
        decreases n - i,
    {
        let ghost here = v@.skip(i as int);
        assert(i + p@.len() <= n ==> here.subrange(0, p@.len() as int) =~= v@.subrange(
            i as int,
            i + p@.len(),
        ));
        if !matches_at(&v, i, &p) {
            return text_between(&v, i, n);
        }
        assert(here.skip(p@.len() as int) =~= v@.skip(i + p@.len()));
        i += p.len();
    }
}

/// A text occurs exactly where the rest can be cut into what stands before it
/// and what stands behind it.
pub proof fn law_occurrence(a: Seq<char>, pat: Seq<char>, b: Seq<char>, s: Seq<char>, i: int)
    ensures
        occurs_at(a + pat + b, a.len() as int, pat),
        occurs_at(s, i, pat) <==> 0 <= i && i + pat.len() <= s.len() && s == s.take(i) + pat
            + s.skip(i + pat.len()),
{
    let t = a + pat + b;
    assert(t.subrange(a.len() as int, (a.len() + pat.len()) as int) =~= pat);
    if 0 <= i && i + pat.len() <= s.len() {
        let u = s.take(i) + pat + s.skip(i + pat.len());
        if occurs_at(s, i, pat) {
            assert forall|k: int| 0 <= k < s.len() implies s[k] == u[k] by {
                if i <= k < i + pat.len() {
                    assert(s.subrange(i, i + pat.len())[k - i] == s[k]);
                }
            }
            assert(s =~= u);
        }
        if s == u {
            assert(s.subrange(i, i + pat.len()) =~= pat);
        }
    }
}

/// Trimming at the end takes off `c`s only, and all of them.
pub proof fn law_trimmed_end(s: Seq<char>, c: char)
    ensures
        ({
            let t = trimmed_end(s, c);
            &&& t.len() <= s.len()
            &&& t == s.take(t.len() as int)
            &&& forall|k: int| t.len() <= k < s.len() ==> s[k] == c
            &&& t.len() > 0 ==> t[t.len() - 1] != c
        }),
    decreases s.len(),
{
    if s.len() > 0 && s.last() == c {
        law_trimmed_end(s.drop_last(), c);
        let t = trimmed_end(s, c);
        assert(s.drop_last().take(t.len() as int) =~= s.take(t.len() as int));
        assert forall|k: int| t.len() <= k < s.len() implies s[k] == c by {
            if k < s.len() - 1 {
                assert(s.drop_last()[k] == s[k]);
            }
        }
    } else {
        assert(s.take(s.len() as int) =~= s);
    }
}

/// Trimming at the start takes off `c`s only, and all of them.
pub proof fn law_trimmed_start(s: Seq<char>, c: char)
    ensures
        ({
            let t = trimmed_start(s, c);
            &&& t.len() <= s.len()
            &&& t == s.skip(s.len() - t.len())
            &&& forall|k: int| 0 <= k < s.len() - t.len() ==> s[k] == c
            &&& t.len() > 0 ==> t[0] != c
        }),
    decreases s.len(),
{
    if s.len() > 0 && s[0] == c {
        let rest = s.drop_first();
        law_trimmed_start(rest, c);
        let t = trimmed_start(s, c);
        assert(rest.skip(rest.len() - t.len()) =~= s.skip(s.len() - t.len()));
        assert forall|k: int| 0 <= k < s.len() - t.len() implies s[k] == c by {
            if k > 0 {
                assert(rest[k - 1] == s[k]);
            }
        }
    } else {
        assert(s.skip(0) =~= s);
    }
}

/// What stands after the last `c` holds no `c`, and is preceded by one unless it
/// is the whole text.
pub proof fn law_after_last(head: Seq<char>, tail: Seq<char>, c: char)
    requires
        !tail.contains(c),
    ensures
        after_last(tail, c) == tail,
        after_last(head.push(c) + tail, c) == tail,
{
    assert forall|k: int| 0 <= k < tail.len() implies tail[k] != c by {
        assert(tail.contains(tail[k]));
    }
    lemma_after_last(tail, 0, c);
    assert(tail.subrange(0, tail.len() as int) =~= tail);
    let s = head.push(c) + tail;
    let i = head.len() as int + 1;
    assert(s[i - 1] == c);
    lemma_after_last(s, i, c);
    assert(s.subrange(i, s.len() as int) =~= tail);
}

/// Stripping takes off one copy after the other, and nothing else.
pub proof fn law_stripped(s: Seq<char>, pat: Seq<char>)
    ensures
        pat.len() > 0 ==> stripped(pat + s, pat) == stripped(s, pat),
        pat.len() == 0 ==> stripped(s, pat) == s,
        s.len() < pat.len() ==> stripped(s, pat) == s,
        s.len() >= pat.len() && s.take(pat.len() as int) != pat ==> stripped(s, pat) == s,
{
    if pat.len() > 0 {
        let t = pat + s;
        assert(t.subrange(0, pat.len() as int) =~= pat);
        assert(t.skip(pat.len() as int) =~= s);
    }
    if s.len() >= pat.len() {
        assert(s.subrange(0, pat.len() as int) =~= s.take(pat.len() as int));
    }
}

/// Joining gives back what was split, and no piece holds the mark.
pub proof fn law_join_undoes_split(s: Seq<char>, c: char)
    ensures
        pieces(s, c).len() > 0,
        joined(pieces(s, c), c) == s,
        forall|i: int| 0 <= i < pieces(s, c).len() ==> !(#[trigger] pieces(s, c)[i]).contains(c),
    decreases s.len(),
{
    lemma_find_char(s, 0, c);
    match find_char(s, 0, c) {
        Some(p) => {
            let rest = pieces(s.skip(p + 1), c);
            law_join_undoes_split(s.skip(p + 1), c);
            let all = pieces(s, c);
            assert(all.drop_first() =~= rest);
            assert(s.take(p) + seq![c] + s.skip(p + 1) =~= s);
            assert forall|i: int| 0 <= i < all.len() implies !(#[trigger] all[i]).contains(c) by {
                if i > 0 {
                    assert(all[i] == rest[i - 1]);
                }
            }
        },
        None => {},
    }
}

/// Joining puts the mark between each two pieces.
pub proof fn law_joined(first: Seq<char>, rest: Seq<Seq<char>>, c: char)
    ensures
        joined(seq![first], c) == first,
        rest.len() > 0 ==> joined(seq![first] + rest, c) == first.push(c) + joined(rest, c),
{
    let all = seq![first] + rest;
    assert(all.drop_first() =~= rest);
    assert(first + seq![c] =~= first.push(c));
}

/// Replacing puts the new text in the place of the first occurrence, and goes on
/// behind it; where the old text does not occur, nothing changes.
pub proof fn law_replaced(a: Seq<char>, b: Seq<char>, pat: Seq<char>, rep: Seq<char>)
    requires
        pat.len() > 0,
        forall|q: int| 0 <= q < a.len() ==> !occurs_at(a + pat + b, q, pat),
    ensures
        replaced_from(a + pat + b, 0, pat, rep) == a + rep + replaced_from(b, 0, pat, rep),
{
    lemma_replaced_first(a, b, pat, rep, 0);
    assert(a.skip(0) =~= a);
}

proof fn lemma_replaced_first(
    a: Seq<char>,
    b: Seq<char>,
    pat: Seq<char>,
    rep: Seq<char>,
    i: int,
)
    requires
        pat.len() > 0,
        0 <= i <= a.len(),
        forall|q: int| 0 <= q < a.len() ==> !occurs_at(a + pat + b, q, pat),
    ensures
        replaced_from(a + pat + b, i, pat, rep) == a.skip(i) + rep + replaced_from(b, 0, pat, rep),
    decreases a.len() - i,
{
    let s = a + pat + b;
    let tail = replaced_from(b, 0, pat, rep);
    if i < a.len() {
        lemma_replaced_first(a, b, pat, rep, i + 1);
        assert(seq![s[i]] + (a.skip(i + 1) + rep + tail) =~= a.skip(i) + rep + tail);
    } else {
        assert(s.subrange(i, i + pat.len()) =~= pat);
        lemma_replaced_suffix(a + pat, b, 0, pat, rep);
        assert(a.skip(i) + rep + tail =~= rep + tail);
    }
}

/// The texts of a list are those of its strings, in order.
pub proof fn law_texts(list: Seq<String>, more: Seq<Vec<char>>)
    ensures
        texts(list).len() == list.len(),
        forall|i: int| 0 <= i < list.len() ==> #[trigger] texts(list)[i] == list[i]@,
        chars_texts(more).len() == more.len(),
        forall|i: int| 0 <= i < more.len() ==> #[trigger] chars_texts(more)[i] == more[i]@,
{
}

/// The text of something optional is there exactly if the thing is.
pub proof fn law_optional_texts(a: String, b: &str)
    ensures
        opt_text(Some(a)) == Some(a@),
        opt_text(None) is None,
        opt_str(Some(b)) == Some(b@),
        opt_str(None) is None,
{
}

} // verus!
