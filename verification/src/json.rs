//! JSON objects, written compactly, and the string members of JSON that is read.
//!
//! Objects are `serde_json` maps. A map is modelled by its entries in the order
//! in which they are written: each key with the compact JSON text of its value,
//! sorted by key.
use vstd::prelude::*;
use vstd::utf8;
use crate::text;

verus! {

/// A JSON object under construction.
#[verifier::external_type_specification]
#[verifier::external_body]
#[verifier::reject_recursive_types(K)]
#[verifier::reject_recursive_types(V)]
pub struct ExMap<K, V>(serde_json::Map<K, V>);

/// A JSON value.
#[verifier::external_type_specification]
#[verifier::external_body]
pub struct ExValue(serde_json::Value);

/// Why a value could not be written, or bytes could not be read.
#[verifier::external_type_specification]
#[verifier::external_body]
pub struct ExJsonError(serde_json::Error);

/// The string members of a value that was read: each name with its text. A
/// value that is no object has none.
pub uninterp spec fn string_members(value: serde_json::Value) -> Map<Seq<char>, Seq<char>>;

/// The string members of the JSON value that bytes spell, as read by
/// `serde_json`; none if they spell no JSON value.
pub uninterp spec fn parsed_strings(bytes: Seq<u8>) -> Option<Map<Seq<char>, Seq<char>>>;

/// What an error of `serde_json` is shown as.
pub uninterp spec fn json_error_text(e: serde_json::Error) -> Seq<char>;

/// What `serde_json` says of bytes that spell no JSON value.
pub uninterp spec fn json_refusal(bytes: Seq<u8>) -> Seq<char>;

/// The entries of a map: each key with the compact JSON text of its value, in
/// ascending order of keys.
pub uninterp spec fn json_entries(
    object: serde_json::Map<String, serde_json::Value>,
) -> Seq<(Seq<char>, Seq<char>)>;

/// `a` comes before `b`, character by character.
pub open spec fn before(a: Seq<char>, b: Seq<char>) -> bool
    decreases a.len(),
{
    if b.len() == 0 {
        false
    } else if a.len() == 0 {
        true
    } else if a[0] == b[0] {
        before(a.drop_first(), b.drop_first())
    } else {
        (a[0] as int) < b[0] as int
    }
}

/// Sorted entries with one more: a key that is there gets the new value, a new
/// key goes to its place.
pub open spec fn with_entry(
    entries: Seq<(Seq<char>, Seq<char>)>,
    key: Seq<char>,
    value: Seq<char>,
) -> Seq<(Seq<char>, Seq<char>)>
    decreases entries.len(),
{
    if entries.len() == 0 {
        seq![(key, value)]
    } else if entries[0].0 == key {
        seq![(key, value)] + entries.drop_first()
    } else if before(key, entries[0].0) {
        seq![(key, value)] + entries
    } else {
        seq![entries[0]] + with_entry(entries.drop_first(), key, value)
    }
}

/// A lower-case hexadecimal digit.
pub open spec fn hex_lower(d: int) -> char {
    if d < 10 {
        (0x30 + d) as char
    } else {
        (0x57 + d) as char
    }
}

/// One character inside a JSON string.
pub open spec fn escaped_char(c: char) -> Seq<char> {
    if c == '"' {
        seq!['\\', '"']
    } else if c == '\\' {
        seq!['\\', '\\']
    } else if c as int == 0x08 {
        seq!['\\', 'b']
    } else if c as int == 0x09 {
        seq!['\\', 't']
    } else if c as int == 0x0a {
        seq!['\\', 'n']
    } else if c as int == 0x0c {
        seq!['\\', 'f']
    } else if c as int == 0x0d {
        seq!['\\', 'r']
    } else if (c as int) < 0x20 {
        seq!['\\', 'u', '0', '0', hex_lower(c as int / 16), hex_lower(c as int % 16)]
    } else {
        seq![c]
    }
}

/// The characters of a JSON string.
pub open spec fn escaped(s: Seq<char>) -> Seq<char>
    decreases s.len(),
{
    if s.len() == 0 {
        Seq::empty()
    } else {
        escaped_char(s[0]) + escaped(s.drop_first())
    }
}

/// A text as a JSON string.
pub open spec fn quoted(s: Seq<char>) -> Seq<char> {
    seq!['"'] + escaped(s) + seq!['"']
}

/// A number as a JSON number: its decimal digits.
pub open spec fn decimal(n: nat) -> Seq<char>
    decreases n,
{
    if n < 10 {
        seq![(0x30 + n) as char]
    } else {
        decimal(n / 10).push((0x30 + n % 10) as char)
    }
}

/// The members of a JSON object.
pub open spec fn members(entries: Seq<(Seq<char>, Seq<char>)>) -> Seq<char>
    decreases entries.len(),
{
    if entries.len() == 0 {
        Seq::empty()
    } else if entries.len() == 1 {
        quoted(entries[0].0) + seq![':'] + entries[0].1
    } else {
        quoted(entries[0].0) + seq![':'] + entries[0].1 + seq![','] + members(entries.drop_first())
    }
}

/// A JSON object, written compactly.
pub open spec fn object_text(entries: Seq<(Seq<char>, Seq<char>)>) -> Seq<char> {
    seq!['{'] + members(entries) + seq!['}']
}

/// A list of texts as a JSON array of strings.
pub open spec fn list_text(items: Seq<Seq<char>>) -> Seq<char> {
    seq!['['] + text::joined(items.map_values(|s: Seq<char>| quoted(s)), ',') + seq![']']
}

/// `serde_json`'s `Map::new`: an object without entries.
#[verifier::external_body]
pub(crate) fn object() -> (o: serde_json::Map<String, serde_json::Value>)
    ensures
        json_entries(o) == Seq::<(Seq<char>, Seq<char>)>::empty(),
{
    serde_json::Map::new()
}

/// `serde_json`'s `Map::insert` of a string: the entry gets the quoted text.
#[verifier::external_body]
pub(crate) fn put_str(
    o: &mut serde_json::Map<String, serde_json::Value>,
    key: &str,
    value: &str,
)
    ensures
        json_entries(*final(o)) == with_entry(json_entries(*old(o)), key@, quoted(value@)),
{
    o.insert(key.to_string(), serde_json::Value::String(value.to_string()));
}

/// `serde_json`'s `Map::insert` of an unsigned number: the entry gets its
/// decimal digits.
#[verifier::external_body]
pub(crate) fn put_u64(o: &mut serde_json::Map<String, serde_json::Value>, key: &str, value: u64)
    ensures
        json_entries(*final(o)) == with_entry(json_entries(*old(o)), key@, decimal(value as nat)),
{
    o.insert(key.to_string(), serde_json::Value::from(value));
}

/// `serde_json`'s `Map::insert` of an object: the entry gets the object's text.
#[verifier::external_body]
pub(crate) fn put_object(
    o: &mut serde_json::Map<String, serde_json::Value>,
    key: &str,
    value: serde_json::Map<String, serde_json::Value>,
)
    ensures
        json_entries(*final(o)) == with_entry(
            json_entries(*old(o)),
            key@,
            object_text(json_entries(value)),
        ),
{
    o.insert(key.to_string(), serde_json::Value::Object(value));
}

/// `serde_json`'s `Map::insert` of a list of strings: the entry gets an array of
/// the quoted texts.
#[verifier::external_body]
pub(crate) fn put_list(
    o: &mut serde_json::Map<String, serde_json::Value>,
    key: &str,
    values: Vec<String>,
)
    ensures
        json_entries(*final(o)) == with_entry(
            json_entries(*old(o)),
            key@,
            list_text(text::texts(values@)),
        ),
{
    o.insert(key.to_string(), serde_json::Value::from(values));
}

/// `serde_json`'s `from_slice`: what it makes of the bytes, and what it says of
/// those that it refuses, depends on them alone. The value is known by its
/// string members.
#[verifier::external_body]
pub(crate) fn parse(bytes: &[u8]) -> (r: Result<serde_json::Value, serde_json::Error>)
    ensures
        match r {
            Ok(value) => parsed_strings(bytes@) == Some(string_members(value)),
            Err(e) => parsed_strings(bytes@) is None && json_error_text(e) == json_refusal(bytes@),
        },
{
    serde_json::from_slice(bytes)
}

/// The `Display` form of `serde_json`'s error, which depends on the error alone.
#[verifier::external_body]
pub(crate) fn error_text(e: &serde_json::Error) -> (s: String)
    ensures
        s@ == json_error_text(*e),
{
    e.to_string()
}

/// Indexing a `serde_json` value by a name, and `Value::as_str` of what is
/// there: the text of the string member of that name, if there is one.
#[verifier::external_body]
pub(crate) fn string_member(value: &serde_json::Value, name: &str) -> (r: Option<String>)
    ensures
        text::opt_text(r) == string_members(*value).get(name@),
{
    value[name].as_str().map(str::to_string)
}

/// `serde_json`'s `to_vec` of an object: its compact text in UTF-8. An object
/// with string keys can always be written to memory.
#[verifier::external_body]
pub(crate) fn object_bytes(o: &serde_json::Map<String, serde_json::Value>) -> (r: Result<
    Vec<u8>,
    serde_json::Error,
>)
    ensures
        r is Ok,
        r->Ok_0@ == utf8::encode_utf8(object_text(json_entries(*o))),
{
    serde_json::to_vec(o)
}

/// A new key goes behind the keys that it does not come before.
pub proof fn lemma_new_entry(
    entries: Seq<(Seq<char>, Seq<char>)>,
    at: int,
    key: Seq<char>,
    value: Seq<char>,
)
    requires
        0 <= at <= entries.len(),
        forall|i: int|
            0 <= i < at ==> (#[trigger] entries[i]).0 != key && !before(key, entries[i].0),
        at < entries.len() ==> entries[at].0 != key && before(key, entries[at].0),
    ensures
        with_entry(entries, key, value) == entries.insert(at, (key, value)),
    decreases at,
{
    let added = entries.insert(at, (key, value));
    if at == 0 {
        if entries.len() == 0 {
            assert(added =~= seq![(key, value)]);
        } else {
            assert(added =~= seq![(key, value)] + entries);
        }
    } else {
        let rest = entries.drop_first();
        assert(entries[0].0 != key && !before(key, entries[0].0));
        assert forall|i: int| 0 <= i < at - 1 implies (#[trigger] rest[i]).0 != key && !before(
            key,
            rest[i].0,
        ) by {
            assert(rest[i] == entries[i + 1]);
        }
        lemma_new_entry(rest, at - 1, key, value);
        assert(added =~= seq![entries[0]] + rest.insert(at - 1, (key, value)));
    }
}

/// The members of an object, the first one set apart.
pub proof fn lemma_members(entries: Seq<(Seq<char>, Seq<char>)>, rest: Seq<char>)
    requires
        entries.len() > 0,
    ensures
        members(entries) + rest == quoted(entries[0].0) + (seq![':'] + (entries[0].1
            + if entries.len() == 1 {
            rest
        } else {
            seq![','] + (members(entries.drop_first()) + rest)
        })),
{
    let q = quoted(entries[0].0);
    let v = entries[0].1;
    if entries.len() == 1 {
        assert(q + seq![':'] + v + rest =~= q + (seq![':'] + (v + rest)));
    } else {
        let more = members(entries.drop_first());
        assert(q + seq![':'] + v + seq![','] + more + rest =~= q + (seq![':'] + (v + (seq![','] + (
        more + rest)))));
    }
}

proof fn lemma_escaped_char(a: char, b: char, u: Seq<char>, v: Seq<char>)
    requires
        escaped_char(a) + u == escaped_char(b) + v,
    ensures
        a == b,
        u == v,
{
    let ea = escaped_char(a);
    let eb = escaped_char(b);
    let s = ea + u;
    let t = eb + v;
    assert(s[0] == ea[0] && t[0] == eb[0]);
    if ea.len() > 1 {
        assert(s[1] == ea[1]);
    }
    if eb.len() > 1 {
        assert(t[1] == eb[1]);
    }
    if ea.len() == 6 && eb.len() == 6 {
        assert(s[4] == ea[4] && s[5] == ea[5]);
        assert(t[4] == eb[4] && t[5] == eb[5]);
    }
    assert(a == b);
    assert(s.skip(ea.len() as int) =~= u);
    assert(t.skip(ea.len() as int) =~= v);
}

/// A JSON string ends where its closing quote stands, and says what it was
/// written from: texts that start with equal strings go on equally.
pub proof fn law_quoted_is_unambiguous(a: Seq<char>, b: Seq<char>, u: Seq<char>, v: Seq<char>)
    requires
        quoted(a) + u == quoted(b) + v,
    ensures
        a == b,
        u == v,
{
    let s = quoted(a) + u;
    let t = quoted(b) + v;
    assert(s.skip(1) =~= escaped(a) + (seq!['"'] + u));
    assert(t.skip(1) =~= escaped(b) + (seq!['"'] + v));
    lemma_escaped(a, b, u, v);
}

proof fn lemma_escaped(a: Seq<char>, b: Seq<char>, u: Seq<char>, v: Seq<char>)
    requires
        escaped(a) + (seq!['"'] + u) == escaped(b) + (seq!['"'] + v),
    ensures
        a == b,
        u == v,
    decreases a.len(),
{
    let s = escaped(a) + (seq!['"'] + u);
    let t = escaped(b) + (seq!['"'] + v);
    if a.len() == 0 || b.len() == 0 {
        if a.len() > 0 {
            assert(s[0] == escaped_char(a[0])[0]);
            assert(t[0] == '"');
        } else if b.len() > 0 {
            assert(t[0] == escaped_char(b[0])[0]);
            assert(s[0] == '"');
        } else {
            assert(a =~= b);
            assert(s.skip(1) =~= u);
            assert(t.skip(1) =~= v);
        }
    } else {
        let x = escaped(a.drop_first()) + (seq!['"'] + u);
        let y = escaped(b.drop_first()) + (seq!['"'] + v);
        assert(s =~= escaped_char(a[0]) + x);
        assert(t =~= escaped_char(b[0]) + y);
        lemma_escaped_char(a[0], b[0], x, y);
        lemma_escaped(a.drop_first(), b.drop_first(), u, v);
        assert(a =~= seq![a[0]] + a.drop_first());
        assert(b =~= seq![b[0]] + b.drop_first());
    }
}

proof fn lemma_decimal_digits(n: nat)
    ensures
        decimal(n).len() > 0,
        forall|i: int| 0 <= i < decimal(n).len() ==> '0' <= #[trigger] decimal(n)[i] <= '9',
    decreases n,
{
    if n >= 10 {
        lemma_decimal_digits(n / 10);
    }
}

proof fn lemma_decimal_injective(m: nat, n: nat)
    requires
        decimal(m) == decimal(n),
    ensures
        m == n,
    decreases m,
{
    lemma_decimal_digits(m / 10);
    lemma_decimal_digits(n / 10);
    let s = decimal(m);
    let t = decimal(n);
    assert(s.last() == (0x30 + m % 10) as char);
    assert(t.last() == (0x30 + n % 10) as char);
    assert(m % 10 == n % 10);
    assert(m < 10 <==> s.len() == 1);
    assert(n < 10 <==> t.len() == 1);
    if m >= 10 && n >= 10 {
        assert(s.drop_last() =~= decimal(m / 10));
        assert(t.drop_last() =~= decimal(n / 10));
        lemma_decimal_injective(m / 10, n / 10);
    }
}

/// A number with something behind it that is no digit says which number it is.
pub proof fn law_decimal_is_unambiguous(m: nat, n: nat, c: char, u: Seq<char>, v: Seq<char>)
    requires
        c < '0' || c > '9',
        decimal(m) + (seq![c] + u) == decimal(n) + (seq![c] + v),
    ensures
        m == n,
        u == v,
{
    let s = decimal(m) + (seq![c] + u);
    let t = decimal(n) + (seq![c] + v);
    lemma_decimal_digits(m);
    lemma_decimal_digits(n);
    let i = decimal(m).len() as int;
    let j = decimal(n).len() as int;
    assert(s[i] == c && t[j] == c);
    if i < j {
        assert(t[i] == decimal(n)[i]);
    } else if j < i {
        assert(s[j] == decimal(m)[j]);
    }
    assert(s.take(i) =~= decimal(m));
    assert(t.take(i) =~= decimal(n));
    lemma_decimal_injective(m, n);
    assert(s.skip(i + 1) =~= u);
    assert(t.skip(i + 1) =~= v);
}

proof fn lemma_escaped_split(a: Seq<char>, b: Seq<char>)
    ensures
        escaped(a + b) == escaped(a) + escaped(b),
    decreases a.len(),
{
    let both = a + b;
    if a.len() == 0 {
        assert(both =~= b);
        assert(escaped(a) + escaped(b) =~= escaped(b));
    } else {
        lemma_escaped_split(a.drop_first(), b);
        assert(both.drop_first() =~= a.drop_first() + b);
        let head = escaped_char(a[0]);
        let mid = escaped(a.drop_first());
        assert(head + (mid + escaped(b)) =~= head + mid + escaped(b));
    }
}

/// A text in which nothing has to be escaped is written between quotes as it is:
/// one without quotes, backslashes and control characters.
pub proof fn law_plain_text_is_quoted_as_it_is(s: Seq<char>)
    requires
        forall|i: int|
            0 <= i < s.len() ==> #[trigger] s[i] != '"' && s[i] != '\\' && s[i] as int >= 0x20,
    ensures
        quoted(s) == seq!['"'] + s + seq!['"'],
{
    lemma_plain_is_kept(s);
}

proof fn lemma_plain_is_kept(s: Seq<char>)
    requires
        forall|i: int|
            0 <= i < s.len() ==> #[trigger] s[i] != '"' && s[i] != '\\' && s[i] as int >= 0x20,
    ensures
        escaped(s) == s,
    decreases s.len(),
{
    if s.len() > 0 {
        let rest = s.drop_first();
        assert forall|i: int| 0 <= i < rest.len() implies #[trigger] rest[i] != '"' && rest[i]
            != '\\' && rest[i] as int >= 0x20 by {
            assert(rest[i] == s[i + 1]);
        }
        lemma_plain_is_kept(rest);
        assert(s[0] != '"' && s[0] != '\\' && s[0] as int >= 0x20);
        assert(seq![s[0]] + rest =~= s);
    } else {
        assert(s =~= Seq::empty());
    }
}

/// Quotes and backslashes inside a string get a backslash in front.
pub proof fn law_quotes_are_escaped(a: Seq<char>, b: Seq<char>)
    ensures
        escaped(a + b) == escaped(a) + escaped(b),
        escaped(seq!['"']) == seq!['\\', '"'],
        escaped(seq!['\\']) == seq!['\\', '\\'],
        quoted(a) == seq!['"'] + escaped(a) + seq!['"'],
{
    lemma_escaped_split(a, b);
    lemma_escaped_one('"');
    lemma_escaped_one('\\');
}

proof fn lemma_escaped_one(c: char)
    ensures
        escaped(seq![c]) == escaped_char(c),
{
    let one = seq![c];
    assert(escaped(one.drop_first()) =~= Seq::empty());
    assert(escaped(one) =~= escaped_char(c));
}

/// The number that decimal digits spell.
pub open spec fn digits_value(digits: Seq<char>) -> int
    decreases digits.len(),
{
    if digits.len() == 0 {
        0
    } else {
        10 * digits_value(digits.drop_last()) + (digits.last() as int - '0' as int)
    }
}

/// The digits of a number spell it, without a zero in front.
pub proof fn law_decimal_spells_the_number(n: nat)
    ensures
        digits_value(decimal(n)) == n,
        forall|i: int| 0 <= i < decimal(n).len() ==> '0' <= #[trigger] decimal(n)[i] <= '9',
        decimal(n).len() > 0,
        n > 0 ==> decimal(n)[0] != '0',
    decreases n,
{
    lemma_decimal_digits(n);
    let s = decimal(n);
    if n < 10 {
        assert(digits_value(s.drop_last()) == 0);
    } else {
        law_decimal_spells_the_number(n / 10);
        assert(s.drop_last() =~= decimal(n / 10));
        lemma_decimal_digits(n / 10);
        assert(s[0] == decimal(n / 10)[0]);
    }
}

} // verus!
