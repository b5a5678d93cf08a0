//! The redirect that ends the browser's part of a login.
use vstd::prelude::*;
use crate::error::SolidError;
use crate::percent;
use crate::text;

verus! {

/// The query of a URL: what stands after the first question mark.
pub open spec fn query(url: Seq<char>) -> Seq<char> {
    match text::find_char(url, 0, '?') {
        Some(p) => url.skip(p + 1),
        None => Seq::empty(),
    }
}

/// The name of a query parameter: what stands before the first equals sign.
pub open spec fn param_name(kv: Seq<char>) -> Seq<char> {
    match text::find_char(kv, 0, '=') {
        Some(p) => kv.take(p),
        None => kv,
    }
}

/// The value of a query parameter, as it is written in the URL: what stands
/// after the first equals sign.
pub open spec fn param_value(kv: Seq<char>) -> Seq<char> {
    match text::find_char(kv, 0, '=') {
        Some(p) => kv.skip(p + 1),
        None => Seq::empty(),
    }
}

/// The parameters of a URL's query.
pub open spec fn params(url: Seq<char>) -> Seq<Seq<char>> {
    text::pieces(query(url), '&')
}

/// The value of a parameter: the last one given, decoded.
pub open spec fn decoded_param(params: Seq<Seq<char>>, name: Seq<char>) -> Option<Seq<char>>
    decreases params.len(),
{
    if params.len() == 0 {
        None
    } else if param_name(params.last()) == name {
        Some(percent::url_decoded(param_value(params.last())))
    } else {
        decoded_param(params.drop_last(), name)
    }
}

/// The parameter is one that a callback is read for.
pub open spec fn is_read(kv: Seq<char>) -> bool {
    param_name(kv) == "code"@ || param_name(kv) == "state"@
}

/// Every parameter that is read can be decoded.
pub open spec fn is_decodable(url: Seq<char>) -> bool {
    forall|i: int|
        #![trigger params(url)[i]]
        0 <= i < params(url).len() && is_read(params(url)[i]) ==> percent::escapes_aligned(
            param_value(params(url)[i]),
        )
}

/// What a callback says to a login attempt with this state: the authorization
/// code, if the callback answers the attempt and carries one.
pub open spec fn callback_answer(url: Seq<char>, state: Seq<char>) -> Result<
    Seq<char>,
    SolidError,
> {
    if decoded_param(params(url), "state"@) != Some(state) {
        Err(SolidError::StateMismatch)
    } else {
        match decoded_param(params(url), "code"@) {
            Some(code) => Ok(code),
            None => Err(SolidError::NoCode),
        }
    }
}

/// The parameters of a URL's query.
fn params_of(url: &str) -> (list: Vec<Vec<char>>)
    ensures
        text::chars_texts(list@) == params(url@),
{
    let v = text::chars_of(url);
    proof {
        text::lemma_find_char(v@, 0, '?');
    }
    let q: Vec<char> = match text::find_one(&v, 0, '?') {
        Some(p) => text::chars_between(&v, p + 1, v.len()),
        None => Vec::new(),
    };
    assert(q@ =~= query(url@));
    text::split(&q, '&')
}

/// The name and the value of a query parameter.
fn split_param(kv: &Vec<char>) -> (r: (Vec<char>, String))
    ensures
        r.0@ == param_name(kv@),
        r.1@ == param_value(kv@),
{
    proof {
        text::lemma_find_char(kv@, 0, '=');
    }
    let n: usize = kv.len();
    match text::find_one(kv, 0, '=') {
        Some(p) => {
            let name = text::chars_between(kv, 0, p);
            let value = text::text_between(kv, p + 1, n);
            assert(name@ =~= param_name(kv@));
            assert(value@ =~= param_value(kv@));
            (name, value)
        },
        None => {
            let name = text::chars_between(kv, 0, n);
            assert(name@ =~= kv@);
            (name, String::new())
        },
    }
}

/// Whether `callback_code` can take this URL.
pub fn can_read_callback(url: &str) -> (r: bool)
    ensures
        r == is_decodable(url@),
{
    let list = params_of(url);
    let n: usize = list.len();
    let ghost all = params(url@);
    let mut i: usize = 0;
    while i < n
        invariant
            n == list@.len(),
            i <= n,
            all == params(url@),
            text::chars_texts(list@) == all,
            forall|k: int|
                #![trigger all[k]]
                0 <= k < i && is_read(all[k]) ==> percent::escapes_aligned(param_value(all[k])),
        decreases n - i,
    {
        assert(all[i as int] == list@[i as int]@);
        let (name, value) = split_param(&list[i]);
        if (text::equals(&name, "code") || text::equals(&name, "state")) && !percent::can_urldec(
            value.as_str(),
        ) {
            return false;
        }
        i += 1;
    }
    true
}

/// The authorization code of a callback, given the state of the login attempt.
pub fn callback_code(url: &str, state: &str) -> (r: Result<String, SolidError>)
    requires
        is_decodable(url@),
    ensures
        match r {
            Ok(code) => callback_answer(url@, state@) == Ok::<Seq<char>, SolidError>(code@),
            Err(e) => callback_answer(url@, state@) == Err::<Seq<char>, SolidError>(e),
        },
{
    let list = params_of(url);
    let n: usize = list.len();
    let ghost all = params(url@);
    let mut code: Option<String> = None;
    let mut got_state: Option<String> = None;
    let mut i: usize = 0;
    while i < n
        invariant
            n == list@.len(),
            i <= n,
            is_decodable(url@),
            all == params(url@),
            text::chars_texts(list@) == all,
            text::opt_text(code) == decoded_param(all.take(i as int), "code"@),
            text::opt_text(got_state) == decoded_param(all.take(i as int), "state"@),
        decreases n - i,
    {
        assert(all[i as int] == list@[i as int]@);
        assert(all.take(i + 1).drop_last() =~= all.take(i as int));
        assert(all.take(i + 1).last() == all[i as int]);
        proof {
            lemma_read_names_differ();
        }
        let (name, value) = split_param(&list[i]);
        if text::equals(&name, "code") {
            code = Some(percent::urldec(value.as_str()));
        } else if text::equals(&name, "state") {
            got_state = Some(percent::urldec(value.as_str()));
        }
        i += 1;
    }
    assert(all.take(i as int) =~= all);
    let answers = match &got_state {
        Some(got) => text::same(got.as_str(), state),
        None => false,
    };
    if !answers {
        return Err(SolidError::StateMismatch);
    }
    match code {
        Some(code) => Ok(code),
        None => Err(SolidError::NoCode),
    }
}

proof fn lemma_read_names_differ()
    ensures
        "code"@ != "state"@,
{
    reveal_strlit("code");
    reveal_strlit("state");
    assert("code"@.len() == 4);
    assert("state"@.len() == 5);
}

/// A query parameter, with its value encoded.
pub open spec fn written_param(pair: (Seq<char>, Seq<char>)) -> Seq<char> {
    pair.0 + seq!['='] + percent::url_encoded(pair.1)
}

/// A URL with a query that carries the given parameters.
pub open spec fn with_query(path: Seq<char>, pairs: Seq<(Seq<char>, Seq<char>)>) -> Seq<char> {
    path + seq!['?'] + text::joined(
        pairs.map_values(|pair: (Seq<char>, Seq<char>)| written_param(pair)),
        '&',
    )
}

/// A name that can stand in a query as it is.
pub open spec fn is_param_name(name: Seq<char>) -> bool {
    !name.contains('=') && !name.contains('&')
}

/// The last value that goes with a name.
pub open spec fn last_value(pairs: Seq<(Seq<char>, Seq<char>)>, name: Seq<char>) -> Option<
    Seq<char>,
>
    decreases pairs.len(),
{
    if pairs.len() == 0 {
        None
    } else if pairs.last().0 == name {
        Some(pairs.last().1)
    } else {
        last_value(pairs.drop_last(), name)
    }
}

/// A name that is used once goes with the value that stands beside it.
pub proof fn lemma_last_value(pairs: Seq<(Seq<char>, Seq<char>)>, i: int)
    requires
        0 <= i < pairs.len(),
        forall|j: int| i < j < pairs.len() ==> (#[trigger] pairs[j]).0 != pairs[i].0,
    ensures
        last_value(pairs, pairs[i].0) == Some(pairs[i].1),
    decreases pairs.len(),
{
    if i < pairs.len() - 1 {
        let rest = pairs.drop_last();
        assert forall|j: int| i < j < rest.len() implies (#[trigger] rest[j]).0 != rest[i].0 by {
            assert(rest[j] == pairs[j]);
        }
        assert(pairs[pairs.len() - 1].0 != pairs[i].0);
        lemma_last_value(rest, i);
    }
}

/// A written parameter has the name and the value that it was written with.
proof fn lemma_written_param(pair: (Seq<char>, Seq<char>))
    requires
        is_param_name(pair.0),
    ensures
        param_name(written_param(pair)) == pair.0,
        param_value(written_param(pair)) == percent::url_encoded(pair.1),
        !written_param(pair).contains('&'),
{
    let kv = written_param(pair);
    let p = pair.0.len() as int;
    assert forall|q: int| 0 <= q < p implies kv[q] != '=' by {
        assert(pair.0.contains(pair.0[q]));
    }
    assert(kv[p] == '=');
    text::lemma_find_char_is(kv, 0, '=', p);
    assert(kv.take(p) =~= pair.0);
    assert(kv.skip(p + 1) =~= percent::url_encoded(pair.1));
    percent::law_encoded_is_plain(pair.1);
    assert forall|q: int| 0 <= q < kv.len() implies kv[q] != '&' by {
        if q < p {
            assert(pair.0.contains(pair.0[q]));
        } else if q > p {
            assert(kv[q] == percent::url_encoded(pair.1)[q - p - 1]);
        }
    }
}

/// What is read of written parameters is what was written.
pub proof fn lemma_decoded_param(pairs: Seq<(Seq<char>, Seq<char>)>, name: Seq<char>)
    requires
        forall|i: int| 0 <= i < pairs.len() ==> is_param_name(#[trigger] pairs[i].0),
    ensures
        decoded_param(
            pairs.map_values(|pair: (Seq<char>, Seq<char>)| written_param(pair)),
            name,
        ) == last_value(pairs, name),
    decreases pairs.len(),
{
    let written = pairs.map_values(|pair: (Seq<char>, Seq<char>)| written_param(pair));
    if pairs.len() > 0 {
        let rest = pairs.drop_last();
        lemma_decoded_param(rest, name);
        assert(written.drop_last() =~= rest.map_values(
            |pair: (Seq<char>, Seq<char>)| written_param(pair),
        ));
        assert(is_param_name(pairs[pairs.len() - 1].0));
        lemma_written_param(pairs.last());
        percent::law_url_round_trip(pairs.last().1);
    }
}

/// The query of a URL that was made with a query is that query.
pub proof fn law_params_are_those_written(path: Seq<char>, pairs: Seq<(Seq<char>, Seq<char>)>)
    requires
        !path.contains('?'),
        pairs.len() > 0,
        forall|i: int| 0 <= i < pairs.len() ==> is_param_name(#[trigger] pairs[i].0),
    ensures
        params(with_query(path, pairs)) == pairs.map_values(
            |pair: (Seq<char>, Seq<char>)| written_param(pair),
        ),
{
    let url = with_query(path, pairs);
    let written = pairs.map_values(|pair: (Seq<char>, Seq<char>)| written_param(pair));
    let p = path.len() as int;
    assert forall|q: int| 0 <= q < p implies url[q] != '?' by {
        assert(path.contains(path[q]));
    }
    assert(url[p] == '?');
    text::lemma_find_char_is(url, 0, '?', p);
    assert(query(url) =~= text::joined(written, '&'));
    assert forall|i: int| 0 <= i < written.len() implies !(#[trigger] written[i]).contains('&') by {
        assert(is_param_name(pairs[i].0));
        lemma_written_param(pairs[i]);
    }
    text::law_split_undoes_join(written, '&');
}

/// A callback is read as it was written: whatever values its parameters carry,
/// it can be read, it is refused as a mismatch exactly if its last state is not
/// that of the attempt, and its last code is the one that comes out.
pub proof fn law_callback_reads_back(
    path: Seq<char>,
    pairs: Seq<(Seq<char>, Seq<char>)>,
    state: Seq<char>,
)
    requires
        !path.contains('?'),
        pairs.len() > 0,
        forall|i: int| 0 <= i < pairs.len() ==> is_param_name(#[trigger] pairs[i].0),
    ensures
        is_decodable(with_query(path, pairs)),
        callback_answer(with_query(path, pairs), state) == if last_value(pairs, "state"@) != Some(
            state,
        ) {
            Err::<Seq<char>, SolidError>(SolidError::StateMismatch)
        } else {
            match last_value(pairs, "code"@) {
                Some(code) => Ok(code),
                None => Err(SolidError::NoCode),
            }
        },
{
    let url = with_query(path, pairs);
    law_params_are_those_written(path, pairs);
    lemma_decoded_param(pairs, "state"@);
    lemma_decoded_param(pairs, "code"@);
    assert forall|i: int|
        #![trigger params(url)[i]]
        0 <= i < params(url).len() && is_read(params(url)[i]) implies percent::escapes_aligned(
        param_value(params(url)[i]),
    ) by {
        assert(is_param_name(pairs[i].0));
        lemma_written_param(pairs[i]);
        percent::law_url_round_trip(pairs[i].1);
    }
}

/// A callback that carries a code is refused unless it carries the state of the
/// attempt too.
pub proof fn law_code_needs_state(url: Seq<char>, state: Seq<char>)
    ensures
        callback_answer(url, state) is Ok ==> decoded_param(params(url), "state"@) == Some(state),
        decoded_param(params(url), "state"@) is None ==> callback_answer(url, state) == Err::<
            Seq<char>,
            SolidError,
        >(SolidError::StateMismatch),
{
}

/// The query is what stands behind the first question mark; a URL without one has
/// an empty query.
pub proof fn law_query(path: Seq<char>, rest: Seq<char>)
    requires
        !path.contains('?'),
    ensures
        query(path.push('?') + rest) == rest,
        query(path) == Seq::<char>::empty(),
{
    let url = path.push('?') + rest;
    let p = path.len() as int;
    assert forall|q: int| 0 <= q < p implies path[q] != '?' by {
        assert(path.contains(path[q]));
    }
    assert(url[p] == '?');
    text::lemma_find_char_is(url, 0, '?', p);
    assert(url.skip(p + 1) =~= rest);
    text::lemma_find_char(path, 0, '?');
}

/// The parameters are what stands between the ampersands of the query.
pub proof fn law_params(url: Seq<char>)
    ensures
        text::joined(params(url), '&') == query(url),
        forall|i: int| 0 <= i < params(url).len() ==> !(#[trigger] params(url)[i]).contains('&'),
{
    text::law_join_undoes_split(query(url), '&');
}

/// A parameter's name stands before its first equals sign, and its value behind
/// it; without one it is all name.
pub proof fn law_param(name: Seq<char>, value: Seq<char>)
    requires
        !name.contains('='),
    ensures
        param_name(name.push('=') + value) == name,
        param_value(name.push('=') + value) == value,
        param_name(name) == name,
        param_value(name) == Seq::<char>::empty(),
{
    let kv = name.push('=') + value;
    let p = name.len() as int;
    assert forall|q: int| 0 <= q < p implies name[q] != '=' by {
        assert(name.contains(name[q]));
    }
    assert(kv[p] == '=');
    text::lemma_find_char_is(kv, 0, '=', p);
    assert(kv.take(p) =~= name);
    assert(kv.skip(p + 1) =~= value);
    text::lemma_find_char(name, 0, '=');
}

/// Of several parameters with one name the last one counts, and its value is
/// decoded; one with another name changes nothing.
pub proof fn law_last_parameter_counts(
    list: Seq<Seq<char>>,
    name: Seq<char>,
    value: Seq<char>,
    asked: Seq<char>,
)
    requires
        !name.contains('='),
    ensures
        decoded_param(Seq::empty(), asked) is None,
        decoded_param(list.push(name.push('=') + value), name) == Some(percent::url_decoded(value)),
        decoded_param(list.push(name), name) == Some(percent::url_decoded(Seq::empty())),
        asked != name ==> decoded_param(list.push(name.push('=') + value), asked) == decoded_param(
            list,
            asked,
        ),
        asked != name ==> decoded_param(list.push(name), asked) == decoded_param(list, asked),
{
    law_param(name, value);
    let kv = name.push('=') + value;
    assert(list.push(kv).drop_last() =~= list);
    assert(list.push(name).drop_last() =~= list);
}

/// What comes out of a callback: a code only if the state is that of the attempt
/// and there is a code, and else the reason, the state first.
pub proof fn law_callback_answer(url: Seq<char>, state: Seq<char>, code: Seq<char>)
    ensures
        callback_answer(url, state) == Ok::<Seq<char>, SolidError>(code) <==> decoded_param(
            params(url),
            "state"@,
        ) == Some(state) && decoded_param(params(url), "code"@) == Some(code),
        callback_answer(url, state) == Err::<Seq<char>, SolidError>(SolidError::StateMismatch)
            <==> decoded_param(params(url), "state"@) != Some(state),
        callback_answer(url, state) == Err::<Seq<char>, SolidError>(SolidError::NoCode)
            <==> decoded_param(params(url), "state"@) == Some(state) && decoded_param(
            params(url),
            "code"@,
        ) is None,
{
}

/// A callback cannot be read exactly if one of its `code` and `state` parameters
/// cannot be decoded.
pub proof fn law_unreadable_callback(url: Seq<char>)
    ensures
        !is_decodable(url) <==> exists|i: int|
            0 <= i < params(url).len() && (param_name(#[trigger] params(url)[i]) == "code"@
                || param_name(params(url)[i]) == "state"@) && !percent::escapes_aligned(
                param_value(params(url)[i]),
            ),
{
}

} // verus!
