//! Questions on the terminal.
use vstd::prelude::*;
use crate::text;

verus! {

/// The characters with the Unicode property `White_Space`.
pub open spec fn is_white_space(c: char) -> bool {
    ||| '\u{9}' <= c <= '\u{d}'
    ||| c == ' ' || c == '\u{85}' || c == '\u{a0}' || c == '\u{1680}'
    ||| '\u{2000}' <= c <= '\u{200a}'
    ||| c == '\u{2028}' || c == '\u{2029}' || c == '\u{202f}' || c == '\u{205f}' || c == '\u{3000}'
}

/// `std`'s `char::is_whitespace` tells whether a character has the Unicode
/// property `White_Space`.
pub assume_specification[ char::is_whitespace ](c: char) -> (r: bool)
    ensures
        r == is_white_space(c),
;

/// `s` without the white space that it ends in.
pub open spec fn without_trailing_space(s: Seq<char>) -> Seq<char>
    decreases s.len(),
{
    if s.len() > 0 && is_white_space(s.last()) {
        without_trailing_space(s.drop_last())
    } else {
        s
    }
}

/// `s` without the white space that it starts with.
pub open spec fn without_leading_space(s: Seq<char>) -> Seq<char>
    decreases s.len(),
{
    if s.len() > 0 && is_white_space(s[0]) {
        without_leading_space(s.drop_first())
    } else {
        s
    }
}

/// `s` without the white space around it.
pub open spec fn trimmed(s: Seq<char>) -> Seq<char> {
    without_leading_space(without_trailing_space(s))
}

/// The line holds nothing but white space.
pub open spec fn is_blank(line: Seq<char>) -> bool {
    forall|i: int| 0 <= i < line.len() ==> is_white_space(#[trigger] line[i])
}

/// What is asked: a label, and the answer that an empty line stands for.
pub fn question(label: &str, default: &str) -> (q: String)
    ensures
        q@ == label@ + " ["@ + default@ + "]: "@,
{
    label.to_owned().concat(" [").concat(default).concat("]: ")
}

/// What a line answers: its text without the white space around it, or the
/// default if that is nothing.
pub fn answer(line: &str, default: &str) -> (a: String)
    ensures
        a@ == if trimmed(line@).len() == 0 {
            default@
        } else {
            trimmed(line@)
        },
        is_blank(line@) ==> a@ == default@,
{
    let v = text::chars_of(line);
    let mut n: usize = v.len();
    assert(v@.take(n as int) =~= v@);
    while n > 0 && v[n - 1].is_whitespace()
        invariant
            n <= v@.len(),
            without_trailing_space(v@) == without_trailing_space(v@.take(n as int)),
        ensures
            n <= v@.len(),
            without_trailing_space(v@) == v@.take(n as int),
            is_blank(v@) ==> n == 0,
        decreases n,
    {
        assert(v@.take(n as int).drop_last() =~= v@.take(n - 1));
        n -= 1;
    }
    let ghost w = v@.take(n as int);
    let mut i: usize = 0;
    assert(w.skip(0) =~= w);
    while i < n && v[i].is_whitespace()
        invariant
            i <= n <= v@.len(),
            w == v@.take(n as int),
            without_leading_space(w) == without_leading_space(w.skip(i as int)),
        decreases n - i,
    {
        assert(w.skip(i as int).drop_first() =~= w.skip(i + 1));
        i += 1;
    }
    assert(v@.subrange(i as int, n as int) =~= w.skip(i as int));
    if i == n {
        default.to_owned()
    } else {
        text::text_between(&v, i, n)
    }
}

/// Trimming takes off white space at both ends, all of it, and nothing else.
pub proof fn law_trimmed(lead: Seq<char>, s: Seq<char>, trail: Seq<char>)
    requires
        is_blank(lead),
        is_blank(trail),
        s.len() > 0 ==> !is_white_space(s[0]) && !is_white_space(s[s.len() - 1]),
    ensures
        trimmed(lead + s + trail) == s,
{
    let all = lead + s + trail;
    if s.len() == 0 {
        assert(is_blank(all)) by {
            assert forall|i: int| 0 <= i < all.len() implies is_white_space(#[trigger] all[i]) by {
                if i < lead.len() {
                    assert(all[i] == lead[i]);
                } else {
                    assert(all[i] == trail[i - lead.len()]);
                }
            }
        }
        lemma_trail(Seq::empty(), all);
        assert(Seq::<char>::empty() + all =~= all);
        assert(trimmed(all) =~= s);
    } else {
        let front = lead + s;
        assert(front[front.len() - 1] == s[s.len() - 1]);
        lemma_trail(front, trail);
        lemma_lead(lead, s);
    }
}

proof fn lemma_trail(front: Seq<char>, trail: Seq<char>)
    requires
        is_blank(trail),
        front.len() > 0 ==> !is_white_space(front[front.len() - 1]),
    ensures
        without_trailing_space(front + trail) == front,
    decreases trail.len(),
{
    let all = front + trail;
    if trail.len() == 0 {
        assert(all =~= front);
    } else {
        let less = trail.drop_last();
        assert forall|i: int| 0 <= i < less.len() implies is_white_space(#[trigger] less[i]) by {
            assert(less[i] == trail[i]);
        }
        lemma_trail(front, less);
        assert(all.last() == trail[trail.len() - 1]);
        assert(all.drop_last() =~= front + less);
    }
}

proof fn lemma_lead(lead: Seq<char>, back: Seq<char>)
    requires
        is_blank(lead),
        back.len() > 0,
        !is_white_space(back[0]),
    ensures
        without_leading_space(lead + back) == back,
    decreases lead.len(),
{
    let all = lead + back;
    if lead.len() == 0 {
        assert(all =~= back);
    } else {
        let less = lead.drop_first();
        assert forall|i: int| 0 <= i < less.len() implies is_white_space(#[trigger] less[i]) by {
            assert(less[i] == lead[i + 1]);
        }
        lemma_lead(less, back);
        assert(all[0] == lead[0]);
        assert(all.drop_first() =~= less + back);
    }
}

} // verus!
