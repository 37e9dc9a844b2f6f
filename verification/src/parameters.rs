//! Parameters of an endpoint, `<key>[=<value>]` each, separated by `;`, and their normal form.

use crate::text;
use vstd::prelude::*;

verus! {

/// The key of a parameter: what precedes its first `=`.
pub open spec fn key_of(p: Seq<char>) -> Seq<char> {
    p.subrange(0, text::find(p, '='))
}

/// A parameter as it is written: an empty value leaves no `=` behind.
pub open spec fn written(p: Seq<char>) -> Seq<char> {
    if text::find(p, '=') + 1 == p.len() {
        key_of(p)
    } else {
        p
    }
}

/// The parameters that `s` lists, as they are written, in the order of `s`. What has no key is
/// none.
pub open spec fn parameters_in(s: Seq<char>) -> Seq<Seq<char>>
    decreases s.len(),
{
    let k = text::find(s, ';');
    let first = s.subrange(0, k);
    let rest = if 0 <= k < s.len() {
        parameters_in(s.subrange(k + 1, s.len() as int))
    } else {
        Seq::empty()
    };
    if key_of(first).len() == 0 {
        rest
    } else {
        seq![written(first)] + rest
    }
}

/// Whether `a` stands before `b` in the alphabet of code points.
pub open spec fn precedes(a: Seq<char>, b: Seq<char>) -> bool
    decreases a.len(),
{
    if b.len() == 0 {
        false
    } else if a.len() == 0 {
        true
    } else if a[0] != b[0] {
        a[0] < b[0]
    } else {
        precedes(a.drop_first(), b.drop_first())
    }
}

/// `ps` with `p` before the parameters at its end whose keys `p`'s key precedes.
pub open spec fn inserted(ps: Seq<Seq<char>>, p: Seq<char>) -> Seq<Seq<char>>
    decreases ps.len(),
{
    if ps.len() > 0 && precedes(key_of(p), key_of(ps.last())) {
        inserted(ps.drop_last(), p).push(ps.last())
    } else {
        ps.push(p)
    }
}

/// `ps` in the order of their keys. Those with one key keep their order.
pub open spec fn ordered(ps: Seq<Seq<char>>) -> Seq<Seq<char>>
    decreases ps.len(),
{
    if ps.len() == 0 {
        Seq::empty()
    } else {
        inserted(ordered(ps.drop_last()), ps.last())
    }
}

/// The text that lists `ps`.
pub open spec fn listed(ps: Seq<Seq<char>>) -> Seq<char>
    decreases ps.len(),
{
    if ps.len() == 0 {
        Seq::empty()
    } else if ps.len() == 1 {
        ps[0]
    } else {
        ps[0] + seq![';'] + listed(ps.drop_first())
    }
}

/// The normal form of the parameters that `s` lists.
pub open spec fn normal(s: Seq<char>) -> Seq<char> {
    listed(ordered(parameters_in(s)))
}

/// A parameter with a key, as it is written in a list.
pub open spec fn is_written(p: Seq<char>) -> bool {
    &&& key_of(p).len() > 0
    &&& written(p) == p
    &&& !p.contains(';')
}

/// No key of `ps` precedes the key of one before it.
pub open spec fn is_ordered(ps: Seq<Seq<char>>) -> bool {
    forall|i: int, j: int|
        0 <= i < j < ps.len() ==> !precedes(key_of(#[trigger] ps[j]), key_of(#[trigger] ps[i]))
}

/// The alphabet of texts is a strict order, and two texts of which neither precedes the other
/// are one.
pub proof fn lemma_precedes(a: Seq<char>, b: Seq<char>, c: Seq<char>)
    ensures
        precedes(a, b) ==> !precedes(b, a),
        precedes(a, b) && precedes(b, c) ==> precedes(a, c),
        !precedes(a, b) && !precedes(b, a) ==> a == b,
    decreases a.len() + b.len() + c.len(),
{
    if a.len() > 0 && b.len() > 0 {
        if c.len() > 0 {
            lemma_precedes(a.drop_first(), b.drop_first(), c.drop_first());
        } else {
            lemma_precedes(a.drop_first(), b.drop_first(), c);
        }
        if a[0] == b[0] && a.drop_first() == b.drop_first() {
            assert(a =~= seq![a[0]] + a.drop_first());
            assert(b =~= seq![b[0]] + b.drop_first());
        }
    } else if a.len() == 0 && b.len() == 0 {
        assert(a =~= b);
    }
}

/// `inserted` keeps everything and adds `p`, and keeps an order.
proof fn lemma_inserted(ps: Seq<Seq<char>>, p: Seq<char>)
    ensures
        inserted(ps, p).len() == ps.len() + 1,
        inserted(ps, p).to_multiset() == ps.to_multiset().insert(p),
        forall|i: int|
            0 <= i < inserted(ps, p).len() ==> #[trigger] inserted(ps, p)[i] == p || ps.contains(
                inserted(ps, p)[i],
            ),
        is_ordered(ps) ==> is_ordered(inserted(ps, p)),
    decreases ps.len(),
{
    broadcast use vstd::seq_lib::group_to_multiset_ensures;

    let after = inserted(ps, p);
    if ps.len() > 0 && precedes(key_of(p), key_of(ps.last())) {
        let before = ps.drop_last();
        let between = inserted(before, p);
        lemma_inserted(before, p);
        assert(before.push(ps.last()) =~= ps);
        assert(after.to_multiset() =~= ps.to_multiset().insert(p));
        assert forall|i: int| 0 <= i < after.len() implies #[trigger] after[i] == p || ps.contains(
            after[i],
        ) by {
            if i < between.len() {
                assert(after[i] == between[i]);
                if between[i] != p {
                    let j = choose|j: int| 0 <= j < before.len() && before[j] == between[i];
                    assert(ps[j] == before[j]);
                }
            } else {
                assert(ps[ps.len() - 1] == after[i]);
            }
        }
        if is_ordered(ps) {
            assert(is_ordered(before)) by {
                assert forall|i: int, j: int| 0 <= i < j < before.len() implies !precedes(
                    key_of(#[trigger] before[j]),
                    key_of(#[trigger] before[i]),
                ) by {
                    assert(ps[i] == before[i] && ps[j] == before[j]);
                }
            }
            assert forall|i: int, j: int| 0 <= i < j < after.len() implies !precedes(
                key_of(#[trigger] after[j]),
                key_of(#[trigger] after[i]),
            ) by {
                assert(after[i] == between[i]);
                if j < between.len() {
                    assert(after[j] == between[j]);
                } else if between[i] == p {
                    lemma_precedes(key_of(p), key_of(ps.last()), key_of(p));
                } else {
                    let k = choose|k: int| 0 <= k < before.len() && before[k] == between[i];
                    assert(ps[k] == before[k]);
                    assert(ps[ps.len() - 1] == after[j]);
                }
            }
        }
    } else {
        assert forall|i: int| 0 <= i < after.len() implies #[trigger] after[i] == p || ps.contains(
            after[i],
        ) by {
            if i < ps.len() {
                assert(after[i] == ps[i]);
            }
        }
        if is_ordered(ps) {
            assert forall|i: int, j: int| 0 <= i < j < after.len() implies !precedes(
                key_of(#[trigger] after[j]),
                key_of(#[trigger] after[i]),
            ) by {
                assert(after[i] == ps[i]);
                if j < ps.len() {
                    assert(after[j] == ps[j]);
                } else if i < ps.len() - 1 {
                    let last = ps[ps.len() - 1];
                    assert(!precedes(key_of(last), key_of(ps[i])));
                    lemma_precedes(key_of(p), key_of(ps[i]), key_of(last));
                    lemma_precedes(key_of(last), key_of(ps[i]), key_of(last));
                    lemma_precedes(key_of(ps[i]), key_of(last), key_of(p));
                }
            }
        }
    }
}

/// Putting parameters in order keeps each of them and adds none.
pub proof fn lemma_ordered(ps: Seq<Seq<char>>)
    ensures
        ordered(ps).to_multiset() == ps.to_multiset(),
        ordered(ps).len() == ps.len(),
        forall|i: int|
            0 <= i < ordered(ps).len() ==> ps.contains(#[trigger] ordered(ps)[i]),
        is_ordered(ordered(ps)),
    decreases ps.len(),
{
    broadcast use vstd::seq_lib::group_to_multiset_ensures;

    if ps.len() > 0 {
        let before = ps.drop_last();
        lemma_ordered(before);
        lemma_inserted(ordered(before), ps.last());
        assert(before.push(ps.last()) =~= ps);
        assert forall|i: int| 0 <= i < ordered(ps).len() implies ps.contains(
            #[trigger] ordered(ps)[i],
        ) by {
            if ordered(ps)[i] == ps.last() {
                assert(ps[ps.len() - 1] == ps.last());
            } else {
                let j = choose|j: int|
                    0 <= j < ordered(before).len() && ordered(before)[j] == ordered(ps)[i];
                assert(before.contains(ordered(before)[j]));
                let k = choose|k: int| 0 <= k < before.len() && before[k] == ordered(ps)[i];
                assert(ps[k] == before[k]);
            }
        }
    } else {
        assert(ordered(ps) =~= ps);
    }
}

/// Parameters that are in order stay as they are.
pub proof fn lemma_ordered_stays(ps: Seq<Seq<char>>)
    requires
        is_ordered(ps),
    ensures
        ordered(ps) == ps,
    decreases ps.len(),
{
    if ps.len() > 0 {
        let before = ps.drop_last();
        assert forall|i: int, j: int| 0 <= i < j < before.len() implies !precedes(
            key_of(#[trigger] before[j]),
            key_of(#[trigger] before[i]),
        ) by {
            assert(ps[i] == before[i] && ps[j] == before[j]);
        }
        lemma_ordered_stays(before);
        if before.len() > 0 {
            assert(ps[ps.len() - 2] == before.last());
            assert(ps[ps.len() - 1] == ps.last());
        }
        assert(before.push(ps.last()) =~= ps);
    } else {
        assert(ordered(ps) =~= ps);
    }
}

/// Those of `ps` that have `key`, in the order of `ps`.
pub open spec fn with_key(ps: Seq<Seq<char>>, key: Seq<char>) -> Seq<Seq<char>>
    decreases ps.len(),
{
    if ps.len() == 0 {
        Seq::empty()
    } else if key_of(ps.last()) == key {
        with_key(ps.drop_last(), key).push(ps.last())
    } else {
        with_key(ps.drop_last(), key)
    }
}

/// `inserted` puts `p` after the parameters with its key.
proof fn lemma_inserted_with_key(ps: Seq<Seq<char>>, p: Seq<char>, key: Seq<char>)
    ensures
        with_key(inserted(ps, p), key) == with_key(ps.push(p), key),
    decreases ps.len(),
{
    assert(ps.push(p).drop_last() =~= ps);
    if ps.len() > 0 && precedes(key_of(p), key_of(ps.last())) {
        let before = ps.drop_last();
        lemma_inserted_with_key(before, p, key);
        lemma_precedes(key_of(p), key_of(ps.last()), key_of(p));
        reveal_with_fuel(with_key, 3);
        assert(inserted(ps, p).drop_last() =~= inserted(before, p));
        assert(before.push(p).drop_last() =~= before);
    }
}

/// Parameters with one key keep their order when all are put in order.
pub proof fn lemma_one_key_keeps_its_order(ps: Seq<Seq<char>>, key: Seq<char>)
    ensures
        with_key(ordered(ps), key) == with_key(ps, key),
    decreases ps.len(),
{
    if ps.len() > 0 {
        let before = ps.drop_last();
        lemma_one_key_keeps_its_order(before, key);
        lemma_inserted_with_key(ordered(before), ps.last(), key);
        assert(ordered(before).push(ps.last()).drop_last() =~= ordered(before));
    }
}

/// What stands in a list was written without `;` and has a key, and holds nothing that the list
/// does not hold.
pub proof fn lemma_parameters_in(s: Seq<char>)
    ensures
        forall|i: int|
            0 <= i < parameters_in(s).len() ==> is_written(#[trigger] parameters_in(s)[i]),
        forall|i: int, c: char|
            0 <= i < parameters_in(s).len() && #[trigger] parameters_in(s)[i].contains(c)
                ==> s.contains(c),
    decreases s.len(),
{
    let k = text::find(s, ';');
    let first = s.subrange(0, k);
    text::lemma_find(s, ';');
    text::lemma_find(first, '=');
    let w = written(first);
    let e = text::find(first, '=');
    if e + 1 == first.len() {
        text::lemma_find_is(w, '=', e);
        assert(key_of(w) =~= w);
    }
    assert(written(w) =~= w);
    assert forall|c: char| w.contains(c) implies s.contains(c) && c != ';' by {
        let i = choose|i: int| 0 <= i < w.len() && w[i] == c;
        assert(s[i] == c);
    }
    let n: int = if key_of(first).len() == 0 { 0 } else { 1 };
    if k < s.len() {
        let tail = s.subrange(k + 1, s.len() as int);
        lemma_parameters_in(tail);
        assert forall|i: int| 0 <= i < parameters_in(s).len() implies is_written(
            #[trigger] parameters_in(s)[i],
        ) by {
            if i >= n {
                assert(parameters_in(s)[i] == parameters_in(tail)[i - n]);
            }
        }
        assert forall|i: int, c: char|
            0 <= i < parameters_in(s).len() && #[trigger] parameters_in(s)[i].contains(
                c,
            ) implies s.contains(c) by {
            if i >= n {
                assert(parameters_in(tail)[i - n].contains(c));
                let j = choose|j: int| 0 <= j < tail.len() && tail[j] == c;
                assert(s[k + 1 + j] == c);
            }
        }
    }
}

/// What was listed is found again.
pub proof fn lemma_listed_again(ps: Seq<Seq<char>>)
    requires
        forall|i: int| 0 <= i < ps.len() ==> is_written(#[trigger] ps[i]),
    ensures
        parameters_in(listed(ps)) == ps,
    decreases ps.len(),
{
    let s = listed(ps);
    if ps.len() == 0 {
        assert(s.subrange(0, 0) =~= Seq::<char>::empty());
        assert(parameters_in(s) =~= ps);
    } else {
        let p = ps[0];
        let k = p.len() as int;
        assert(is_written(p));
        assert forall|i: int| 0 <= i < k implies s[i] != ';' by {
            assert(p.contains(p[i]));
            assert(s[i] == p[i]);
        }
        text::lemma_find_is(s, ';', k);
        assert(s.subrange(0, k) =~= p);
        if ps.len() > 1 {
            let rest = ps.drop_first();
            assert forall|i: int| 0 <= i < rest.len() implies is_written(#[trigger] rest[i]) by {
                assert(rest[i] == ps[i + 1]);
            }
            lemma_listed_again(rest);
            assert(s.subrange(k + 1, s.len() as int) =~= listed(rest));
            assert(parameters_in(s) =~= ps);
        } else {
            assert(parameters_in(s) =~= ps);
        }
    }
}

/// A list holds nothing but what its parameters hold, and `;`.
proof fn lemma_listed_holds(ps: Seq<Seq<char>>, c: char)
    requires
        c != ';',
        forall|i: int| 0 <= i < ps.len() ==> !(#[trigger] ps[i]).contains(c),
    ensures
        !listed(ps).contains(c),
    decreases ps.len(),
{
    if ps.len() > 1 {
        let rest = ps.drop_first();
        assert forall|i: int| 0 <= i < rest.len() implies !(#[trigger] rest[i]).contains(c) by {
            assert(rest[i] == ps[i + 1]);
        }
        lemma_listed_holds(rest, c);
        let s = listed(ps);
        assert(!ps[0].contains(c));
        if s.contains(c) {
            let i = choose|i: int| 0 <= i < s.len() && s[i] == c;
            if i < ps[0].len() {
                assert(ps[0][i] == c);
            } else if i > ps[0].len() {
                assert(listed(rest)[i - ps[0].len() - 1] == c);
            }
        }
    }
}

/// The normal form is its own normal form, and holds nothing that was not in the text, unless it
/// is `;`.
pub proof fn lemma_normal(s: Seq<char>)
    ensures
        normal(normal(s)) == normal(s),
        forall|c: char| c != ';' && !s.contains(c) ==> !(#[trigger] normal(s).contains(c)),
{
    let found = parameters_in(s);
    let ps = ordered(found);
    lemma_parameters_in(s);
    lemma_ordered(found);
    assert forall|i: int| 0 <= i < ps.len() implies is_written(#[trigger] ps[i]) by {
        assert(found.contains(ps[i]));
    }
    lemma_listed_again(ps);
    lemma_ordered_stays(ps);
    assert forall|c: char| c != ';' && !s.contains(c) implies !(#[trigger] normal(s).contains(
        c,
    )) by {
        assert forall|i: int| 0 <= i < ps.len() implies !(#[trigger] ps[i]).contains(c) by {
            assert(found.contains(ps[i]));
            let j = choose|j: int| 0 <= j < found.len() && found[j] == ps[i];
            if ps[i].contains(c) {
                assert(found[j].contains(c));
            }
        }
        lemma_listed_holds(ps, c);
    }
}

/// Texts as values.
pub open spec fn views(texts: Seq<String>) -> Seq<Seq<char>> {
    Seq::new(texts.len(), |i: int| texts[i]@)
}

/// Tells whether `a` stands before `b` in the alphabet of code points.
fn is_before(a: &str, b: &str) -> (answer: bool)
    ensures
        answer == precedes(a@, b@),
{
    let a_len: usize = a.unicode_len();
    let b_len: usize = b.unicode_len();
    let mut i: usize = 0;
    assert(a@.skip(0) =~= a@ && b@.skip(0) =~= b@);
    while i < a_len && i < b_len
        invariant
            a_len == a@.len(),
            b_len == b@.len(),
            i <= a_len,
            i <= b_len,
            precedes(a@, b@) == precedes(a@.skip(i as int), b@.skip(i as int)),
        decreases a_len - i,
    {
        let x: char = a.get_char(i);
        let y: char = b.get_char(i);
        if x != y {
            return x < y;
        }
        proof {
            assert(a@.skip(i as int).drop_first() =~= a@.skip(i + 1));
            assert(b@.skip(i as int).drop_first() =~= b@.skip(i + 1));
        }
        i = i + 1;
    }
    i < b_len
}

/// The key of a parameter.
fn key(p: &str) -> (key: &str)
    ensures
        key@ == key_of(p@),
{
    proof {
        text::lemma_find(p@, '=');
    }
    p.substring_char(0, text::find_char(p, '='))
}

/// The parameters that `s` lists, as they are written.
fn found_in(s: &str) -> (ps: Vec<String>)
    ensures
        views(ps@) == parameters_in(s@),
{
    let mut ps: Vec<String> = Vec::new();
    let mut rest: &str = s;
    loop
        invariant
            views(ps@) + parameters_in(rest@) == parameters_in(s@),
        decreases rest@.len(),
    {
        let len: usize = rest.unicode_len();
        let k: usize = text::find_char(rest, ';');
        proof {
            text::lemma_find(rest@, ';');
            text::lemma_find(rest@.subrange(0, k as int), '=');
        }
        let first: &str = rest.substring_char(0, k);
        let e: usize = text::find_char(first, '=');
        let ghost before = views(ps@);
        if e > 0 {
            let p: &str = if e < k && e + 1 == k { first.substring_char(0, e) } else { first };
            ps.push(p.to_owned());
            assert(views(ps@) =~= before.push(written(first@)));
        }
        let ghost left = if k < len {
            parameters_in(rest@.subrange(k + 1, len as int))
        } else {
            Seq::empty()
        };
        assert(before + parameters_in(rest@) =~= views(ps@) + left);
        if k == len {
            assert(views(ps@) =~= parameters_in(s@));
            return ps;
        }
        rest = rest.substring_char(k + 1, len);
    }
}

/// `inserted` puts `p` at the place that the parameters after it, and the one before it, tell.
proof fn lemma_inserted_at(ps: Seq<Seq<char>>, p: Seq<char>, at: int)
    requires
        0 <= at <= ps.len(),
        forall|i: int| at <= i < ps.len() ==> precedes(key_of(p), key_of(#[trigger] ps[i])),
        at > 0 ==> !precedes(key_of(p), key_of(ps[at - 1])),
    ensures
        inserted(ps, p) == ps.insert(at, p),
    decreases ps.len(),
{
    if at < ps.len() {
        lemma_inserted_at(ps.drop_last(), p, at);
        assert(ps.drop_last().insert(at, p).push(ps.last()) =~= ps.insert(at, p));
    } else {
        assert(ps.push(p) =~= ps.insert(at, p));
    }
}

/// `ps` in the order of their keys.
fn put_in_order(ps: Vec<String>) -> (sorted: Vec<String>)
    ensures
        views(sorted@) == ordered(views(ps@)),
{
    let mut sorted: Vec<String> = Vec::new();
    let mut n: usize = 0;
    assert(views(ps@).take(0) =~= Seq::<Seq<char>>::empty());
    assert(views(sorted@) =~= Seq::<Seq<char>>::empty());
    while n < ps.len()
        invariant
            n <= ps@.len(),
            views(sorted@) == ordered(views(ps@).take(n as int)),
        decreases ps@.len() - n,
    {
        let p: String = ps[n].clone();
        let mut at: usize = sorted.len();
        while at > 0 && is_before(key(p.as_str()), key(sorted[at - 1].as_str()))
            invariant
                at <= sorted@.len(),
                forall|i: int|
                    at <= i < sorted@.len() ==> precedes(
                        key_of(p@),
                        key_of(#[trigger] views(sorted@)[i]),
                    ),
            ensures
                at > 0 ==> !precedes(key_of(p@), key_of(views(sorted@)[at - 1])),
            decreases at,
        {
            at = at - 1;
        }
        let ghost before = views(sorted@);
        proof {
            lemma_inserted_at(before, p@, at as int);
            let taken = views(ps@).take(n + 1);
            assert(taken.drop_last() =~= views(ps@).take(n as int));
            assert(taken.last() == p@);
        }
        sorted.insert(at, p);
        assert(views(sorted@) =~= before.insert(at as int, p@));
        n = n + 1;
    }
    assert(views(ps@).take(n as int) =~= views(ps@));
    sorted
}

/// The text that lists `ps`.
fn list(ps: &Vec<String>) -> (text: String)
    ensures
        text@ == listed(views(ps@)),
{
    let mut text: String = String::new();
    let mut i: usize = ps.len();
    proof {
        reveal_strlit(";");
        assert(";"@ =~= seq![';']);
        assert(views(ps@).skip(i as int) =~= Seq::<Seq<char>>::empty());
    }
    while i > 0
        invariant
            i <= ps@.len(),
            ";"@ == seq![';'],
            text@ == listed(views(ps@).skip(i as int)),
        decreases i,
    {
        let ghost from = views(ps@).skip(i - 1);
        proof {
            assert(from.drop_first() =~= views(ps@).skip(i as int));
            assert(from[0] == ps@[i - 1]@);
        }
        if i == ps.len() {
            text = ps[i - 1].clone();
        } else {
            text = ps[i - 1].clone().concat(";").concat(text.as_str());
        }
        i = i - 1;
    }
    assert(views(ps@).skip(0) =~= views(ps@));
    text
}

/// The normal form of the parameters that `s` lists.
pub fn normal_form(s: &str) -> (text: String)
    ensures
        text@ == normal(s@),
{
    list(&put_in_order(found_in(s)))
}

} // verus!
