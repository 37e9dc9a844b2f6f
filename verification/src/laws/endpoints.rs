//! Laws of endpoints, of their parts and of their parameters.

use crate::endpoint;
use crate::error::LinkErrorView;
use crate::link;
use crate::parameters;
use crate::text;
use vstd::prelude::*;
use vstd::utf8::*;

verus! {

/// A key, with its value behind an `=` unless that is empty.
pub open spec fn parameter(key: Seq<char>, value: Seq<char>) -> Seq<char> {
    if value.len() == 0 {
        key
    } else {
        key + seq!['='] + value
    }
}

/// A text that can be a key: it is not empty and holds neither `=` nor `;`.
pub open spec fn is_key(key: Seq<char>) -> bool {
    key.len() > 0 && !key.contains('=') && !key.contains(';')
}

/// A key and a value make one parameter, which is written as it stands, with its whole value. An
/// `=` without a value is not written, and what has no key is no parameter.
pub proof fn lemma_one_parameter(key: Seq<char>, value: Seq<char>)
    requires
        is_key(key),
        !value.contains(';'),
    ensures
        parameters::parameters_in(parameter(key, value)) == seq![parameter(key, value)],
        parameters::parameters_in(key + seq!['=']) == seq![key],
        parameters::parameters_in(seq!['='] + value) == Seq::<Seq<char>>::empty(),
        parameters::parameters_in(Seq::empty()) == Seq::<Seq<char>>::empty(),
        parameters::key_of(parameter(key, value)) == key,
        parameters::normal(parameter(key, value)) == parameter(key, value),
        parameters::is_written(parameter(key, value)),
{
    let p = parameter(key, value);
    let bare = key + seq!['='];
    let keyless = seq!['='] + value;
    let none = Seq::<char>::empty();
    let k = key.len() as int;
    assert forall|i: int| 0 <= i < k implies key[i] != '=' && key[i] != ';' by {
        assert(key.contains(key[i]));
    }
    assert forall|i: int| 0 <= i < value.len() implies value[i] != ';' by {
        assert(value.contains(value[i]));
    }
    text::lemma_find_is(p, '=', k);
    text::lemma_find_is(p, ';', p.len() as int);
    text::lemma_find_is(bare, '=', k);
    text::lemma_find_is(bare, ';', k + 1);
    text::lemma_find_is(keyless, '=', 0);
    text::lemma_find_is(keyless, ';', keyless.len() as int);
    assert(parameters::key_of(p) =~= key);
    assert(parameters::key_of(bare) =~= key);
    assert(p.subrange(0, p.len() as int) =~= p);
    assert(bare.subrange(0, k + 1) =~= bare);
    assert(keyless.subrange(0, keyless.len() as int) =~= keyless);
    assert(none.subrange(0, 0) =~= none);
    assert(parameters::parameters_in(p) =~= seq![p]);
    assert(parameters::parameters_in(bare) =~= seq![key]);
    assert(parameters::parameters_in(keyless) =~= Seq::<Seq<char>>::empty());
    assert(parameters::parameters_in(none) =~= Seq::<Seq<char>>::empty());
    assert(!p.contains(';'));
    parameters::lemma_ordered_stays(seq![p]);
}

/// A list of two lists has the parameters of the first, then those of the second.
pub proof fn lemma_lists_join(a: Seq<char>, b: Seq<char>)
    ensures
        parameters::parameters_in(a + seq![';'] + b) == parameters::parameters_in(a)
            + parameters::parameters_in(b),
    decreases a.len(),
{
    let s = a + seq![';'] + b;
    let k = text::find(a, ';');
    text::lemma_find(a, ';');
    text::lemma_find_is(s, ';', k);
    assert(s.subrange(0, k) =~= a.subrange(0, k));
    if k < a.len() {
        let rest = a.subrange(k + 1, a.len() as int);
        lemma_lists_join(rest, b);
        assert(s.subrange(k + 1, s.len() as int) =~= rest + seq![';'] + b);
    } else {
        assert(s.subrange(k + 1, s.len() as int) =~= b);
    }
    assert(parameters::parameters_in(s) =~= parameters::parameters_in(a)
        + parameters::parameters_in(b));
}

/// `a` and `b` agree up to `k`, where `a` ends or has the lower code point.
pub open spec fn lower_at(a: Seq<char>, b: Seq<char>, k: int) -> bool {
    &&& 0 <= k <= a.len()
    &&& k < b.len()
    &&& forall|i: int| 0 <= i < k ==> a[i] == b[i]
    &&& k == a.len() || a[k] < b[k]
}

/// One key precedes another where it is lower at the first place at which they differ, or is the
/// beginning of the other.
pub proof fn lemma_alphabet(a: Seq<char>, b: Seq<char>)
    ensures
        parameters::precedes(a, b) <==> exists|k: int| lower_at(a, b, k),
    decreases a.len(),
{
    if a.len() > 0 && b.len() > 0 && a[0] == b[0] {
        let ra = a.drop_first();
        let rb = b.drop_first();
        lemma_alphabet(ra, rb);
        if parameters::precedes(a, b) {
            let k = choose|k: int| lower_at(ra, rb, k);
            assert forall|i: int| 0 <= i < k + 1 implies a[i] == b[i] by {
                if i > 0 {
                    assert(ra[i - 1] == rb[i - 1]);
                }
            }
            assert(lower_at(a, b, k + 1));
        }
        if exists|k: int| lower_at(a, b, k) {
            let k = choose|k: int| lower_at(a, b, k);
            assert forall|i: int| 0 <= i < k - 1 implies ra[i] == rb[i] by {
                assert(a[i + 1] == b[i + 1]);
            }
            assert(lower_at(ra, rb, k - 1));
        }
    } else if parameters::precedes(a, b) {
        assert(lower_at(a, b, 0));
    }
}

/// Lists are written one after the other with `;` between them, and nothing else.
pub proof fn lemma_lists_written(ps: Seq<Seq<char>>, qs: Seq<Seq<char>>, p: Seq<char>)
    ensures
        parameters::listed(Seq::empty()) == Seq::<char>::empty(),
        parameters::listed(seq![p]) == p,
        ps.len() > 0 && qs.len() > 0 ==> parameters::listed(ps + qs) == parameters::listed(ps)
            + seq![';'] + parameters::listed(qs),
    decreases ps.len(),
{
    if ps.len() > 0 && qs.len() > 0 {
        let all = ps + qs;
        let rest = ps.drop_first();
        assert(all.drop_first() =~= rest + qs);
        if ps.len() == 1 {
            assert(rest + qs =~= qs);
        } else {
            lemma_lists_written(rest, qs, p);
        }
        assert(parameters::listed(all) =~= parameters::listed(ps) + seq![';'] + parameters::listed(
            qs,
        ));
    }
}

/// The normal form lists the same parameters, each as often, in the order of their keys, and
/// those with one key in the order they had; and it is nothing but that list.
pub proof fn lemma_normal_form(s: Seq<char>, key: Seq<char>)
    ensures
        parameters::parameters_in(parameters::normal(s)).to_multiset()
            == parameters::parameters_in(s).to_multiset(),
        forall|i: int, j: int|
            0 <= i < j < parameters::parameters_in(parameters::normal(s)).len()
                ==> !parameters::precedes(
                parameters::key_of(#[trigger] parameters::parameters_in(parameters::normal(s))[j]),
                parameters::key_of(#[trigger] parameters::parameters_in(parameters::normal(s))[i]),
            ),
        parameters::with_key(parameters::parameters_in(parameters::normal(s)), key)
            == parameters::with_key(parameters::parameters_in(s), key),
        parameters::normal(s) == parameters::listed(
            parameters::parameters_in(parameters::normal(s)),
        ),
{
    let found = parameters::parameters_in(s);
    let ps = parameters::ordered(found);
    parameters::lemma_parameters_in(s);
    parameters::lemma_ordered(found);
    assert forall|i: int| 0 <= i < ps.len() implies parameters::is_written(#[trigger] ps[i]) by {
        assert(found.contains(ps[i]));
    }
    parameters::lemma_listed_again(ps);
    parameters::lemma_one_key_keeps_its_order(found, key);
}

/// The parameters that `keys` and `values` make.
pub open spec fn parameters_of(keys: Seq<Seq<char>>, values: Seq<Seq<char>>) -> Seq<Seq<char>> {
    Seq::new(keys.len(), |i: int| parameter(keys[i], values[i]))
}

/// A list of keys and values has the parameters that they make, and if the keys are in order it
/// is its own normal form: every value is kept, to its last character.
pub proof fn lemma_values_are_kept(keys: Seq<Seq<char>>, values: Seq<Seq<char>>)
    requires
        keys.len() == values.len(),
        forall|i: int| 0 <= i < keys.len() ==> is_key(#[trigger] keys[i]),
        forall|i: int| 0 <= i < values.len() ==> !(#[trigger] values[i]).contains(';'),
    ensures
        parameters::parameters_in(parameters::listed(parameters_of(keys, values)))
            == parameters_of(keys, values),
        (forall|i: int, j: int|
            0 <= i < j < keys.len() ==> !parameters::precedes(
                #[trigger] keys[j],
                #[trigger] keys[i],
            )) ==> parameters::normal(parameters::listed(parameters_of(keys, values)))
            == parameters::listed(parameters_of(keys, values)),
{
    let ps = parameters_of(keys, values);
    assert forall|i: int| 0 <= i < ps.len() implies parameters::is_written(#[trigger] ps[i])
        && parameters::key_of(ps[i]) == keys[i] by {
        lemma_one_parameter(keys[i], values[i]);
    }
    parameters::lemma_listed_again(ps);
    if forall|i: int, j: int|
        0 <= i < j < keys.len() ==> !parameters::precedes(#[trigger] keys[j], #[trigger] keys[i]) {
        assert forall|i: int, j: int| 0 <= i < j < ps.len() implies !parameters::precedes(
            parameters::key_of(#[trigger] ps[j]),
            parameters::key_of(#[trigger] ps[i]),
        ) by {
            assert(!parameters::precedes(keys[j], keys[i]));
        }
        parameters::lemma_ordered_stays(ps);
    }
}

/// Every parameter of a list, wherever it stands in it, is in the normal form with its whole
/// value.
pub proof fn lemma_parameter_is_kept(
    before: Seq<char>,
    key: Seq<char>,
    value: Seq<char>,
    after: Seq<char>,
)
    requires
        is_key(key),
        !value.contains(';'),
    ensures
        parameters::parameters_in(
            parameters::normal(before + seq![';'] + parameter(key, value) + seq![';'] + after),
        ).contains(parameter(key, value)),
{
    broadcast use vstd::seq_lib::group_to_multiset_ensures;

    let p = parameter(key, value);
    let s = before + seq![';'] + p + seq![';'] + after;
    lemma_one_parameter(key, value);
    lemma_lists_join(before, p);
    lemma_lists_join(before + seq![';'] + p, after);
    let found = parameters::parameters_in(s);
    let front = parameters::parameters_in(before);
    assert(found == front + seq![p] + parameters::parameters_in(after));
    assert(found[front.len() as int] == p);
    assert(found.contains(p));
    lemma_normal_form(s, key);
    assert(found.to_multiset().count(p) > 0);
    assert(parameters::parameters_in(parameters::normal(s)).to_multiset().count(p) > 0);
}

/// The text of an endpoint, spelled out.
pub open spec fn spelled_out(
    protocol: Seq<char>,
    address: Seq<char>,
    metadata: Option<Seq<char>>,
    config: Option<Seq<char>>,
) -> Seq<char> {
    protocol + seq!['/'] + address + match metadata {
        Some(m) => seq!['?'] + m,
        None => Seq::empty(),
    } + match config {
        Some(c) => seq!['#'] + c,
        None => Seq::empty(),
    }
}

/// Parts that can be told apart again, of which something follows the protocol.
pub open spec fn parts_apart(
    protocol: Seq<char>,
    address: Seq<char>,
    metadata: Option<Seq<char>>,
    config: Option<Seq<char>>,
) -> bool {
    &&& protocol.len() > 0
    &&& !protocol.contains('/') && !protocol.contains('?') && !protocol.contains('#')
    &&& !address.contains('?') && !address.contains('#')
    &&& metadata matches Some(m) ==> !m.contains('#')
    &&& metadata is None && config is Some ==> !config->0.contains('?')
    &&& address.len() > 0 || metadata is Some || config is Some
}

/// What `part` holds, or nothing.
pub open spec fn or_empty(part: Option<Seq<char>>) -> Seq<char> {
    match part {
        Some(p) => p,
        None => Seq::empty(),
    }
}

/// `part` with its parameters in normal form.
pub open spec fn in_normal_form(part: Option<Seq<char>>) -> Option<Seq<char>> {
    match part {
        Some(p) => Some(parameters::normal(p)),
        None => None,
    }
}

/// The parts of an endpoint are those that it was spelled with. It is accepted if no part that is
/// marked is empty. Its locator is spelled without the configuration, and its normal form with
/// metadata and configuration in theirs.
pub proof fn lemma_spelled_out(
    protocol: Seq<char>,
    address: Seq<char>,
    metadata: Option<Seq<char>>,
    config: Option<Seq<char>>,
)
    requires
        parts_apart(protocol, address, metadata, config),
    ensures
        ({
            let s = spelled_out(protocol, address, metadata, config);
            &&& endpoint::is_endpoint(s)
            &&& endpoint::is_full_endpoint(s) <==> metadata != Some(Seq::<char>::empty()) && config
                != Some(Seq::<char>::empty())
            &&& endpoint::protocol_of(s) == protocol
            &&& endpoint::address_of(s) == address
            &&& endpoint::metadata_of(s) == or_empty(metadata)
            &&& endpoint::config_of(s) == or_empty(config)
            &&& endpoint::locator_of(s) == spelled_out(protocol, address, metadata, None)
            &&& endpoint::normalized(s) == spelled_out(
                protocol,
                address,
                in_normal_form(metadata),
                in_normal_form(config),
            )
        }),
{
    let s = spelled_out(protocol, address, metadata, config);
    let p = protocol.len() as int;
    let k = p + 1 + address.len();
    let e = match metadata {
        Some(m) => k + 1 + m.len(),
        None => k,
    };
    assert forall|i: int| 0 <= i < p implies s[i] != '/' && s[i] != '?' && s[i] != '#' by {
        assert(s[i] == protocol[i]);
        assert(protocol.contains(protocol[i]));
    }
    assert(s[p] == '/');
    assert forall|i: int| p < i < k implies s[i] != '?' && s[i] != '#' by {
        assert(s[i] == address[i - p - 1]);
        assert(address.contains(address[i - p - 1]));
    }
    text::lemma_find_is(s, '/', p);
    if metadata is Some {
        let m = metadata->0;
        assert(s[k] == '?');
        text::lemma_find_is(s, '?', k);
        assert forall|i: int| k < i < e implies s[i] != '#' by {
            assert(s[i] == m[i - k - 1]);
            assert(m.contains(m[i - k - 1]));
        }
    } else {
        assert forall|i: int| k <= i < s.len() implies s[i] != '?' by {
            let c = config->0;
            if i > k {
                assert(s[i] == c[i - k - 1]);
                assert(c.contains(c[i - k - 1]));
            } else {
                assert(s[i] == '#');
            }
        }
        text::lemma_find_is(s, '?', s.len() as int);
    }
    if config is Some {
        assert(s[e] == '#');
    }
    text::lemma_find_is(s, '#', e);
    assert(endpoint::protocol_of(s) =~= protocol);
    assert(endpoint::address_of(s) =~= address);
    assert(endpoint::metadata_of(s) =~= or_empty(metadata));
    assert(endpoint::config_of(s) =~= or_empty(config));
    assert(endpoint::locator_of(s) =~= spelled_out(protocol, address, metadata, None));
    assert(s.subrange(0, k) =~= protocol + seq!['/'] + address);
    assert(endpoint::normalized(s) =~= spelled_out(
        protocol,
        address,
        in_normal_form(metadata),
        in_normal_form(config),
    ));
    if metadata is Some && metadata->0.len() == 0 {
        assert(metadata->0 =~= Seq::<char>::empty());
    }
    if config is Some && config->0.len() == 0 {
        assert(config->0 =~= Seq::<char>::empty());
    }
}

/// The metadata of `s`, if they are marked.
pub open spec fn marked_metadata(s: Seq<char>) -> Option<Seq<char>> {
    if s.contains('?') {
        Some(endpoint::metadata_of(s))
    } else {
        None
    }
}

/// The configuration of `s`, if it is marked.
pub open spec fn marked_config(s: Seq<char>) -> Option<Seq<char>> {
    if s.contains('#') {
        Some(endpoint::config_of(s))
    } else {
        None
    }
}

/// Every text of an endpoint is spelled with its parts, which can be told apart. So there are no
/// endpoints but those that can be spelled.
pub proof fn lemma_only_spelled_out(s: Seq<char>)
    requires
        endpoint::is_endpoint(s),
    ensures
        s == spelled_out(
            endpoint::protocol_of(s),
            endpoint::address_of(s),
            marked_metadata(s),
            marked_config(s),
        ),
        parts_apart(
            endpoint::protocol_of(s),
            endpoint::address_of(s),
            marked_metadata(s),
            marked_config(s),
        ),
        endpoint::is_full_endpoint(s) ==> marked_metadata(s) != Some(Seq::<char>::empty())
            && marked_config(s) != Some(Seq::<char>::empty()),
{
    text::lemma_find(s, '/');
    text::lemma_find(s, '?');
    text::lemma_find(s, '#');
    endpoint::lemma_parts_are_plain(s);
    let m = text::find(s, '?');
    let c = text::find(s, '#');
    assert(s.contains('?') <==> m < s.len());
    assert(s.contains('#') <==> c < s.len());
    if m == s.len() && c < s.len() {
        assert(!endpoint::config_of(s).contains('?')) by {
            if endpoint::config_of(s).contains('?') {
                let i = choose|i: int|
                    0 <= i < endpoint::config_of(s).len() && endpoint::config_of(s)[i] == '?';
                assert(s[c + 1 + i] == '?');
            }
        }
    }
    assert(s =~= spelled_out(
        endpoint::protocol_of(s),
        endpoint::address_of(s),
        marked_metadata(s),
        marked_config(s),
    ));
}

/// `part`, if it is not empty.
pub open spec fn unless_empty(part: Seq<char>) -> Option<Seq<char>> {
    if part.len() == 0 {
        None
    } else {
        Some(part)
    }
}

/// What is made of four parts is the normal form of the text that is spelled with those of them
/// that are not empty. It is refused as too big where the first three have more than 255 bytes,
/// and else as malformed where that text is none of an endpoint; nothing else is refused.
pub proof fn lemma_made_of_parts(
    protocol: Seq<char>,
    address: Seq<char>,
    metadata: Seq<char>,
    config: Seq<char>,
)
    ensures
        ({
            let s = spelled_out(protocol, address, unless_empty(metadata), unless_empty(config));
            let bytes = encode_utf8(protocol).len() + encode_utf8(address).len() + encode_utf8(
                metadata,
            ).len();
            &&& endpoint::endpoint_text(protocol, address, metadata, config)
                == endpoint::normalized(s)
            &&& endpoint::parts_accepted(protocol, address, metadata, config) <==> bytes <= 255
                && endpoint::is_full_endpoint(s)
            &&& bytes > 255 ==> endpoint::refusal(protocol, address, metadata, config) == Some(
                LinkErrorView::EndPointTooBig { len: bytes },
            )
            &&& bytes <= 255 && !endpoint::is_full_endpoint(s) ==> endpoint::refusal(
                protocol,
                address,
                metadata,
                config,
            ) == Some(LinkErrorView::EndPointMalformed { text: s })
        }),
{
    assert(endpoint::joined(protocol, address, metadata, config) =~= spelled_out(
        protocol,
        address,
        unless_empty(metadata),
        unless_empty(config),
    ));
}

/// An endpoint made of parts that can be told apart has these parts, metadata and configuration in
/// normal form, and its text is spelled with them.
pub proof fn lemma_made_endpoint_has_its_parts(
    protocol: Seq<char>,
    address: Seq<char>,
    metadata: Seq<char>,
    config: Seq<char>,
)
    requires
        parts_apart(protocol, address, unless_empty(metadata), unless_empty(config)),
    ensures
        ({
            let made = endpoint::endpoint_text(protocol, address, metadata, config);
            &&& made == spelled_out(
                protocol,
                address,
                in_normal_form(unless_empty(metadata)),
                in_normal_form(unless_empty(config)),
            )
            &&& endpoint::protocol_of(made) == protocol
            &&& endpoint::address_of(made) == address
            &&& endpoint::metadata_of(made) == parameters::normal(metadata)
            &&& endpoint::config_of(made) == parameters::normal(config)
        }),
{
    lemma_made_of_parts(protocol, address, metadata, config);
    lemma_spelled_out(protocol, address, unless_empty(metadata), unless_empty(config));
    endpoint::lemma_normalized(
        spelled_out(protocol, address, unless_empty(metadata), unless_empty(config)),
    );
    assert(metadata.len() == 0 ==> metadata =~= Seq::<char>::empty());
    assert(config.len() == 0 ==> config =~= Seq::<char>::empty());
}

/// A text is a normal endpoint if it is one and its metadata and configuration are their own
/// normal forms.
pub proof fn lemma_normal_endpoint(s: Seq<char>)
    ensures
        endpoint::is_normal(s) <==> {
            &&& endpoint::is_endpoint(s)
            &&& parameters::normal(endpoint::metadata_of(s)) == endpoint::metadata_of(s)
            &&& parameters::normal(endpoint::config_of(s)) == endpoint::config_of(s)
        },
{
    if endpoint::is_endpoint(s) {
        endpoint::lemma_normalized(s);
        lemma_only_spelled_out(s);
        lemma_spelled_out(
            endpoint::protocol_of(s),
            endpoint::address_of(s),
            marked_metadata(s),
            marked_config(s),
        );
    }
}

/// A locator leaves out the configuration, and only that.
pub proof fn lemma_locator(s: Seq<char>)
    requires
        endpoint::is_endpoint(s),
    ensures
        !endpoint::locator_of(s).contains('#'),
        s == endpoint::locator_of(s) || s == endpoint::locator_of(s) + seq!['#']
            + endpoint::config_of(s),
{
    text::lemma_find(s, '#');
    if text::find(s, '#') < s.len() {
        assert(s =~= endpoint::locator_of(s) + seq!['#'] + endpoint::config_of(s));
    } else {
        assert(s =~= endpoint::locator_of(s));
    }
}

/// A locator can hold a path of at most 240 bytes, if `unixsock-stream/` and the path make an
/// endpoint; its text is the normal form of that. A path without `?` and `#` always does, unless
/// it is empty, and is then in the locator as it stands.
pub proof fn lemma_path_in_locator(path: Seq<char>)
    ensures
        link::path_fits(path) <==> encode_utf8(path).len() <= 240 && endpoint::is_full_endpoint(
            "unixsock-stream/"@ + path,
        ),
        link::path_locator(path) == endpoint::normalized("unixsock-stream/"@ + path),
        !path.contains('?') && !path.contains('#') ==> {
            &&& link::path_fits(path) <==> 0 < path.len() && encode_utf8(path).len() <= 240
            &&& path.len() > 0 ==> link::path_locator(path) == "unixsock-stream/"@ + path
        },
{
    let prefix = "unixsock-stream"@;
    let none = Seq::<char>::empty();
    reveal_strlit("unixsock-stream");
    reveal_strlit("unixsock-stream/");
    assert(is_ascii_chars(prefix));
    is_ascii_chars_encode_utf8(prefix);
    assert(encode_utf8(none).len() == 0);
    lemma_made_of_parts(prefix, path, none, none);
    assert(spelled_out(prefix, path, None, None) =~= "unixsock-stream/"@ + path);
    assert(link::UNIXSOCKSTREAM_LOCATOR_PREFIX@ == prefix);
    if !path.contains('?') && !path.contains('#') && path.len() > 0 {
        assert(!prefix.contains('/') && !prefix.contains('?') && !prefix.contains('#'));
        lemma_spelled_out(prefix, path, None, None);
    }
    if path.len() == 0 {
        let s = "unixsock-stream/"@ + path;
        text::lemma_find_is(s, '/', 15);
    }
}

/// A link is named by its two locators with an arrow between them, and what is said of a failed
/// read or write names it so.
pub proof fn lemma_link_named<S>(
    link: link::LinkUnicastUnixSocketStream<S>,
    cause: Seq<char>,
)
    ensures
        link::link_line(link.src(), link.dst()) == link.src() + " => "@ + link.dst(),
        link.write_failure(cause).message() == "Write error on UnixSocketStream link "@ + (
        link.src() + " => "@ + link.dst()) + ": "@ + cause,
        link.read_failure(cause).message() == "Read error on UnixSocketStream link "@ + (link.src()
            + " => "@ + link.dst()) + ": "@ + cause,
{
}

/// A call on the socket that went well gives what the socket gave; one that failed gives an error
/// with its cause.
pub proof fn lemma_socket_outcomes<T>(
    outcome: Result<T, String>,
    result: Result<T, crate::error::LinkError>,
    error: spec_fn(Seq<char>) -> LinkErrorView,
)
    ensures
        link::socket_outcome(outcome, result, error) ==> (result is Ok <==> outcome is Ok),
        link::socket_outcome(outcome, result, error) && outcome is Ok ==> result->Ok_0
            == outcome->Ok_0,
        link::socket_outcome(outcome, result, error) && outcome is Err ==> result->Err_0@ == error(
            outcome->Err_0@,
        ),
{
}

} // verus!
