//! Endpoints `<protocol>/<address>[?<metadata>][#<config>]` and the locators they stand for.
//!
//! The grammar is that of Zenoh's endpoints. It is stated and proved here and not taken from
//! `zenoh-protocol`: crates of Zenoh's workspace are barred from the dependencies of this crate, so
//! it cannot be called.

use crate::error::{LinkError, LinkErrorView};
use crate::parameters;
use crate::text;
use vstd::prelude::*;
use vstd::utf8::*;

verus! {

/// The protocol of the endpoint text `s`: what precedes the first `/`.
pub open spec fn protocol_of(s: Seq<char>) -> Seq<char> {
    s.subrange(0, text::find(s, '/'))
}

/// Where the address of `s` ends: at its first `?` or `#`, or at its end.
pub open spec fn address_end(s: Seq<char>) -> int {
    if text::find(s, '?') <= text::find(s, '#') {
        text::find(s, '?')
    } else {
        text::find(s, '#')
    }
}

/// The address of `s`: what stands between the first `/` and the first `?` or `#`.
pub open spec fn address_of(s: Seq<char>) -> Seq<char> {
    s.subrange(text::find(s, '/') + 1, address_end(s))
}

/// The metadata of `s`: what follows the first `?`, up to the first `#`.
pub open spec fn metadata_of(s: Seq<char>) -> Seq<char> {
    if text::find(s, '?') < s.len() {
        s.subrange(text::find(s, '?') + 1, text::find(s, '#'))
    } else {
        Seq::empty()
    }
}

/// The configuration of `s`: what follows the first `#`.
pub open spec fn config_of(s: Seq<char>) -> Seq<char> {
    if text::find(s, '#') < s.len() {
        s.subrange(text::find(s, '#') + 1, s.len() as int)
    } else {
        Seq::empty()
    }
}

/// The locator of `s`: the endpoint without its configuration.
pub open spec fn locator_of(s: Seq<char>) -> Seq<char> {
    s.subrange(0, text::find(s, '#'))
}

/// A text that has the parts of an endpoint, in their order: a protocol that is not empty, an
/// address, then perhaps metadata, then perhaps a configuration.
pub open spec fn is_endpoint(s: Seq<char>) -> bool {
    let p = text::find(s, '/');
    let m = text::find(s, '?');
    let c = text::find(s, '#');
    &&& 0 < p < s.len() - 1
    &&& p < m
    &&& p < c
    &&& m < s.len() && c < s.len() ==> m < c
}

/// An endpoint text whose metadata and configuration, where their separators stand, are not
/// empty.
pub open spec fn is_full_endpoint(s: Seq<char>) -> bool {
    let m = text::find(s, '?');
    let c = text::find(s, '#');
    &&& is_endpoint(s)
    &&& m < s.len() ==> m + 1 < c
    &&& c < s.len() ==> c + 1 < s.len()
}

/// The text made of the four parts of an endpoint. Empty metadata and an empty configuration
/// leave no separator behind.
pub open spec fn joined(
    protocol: Seq<char>,
    address: Seq<char>,
    metadata: Seq<char>,
    config: Seq<char>,
) -> Seq<char> {
    let head = protocol + seq!['/'] + address;
    let located = if metadata.len() == 0 { head } else { head + seq!['?'] + metadata };
    if config.len() == 0 { located } else { located + seq!['#'] + config }
}

/// The bytes of the first three parts of an endpoint.
pub open spec fn located_bytes(
    protocol: Seq<char>,
    address: Seq<char>,
    metadata: Seq<char>,
) -> nat {
    encode_utf8(protocol).len() + encode_utf8(address).len() + encode_utf8(metadata).len()
}

/// What is said against the four parts of an endpoint, if anything: the first three hold at most
/// 255 bytes, and the text made of the four is that of an endpoint without an empty part.
pub open spec fn refusal(
    protocol: Seq<char>,
    address: Seq<char>,
    metadata: Seq<char>,
    config: Seq<char>,
) -> Option<LinkErrorView> {
    if located_bytes(protocol, address, metadata) > 255 {
        Some(LinkErrorView::EndPointTooBig { len: located_bytes(protocol, address, metadata) })
    } else if !is_full_endpoint(joined(protocol, address, metadata, config)) {
        Some(LinkErrorView::EndPointMalformed { text: joined(protocol, address, metadata, config) })
    } else {
        None
    }
}

/// The parts of an endpoint against which nothing is said.
pub open spec fn parts_accepted(
    protocol: Seq<char>,
    address: Seq<char>,
    metadata: Seq<char>,
    config: Seq<char>,
) -> bool {
    refusal(protocol, address, metadata, config) is None
}

/// The endpoint text `s` with its metadata and its configuration in their normal form.
pub open spec fn normalized(s: Seq<char>) -> Seq<char> {
    let head = s.subrange(0, address_end(s));
    let located = if text::find(s, '?') < s.len() {
        head + seq!['?'] + parameters::normal(metadata_of(s))
    } else {
        head
    };
    if text::find(s, '#') < s.len() {
        located + seq!['#'] + parameters::normal(config_of(s))
    } else {
        located
    }
}

/// An endpoint text in its normal form.
pub open spec fn is_normal(s: Seq<char>) -> bool {
    is_endpoint(s) && normalized(s) == s
}

/// The text of the endpoint with the given parts.
pub open spec fn endpoint_text(
    protocol: Seq<char>,
    address: Seq<char>,
    metadata: Seq<char>,
    config: Seq<char>,
) -> Seq<char> {
    normalized(joined(protocol, address, metadata, config))
}

/// The normal form of an endpoint text is an endpoint text in its normal form. It has the same
/// protocol and address, and the normal forms of the metadata and the configuration.
pub proof fn lemma_normalized(s: Seq<char>)
    requires
        is_endpoint(s),
    ensures
        is_normal(normalized(s)),
        protocol_of(normalized(s)) == protocol_of(s),
        address_of(normalized(s)) == address_of(s),
        metadata_of(normalized(s)) == parameters::normal(metadata_of(s)),
        config_of(normalized(s)) == parameters::normal(config_of(s)),
{
    let n = normalized(s);
    let p = text::find(s, '/');
    let m = text::find(s, '?');
    let c = text::find(s, '#');
    let k = address_end(s);
    let metadata = parameters::normal(metadata_of(s));
    let config = parameters::normal(config_of(s));
    let none = Seq::<char>::empty();
    text::lemma_find(s, '/');
    text::lemma_find(s, '?');
    text::lemma_find(s, '#');
    parameters::lemma_normal(metadata_of(s));
    parameters::lemma_normal(config_of(s));
    assert(parameters::normal(none) =~= none) by {
        text::lemma_find(none, ';');
        assert(parameters::parameters_in(none) =~= Seq::<Seq<char>>::empty());
        assert(parameters::ordered(Seq::<Seq<char>>::empty()) =~= Seq::<Seq<char>>::empty());
    }
    assert forall|i: int| 0 <= i < k implies n[i] == s[i] by {}
    text::lemma_find_is(n, '/', p);
    if m < s.len() {
        assert(!metadata_of(s).contains('#'));
        assert(!metadata.contains('#'));
        let end = k + 1 + metadata.len();
        text::lemma_find_is(n, '?', k);
        assert forall|i: int| k < i < end implies n[i] != '#' by {
            assert(n[i] == metadata[i - k - 1]);
            assert(metadata.contains(metadata[i - k - 1]));
        }
        text::lemma_find_is(n, '#', end);
        assert(metadata_of(n) =~= metadata);
        assert(config_of(n) =~= config);
    } else {
        assert(!s.contains('?'));
        text::lemma_find_is(n, '#', k);
        if c < s.len() {
            assert(!config_of(s).contains('?'));
            assert(!config.contains('?'));
            assert forall|i: int| 0 <= i < n.len() implies n[i] != '?' by {
                if i > k {
                    assert(n[i] == config[i - k - 1]);
                    assert(config.contains(config[i - k - 1]));
                }
            }
        }
        text::lemma_find_is(n, '?', n.len() as int);
        assert(metadata_of(n) =~= metadata);
        assert(config_of(n) =~= config);
    }
    assert(protocol_of(n) =~= protocol_of(s));
    assert(address_of(n) =~= address_of(s));
    assert(n.subrange(0, k) =~= s.subrange(0, k));
    assert(normalized(n) =~= n);
}

/// An endpoint in its normal form, without an empty part, is the endpoint that its parts make.
pub proof fn lemma_made_again(s: Seq<char>)
    requires
        is_normal(s),
        is_full_endpoint(s),
    ensures
        endpoint_text(protocol_of(s), address_of(s), metadata_of(s), config_of(s)) == s,
{
    lemma_parts_rejoin(s);
}

/// The parts of a joined text are found again: a protocol without separators and an address
/// without `?` and `#` are the protocol and the address of the text made of them.
pub proof fn lemma_joined_parts(
    protocol: Seq<char>,
    address: Seq<char>,
    metadata: Seq<char>,
    config: Seq<char>,
)
    requires
        !protocol.contains('/') && !protocol.contains('?') && !protocol.contains('#'),
        !address.contains('?') && !address.contains('#'),
    ensures
        protocol_of(joined(protocol, address, metadata, config)) == protocol,
        address_of(joined(protocol, address, metadata, config)) == address,
{
    let s = joined(protocol, address, metadata, config);
    let p = protocol.len() as int;
    let k = p + 1 + address.len();
    assert forall|i: int| 0 <= i < p implies s[i] == protocol[i] by {}
    assert(s[p] == '/');
    assert forall|i: int| p < i < k implies s[i] == address[i - p - 1] by {}
    assert forall|i: int| 0 <= i < p implies s[i] != '/' && s[i] != '?' && s[i] != '#' by {
        assert(protocol.contains(protocol[i]));
    }
    assert forall|i: int| p < i < k implies s[i] != '?' && s[i] != '#' by {
        assert(address.contains(address[i - p - 1]));
    }
    text::lemma_find_is(s, '/', p);
    text::lemma_find(s, '?');
    text::lemma_find(s, '#');
    if metadata.len() > 0 {
        assert(s[k] == '?');
        text::lemma_find_is(s, '?', k);
    } else if config.len() > 0 {
        assert(s[k] == '#');
        text::lemma_find_is(s, '#', k);
    }
    assert(address_end(s) == k);
    assert(protocol_of(s) =~= protocol);
    assert(address_of(s) =~= address);
}

/// The metadata and the configuration of a joined text are found again too, where it is the text
/// of an endpoint and the metadata hold no `#`.
pub proof fn lemma_joined_rest(
    protocol: Seq<char>,
    address: Seq<char>,
    metadata: Seq<char>,
    config: Seq<char>,
)
    requires
        !protocol.contains('/') && !protocol.contains('?') && !protocol.contains('#'),
        !address.contains('?') && !address.contains('#'),
        !metadata.contains('#'),
        is_endpoint(joined(protocol, address, metadata, config)),
    ensures
        metadata_of(joined(protocol, address, metadata, config)) == metadata,
        config_of(joined(protocol, address, metadata, config)) == config,
{
    let s = joined(protocol, address, metadata, config);
    let k: int = protocol.len() as int + 1 + address.len();
    lemma_joined_parts(protocol, address, metadata, config);
    text::lemma_find(s, '/');
    text::lemma_find(s, '?');
    text::lemma_find(s, '#');
    assert(text::find(s, '/') == protocol.len()) by {
        assert(protocol_of(s) == protocol);
    }
    assert(address_end(s) == k) by {
        assert(address_of(s) == address);
    }
    if metadata.len() > 0 {
        let end = k + 1 + metadata.len();
        assert(s[k] == '?');
        assert forall|i: int| k < i < end implies s[i] != '#' by {
            assert(s[i] == metadata[i - k - 1]);
            assert(metadata.contains(metadata[i - k - 1]));
        }
        text::lemma_find_is(s, '#', end);
    }
    assert(metadata_of(s) =~= metadata);
    assert(config_of(s) =~= config);
}

/// The protocol and the address of an endpoint text hold no separators of their own, and its
/// metadata no `#`.
pub proof fn lemma_parts_are_plain(s: Seq<char>)
    requires
        is_endpoint(s),
    ensures
        !protocol_of(s).contains('/'),
        !protocol_of(s).contains('?') && !protocol_of(s).contains('#'),
        !address_of(s).contains('?') && !address_of(s).contains('#'),
        !metadata_of(s).contains('#'),
{
    text::lemma_find(s, '/');
    text::lemma_find(s, '?');
    text::lemma_find(s, '#');
}

/// An endpoint text whose parts are not empty where their separators stand is the text made of
/// its parts.
pub proof fn lemma_parts_rejoin(s: Seq<char>)
    requires
        is_full_endpoint(s),
    ensures
        joined(protocol_of(s), address_of(s), metadata_of(s), config_of(s)) == s,
{
    text::lemma_find(s, '/');
    text::lemma_find(s, '?');
    text::lemma_find(s, '#');
    assert(joined(protocol_of(s), address_of(s), metadata_of(s), config_of(s)) =~= s);
}

/// An address to listen on or connect to, with its protocol, metadata and configuration, in its
/// normal form.
#[derive(Debug)]
pub struct EndPoint {
    text: String,
}

impl View for EndPoint {
    type V = Seq<char>;

    closed spec fn view(&self) -> Seq<char> {
        self.text@
    }
}

impl EndPoint {
    #[verifier::type_invariant]
    closed spec fn inv(self) -> bool {
        is_normal(self.text@)
    }

    /// Reads `text` as an endpoint.
    pub fn from_text(text: String) -> (endpoint: Result<EndPoint, LinkError>)
        ensures
            endpoint is Ok <==> is_full_endpoint(text@),
            endpoint matches Ok(e) ==> e@ == normalized(text@) && is_normal(e@),
            endpoint matches Err(e) ==> e@ == (LinkErrorView::EndPointMalformed { text: text@ }),
    {
        let len: usize = text.as_str().unicode_len();
        let p: usize = text::find_char(text.as_str(), '/');
        let m: usize = text::find_char(text.as_str(), '?');
        let c: usize = text::find_char(text.as_str(), '#');
        proof {
            text::lemma_find(text@, '/');
            text::lemma_find(text@, '?');
            text::lemma_find(text@, '#');
        }
        if p == 0 || p == len || p + 1 == len || m < p || c < p {
            return Err(LinkError::EndPointMalformed { text });
        }
        if m < len && (c <= m || m + 1 == c) || c < len && c + 1 == len {
            return Err(LinkError::EndPointMalformed { text });
        }
        proof {
            reveal_strlit("?");
            reveal_strlit("#");
            assert("?"@ =~= seq!['?'] && "#"@ =~= seq!['#']);
            lemma_normalized(text@);
        }
        let end: usize = if m <= c { m } else { c };
        let mut normal: String = text.as_str().substring_char(0, end).to_owned();
        if m < len {
            let metadata: String = parameters::normal_form(
                text.as_str().substring_char(m + 1, c),
            );
            normal = normal.concat("?").concat(metadata.as_str());
        }
        if c < len {
            let config: String = parameters::normal_form(
                text.as_str().substring_char(c + 1, len),
            );
            normal = normal.concat("#").concat(config.as_str());
        }
        Ok(EndPoint { text: normal })
    }

    /// Makes an endpoint of its four parts.
    pub fn new(protocol: &str, address: &str, metadata: &str, config: &str) -> (endpoint: Result<
        EndPoint,
        LinkError,
    >)
        ensures
            endpoint is Ok <==> parts_accepted(protocol@, address@, metadata@, config@),
            endpoint matches Ok(e) ==> {
                &&& e@ == endpoint_text(protocol@, address@, metadata@, config@)
                &&& is_normal(e@)
            },
            endpoint matches Err(e) ==> Some(e@) == refusal(
                protocol@,
                address@,
                metadata@,
                config@,
            ),
    {
        let len: u128 = protocol.as_bytes().len() as u128 + address.as_bytes().len() as u128
            + metadata.as_bytes().len() as u128;
        if len > 255 {
            return Err(LinkError::EndPointTooBig { len });
        }
        proof {
            reveal_strlit("/");
            reveal_strlit("?");
            reveal_strlit("#");
            assert("/"@ =~= seq!['/'] && "?"@ =~= seq!['?'] && "#"@ =~= seq!['#']);
        }
        let mut text: String = protocol.to_owned().concat("/").concat(address);
        if !metadata.is_empty() {
            text = text.concat("?").concat(metadata);
        }
        if !config.is_empty() {
            text = text.concat("#").concat(config);
        }
        EndPoint::from_text(text)
    }

    /// The endpoint as text.
    pub fn as_str(&self) -> (text: &str)
        ensures
            text@ == self@,
            is_normal(self@),
    {
        proof {
            use_type_invariant(self);
        }
        self.text.as_str()
    }

    /// The protocol.
    pub fn protocol(&self) -> (protocol: String)
        ensures
            protocol@ == protocol_of(self@),
            is_normal(self@),
    {
        proof {
            use_type_invariant(self);
        }
        let p: usize = text::find_char(self.text.as_str(), '/');
        self.text.as_str().substring_char(0, p).to_owned()
    }

    /// The address.
    pub fn address(&self) -> (address: String)
        ensures
            address@ == address_of(self@),
            is_normal(self@),
    {
        proof {
            use_type_invariant(self);
            text::lemma_find(self.text@, '?');
            text::lemma_find(self.text@, '#');
        }
        let p: usize = text::find_char(self.text.as_str(), '/');
        let m: usize = text::find_char(self.text.as_str(), '?');
        let c: usize = text::find_char(self.text.as_str(), '#');
        let end: usize = if m <= c { m } else { c };
        self.text.as_str().substring_char(p + 1, end).to_owned()
    }

    /// The metadata, empty where there is none.
    pub fn metadata(&self) -> (metadata: String)
        ensures
            metadata@ == metadata_of(self@),
            is_normal(self@),
    {
        proof {
            use_type_invariant(self);
            text::lemma_find(self.text@, '?');
            text::lemma_find(self.text@, '#');
        }
        let len: usize = self.text.as_str().unicode_len();
        let m: usize = text::find_char(self.text.as_str(), '?');
        let c: usize = text::find_char(self.text.as_str(), '#');
        if m < len {
            self.text.as_str().substring_char(m + 1, c).to_owned()
        } else {
            String::new()
        }
    }

    /// The configuration, empty where there is none.
    pub fn config(&self) -> (config: String)
        ensures
            config@ == config_of(self@),
            is_normal(self@),
    {
        proof {
            use_type_invariant(self);
            text::lemma_find(self.text@, '#');
        }
        let len: usize = self.text.as_str().unicode_len();
        let c: usize = text::find_char(self.text.as_str(), '#');
        if c < len {
            self.text.as_str().substring_char(c + 1, len).to_owned()
        } else {
            String::new()
        }
    }

    /// The locator: the endpoint without its configuration.
    pub fn to_locator(&self) -> (locator: Locator)
        ensures
            locator@ == locator_of(self@),
            is_normal(self@),
    {
        proof {
            use_type_invariant(self);
            text::lemma_find(self.text@, '#');
        }
        let c: usize = text::find_char(self.text.as_str(), '#');
        Locator { text: self.text.as_str().substring_char(0, c).to_owned() }
    }
}

impl Clone for EndPoint {
    fn clone(&self) -> (copy: EndPoint)
        ensures
            copy@ == self@,
            is_normal(self@),
    {
        proof {
            use_type_invariant(self);
        }
        EndPoint { text: self.text.clone() }
    }
}

/// A protocol and an address, with perhaps metadata: `<protocol>/<address>[?<metadata>]`.
#[derive(Debug)]
pub struct Locator {
    text: String,
}

impl View for Locator {
    type V = Seq<char>;

    closed spec fn view(&self) -> Seq<char> {
        self.text@
    }
}

impl Locator {
    /// Makes a locator of its three parts.
    pub fn new(protocol: &str, address: &str, metadata: &str) -> (locator: Result<
        Locator,
        LinkError,
    >)
        ensures
            locator is Ok <==> parts_accepted(protocol@, address@, metadata@, Seq::empty()),
            locator matches Ok(l) ==> l@ == endpoint_text(
                protocol@,
                address@,
                metadata@,
                Seq::empty(),
            ),
            locator matches Err(e) ==> Some(e@) == refusal(
                protocol@,
                address@,
                metadata@,
                Seq::empty(),
            ),
    {
        proof {
            reveal_strlit("");
            assert(""@ =~= Seq::<char>::empty());
        }
        match EndPoint::new(protocol, address, metadata, "") {
            Ok(endpoint) => Ok(Locator { text: endpoint.text }),
            Err(e) => Err(e),
        }
    }

    /// The locator as text.
    pub fn as_str(&self) -> (text: &str)
        ensures
            text@ == self@,
    {
        self.text.as_str()
    }
}

} // verus!
