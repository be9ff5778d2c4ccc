//! HTTP header lists, and the rules by which the proxy passes headers on in
//! both directions.

use vstd::prelude::*;
use vstd::string::*;

use crate::text::{concat, eq_ignore_ascii_case, str_eq_ignore_ascii_case, utf8};

verus! {

/// One header line.
#[derive(Debug)]
pub struct Header {
    pub name: String,
    pub value: String,
}

/// The mathematical content of a [`Header`].
pub struct HeaderView {
    pub name: Seq<char>,
    pub value: Seq<char>,
}

impl View for Header {
    type V = HeaderView;

    open spec fn view(&self) -> HeaderView {
        HeaderView { name: self.name@, value: self.value@ }
    }
}

impl Clone for Header {
    fn clone(&self) -> (r: Self)
        ensures
            r@ == self@,
    {
        Header { name: self.name.clone(), value: self.value.clone() }
    }
}

/// The views of a header list, in order.
pub open spec fn header_views(list: Seq<Header>) -> Seq<HeaderView> {
    Seq::new(list.len(), |i: int| list[i]@)
}

/// True when a header bears the given name; names differ in case only.
pub open spec fn name_is(header: HeaderView, name: Seq<char>) -> bool {
    eq_ignore_ascii_case(utf8(header.name), utf8(name))
}

/// True when the list holds a header of the given name.
pub open spec fn has_header(list: Seq<HeaderView>, name: Seq<char>) -> bool {
    exists|i: int| 0 <= i < list.len() && name_is(#[trigger] list[i], name)
}

/// The first `upto` headers without those of the given name.
pub open spec fn without_upto(list: Seq<HeaderView>, name: Seq<char>, upto: int) -> Seq<
    HeaderView,
>
    decreases upto,
{
    if upto <= 0 {
        Seq::<HeaderView>::empty()
    } else {
        let rest = without_upto(list, name, upto - 1);
        if name_is(list[upto - 1], name) {
            rest
        } else {
            rest.push(list[upto - 1])
        }
    }
}

/// The list without the headers of the given name.
pub open spec fn without(list: Seq<HeaderView>, name: Seq<char>) -> Seq<HeaderView> {
    without_upto(list, name, list.len() as int)
}

/// The list with the given header as the only one of its name, at the end.
pub open spec fn with_header(list: Seq<HeaderView>, name: Seq<char>, value: Seq<char>) -> Seq<
    HeaderView,
> {
    without(list, name).push(HeaderView { name, value })
}

/// The list with the given header added unless one of its name is there.
pub open spec fn with_default(list: Seq<HeaderView>, name: Seq<char>, value: Seq<char>) -> Seq<
    HeaderView,
> {
    if has_header(list, name) {
        list
    } else {
        list.push(HeaderView { name, value })
    }
}

/// The first `upto` headers, each replacing earlier ones of its name.
pub open spec fn converted_upto(list: Seq<HeaderView>, upto: int) -> Seq<HeaderView>
    decreases upto,
{
    if upto <= 0 {
        Seq::<HeaderView>::empty()
    } else {
        with_header(converted_upto(list, upto - 1), list[upto - 1].name, list[upto - 1].value)
    }
}

/// The headers as a header map holds them: of several headers with one name
/// the last one stays.
pub open spec fn converted(list: Seq<HeaderView>) -> Seq<HeaderView> {
    converted_upto(list, list.len() as int)
}

/// True for the bytes that may stand in a header value: the tab, and all
/// others from the space on but the delete character.
pub open spec fn is_value_byte(b: u8) -> bool {
    (b >= 32 && b != 127) || b == 9
}

/// True for a text that can be sent as a header value.
pub open spec fn is_header_value(value: Seq<char>) -> bool {
    forall|i: int| 0 <= i < utf8(value).len() ==> is_value_byte(#[trigger] utf8(value)[i])
}

/// Tells whether a text can be sent as a header value.
pub fn valid_header_value(value: &str) -> (r: bool)
    ensures
        r == is_header_value(value@),
{
    let bytes = value.as_bytes();
    let mut i: usize = 0;
    while i < bytes.len()
        invariant
            i <= bytes.len(),
            bytes@ == utf8(value@),
            forall|j: int| 0 <= j < i ==> is_value_byte(#[trigger] bytes@[j]),
        decreases bytes.len() - i,
    {
        let b = bytes[i];
        if !((b >= 32 && b != 127) || b == 9) {
            proof {
                assert(!is_value_byte(utf8(value@)[i as int]));
            }
            return false;
        }
        i += 1;
    }
    true
}

/// Tells whether the list holds a header of the given name.
pub fn contains_header(list: &Vec<Header>, name: &str) -> (r: bool)
    ensures
        r == has_header(header_views(list@), name@),
{
    let mut i: usize = 0;
    while i < list.len()
        invariant
            i <= list@.len(),
            forall|j: int| 0 <= j < i ==> !name_is(#[trigger] header_views(list@)[j], name@),
        decreases list.len() - i,
    {
        if str_eq_ignore_ascii_case(list[i].name.as_str(), name) {
            proof {
                assert(name_is(header_views(list@)[i as int], name@));
            }
            return true;
        }
        i += 1;
    }
    false
}

/// The list without the headers of the given name.
pub fn remove_header(list: &Vec<Header>, name: &str) -> (r: Vec<Header>)
    ensures
        header_views(r@) == without(header_views(list@), name@),
{
    let mut out: Vec<Header> = Vec::new();
    let mut i: usize = 0;
    while i < list.len()
        invariant
            i <= list@.len(),
            header_views(out@) == without_upto(header_views(list@), name@, i as int),
        decreases list.len() - i,
    {
        let ghost before = header_views(out@);
        if !str_eq_ignore_ascii_case(list[i].name.as_str(), name) {
            out.push(list[i].clone());
            proof {
                assert(header_views(out@) =~= before.push(header_views(list@)[i as int]));
            }
        }
        i += 1;
    }
    out
}

/// The list with the given header as the only one of its name.
pub fn set_header(list: &Vec<Header>, name: &str, value: &str) -> (r: Vec<Header>)
    ensures
        header_views(r@) == with_header(header_views(list@), name@, value@),
{
    let mut out = remove_header(list, name);
    let ghost before = header_views(out@);
    out.push(Header { name: String::from_str(name), value: String::from_str(value) });
    proof {
        assert(header_views(out@) =~= before.push(HeaderView { name: name@, value: value@ }));
    }
    out
}

/// The list with the given header added unless one of its name is there.
pub fn default_header(list: Vec<Header>, name: &str, value: &str) -> (r: Vec<Header>)
    ensures
        header_views(r@) == with_default(header_views(list@), name@, value@),
{
    if contains_header(&list, name) {
        list
    } else {
        let mut out = list;
        let ghost before = header_views(out@);
        out.push(Header { name: String::from_str(name), value: String::from_str(value) });
        proof {
            assert(header_views(out@) =~= before.push(HeaderView { name: name@, value: value@ }));
        }
        out
    }
}

/// The headers as a header map holds them: of several headers with one name
/// the last one stays.
pub fn convert_headers(headers: &Vec<Header>) -> (r: Vec<Header>)
    ensures
        header_views(r@) == converted(header_views(headers@)),
{
    let mut out: Vec<Header> = Vec::new();
    let mut i: usize = 0;
    while i < headers.len()
        invariant
            i <= headers@.len(),
            header_views(out@) == converted_upto(header_views(headers@), i as int),
        decreases headers.len() - i,
    {
        out = set_header(&out, headers[i].name.as_str(), headers[i].value.as_str());
        i += 1;
    }
    out
}

/// The browser identification that is sent when the client names none.
pub open spec fn browser_agent() -> Seq<char> {
    "Mozilla/5.0 (Macintosh; Intel Mac OS X 10_15_7) AppleWebKit/537.36 (KHTML, like Gecko) Chrome/120.0.0.0 Safari/537.36"@
}

/// The client's headers with the upstream credential in place of the
/// client's own `Authorization`. That header never goes upstream: where the
/// profile has no credential that can be sent, it is dropped.
pub open spec fn with_credential(list: Seq<HeaderView>, api_key: Seq<char>) -> Seq<HeaderView> {
    if api_key.len() > 0 && is_header_value("Bearer "@ + api_key) {
        with_header(list, "authorization"@, "Bearer "@ + api_key)
    } else {
        without(list, "authorization"@)
    }
}

/// The headers of the upstream request: the client's, with the upstream
/// credential, a content type and a browser identification where the client
/// named none, and without the headers that belong to the client's own
/// connection.
pub open spec fn upstream_header_views(client: Seq<HeaderView>, api_key: Seq<char>) -> Seq<
    HeaderView,
> {
    let credentialed = with_credential(converted(client), api_key);
    let typed = with_default(credentialed, "content-type"@, "application/json"@);
    let agented = with_default(typed, "user-agent"@, browser_agent());
    without(
        without(without(without(agented, "host"@), "connection"@), "x-api-key"@),
        "content-length"@,
    )
}

/// The headers of the upstream request.
pub fn upstream_headers(client: &Vec<Header>, api_key: &str) -> (r: Vec<Header>)
    ensures
        header_views(r@) == upstream_header_views(header_views(client@), api_key@),
{
    let converted = convert_headers(client);
    let credential = concat("Bearer ", api_key);
    let mut list = if !api_key.is_empty() && valid_header_value(credential.as_str()) {
        set_header(&converted, "authorization", credential.as_str())
    } else {
        remove_header(&converted, "authorization")
    };
    list = default_header(list, "content-type", "application/json");
    list =
    default_header(
        list,
        "user-agent",
        "Mozilla/5.0 (Macintosh; Intel Mac OS X 10_15_7) AppleWebKit/537.36 (KHTML, like Gecko) Chrome/120.0.0.0 Safari/537.36",
    );
    list = remove_header(&list, "host");
    list = remove_header(&list, "connection");
    list = remove_header(&list, "x-api-key");
    list = remove_header(&list, "content-length");
    list
}

/// True for the headers of an upstream answer that describe a body encoding
/// which the relayed body no longer has.
pub open spec fn is_encoding_header(header: HeaderView) -> bool {
    name_is(header, "content-encoding"@) || name_is(header, "content-length"@) || name_is(
        header,
        "transfer-encoding"@,
    )
}

/// The first `upto` headers of an upstream answer as they are relayed.
pub open spec fn relayed_upto(list: Seq<HeaderView>, upto: int) -> Seq<HeaderView>
    decreases upto,
{
    if upto <= 0 {
        Seq::<HeaderView>::empty()
    } else {
        let rest = relayed_upto(list, upto - 1);
        if is_encoding_header(list[upto - 1]) {
            rest
        } else {
            with_header(rest, list[upto - 1].name, list[upto - 1].value)
        }
    }
}

/// The headers of an upstream answer as they are relayed to the client:
/// without the encoding headers, each remaining one replacing earlier ones of
/// its name.
pub open spec fn relayed(list: Seq<HeaderView>) -> Seq<HeaderView> {
    relayed_upto(list, list.len() as int)
}

/// The headers of an upstream answer as they are relayed to the client.
pub fn relay_headers(upstream: &Vec<Header>) -> (r: Vec<Header>)
    ensures
        header_views(r@) == relayed(header_views(upstream@)),
{
    let mut out: Vec<Header> = Vec::new();
    let mut i: usize = 0;
    while i < upstream.len()
        invariant
            i <= upstream@.len(),
            header_views(out@) == relayed_upto(header_views(upstream@), i as int),
        decreases upstream.len() - i,
    {
        let name = upstream[i].name.as_str();
        let skip = str_eq_ignore_ascii_case(name, "content-encoding") || str_eq_ignore_ascii_case(
            name,
            "content-length",
        ) || str_eq_ignore_ascii_case(name, "transfer-encoding");
        if !skip {
            out = set_header(&out, name, upstream[i].value.as_str());
        }
        i += 1;
    }
    out
}

/// No header of the removed name is left.
pub proof fn lemma_without_has_none(list: Seq<HeaderView>, name: Seq<char>, upto: int)
    requires
        0 <= upto <= list.len(),
    ensures
        !has_header(without_upto(list, name, upto), name),
    decreases upto,
{
    if upto > 0 {
        lemma_without_has_none(list, name, upto - 1);
        let rest = without_upto(list, name, upto - 1);
        let out = without_upto(list, name, upto);
        assert forall|i: int| 0 <= i < out.len() implies !name_is(#[trigger] out[i], name) by {
            if i < rest.len() {
                assert(out[i] == rest[i]);
            }
        }
    }
}

/// Removing one name leaves every header of another name out that was out.
pub proof fn lemma_without_keeps_absent(
    list: Seq<HeaderView>,
    name: Seq<char>,
    other: Seq<char>,
    upto: int,
)
    requires
        0 <= upto <= list.len(),
        !has_header(list, other),
    ensures
        !has_header(without_upto(list, name, upto), other),
    decreases upto,
{
    if upto > 0 {
        lemma_without_keeps_absent(list, name, other, upto - 1);
        let rest = without_upto(list, name, upto - 1);
        let out = without_upto(list, name, upto);
        assert forall|i: int| 0 <= i < out.len() implies !name_is(#[trigger] out[i], other) by {
            if i < rest.len() {
                assert(out[i] == rest[i]);
            } else {
                assert(out[i] == list[upto - 1]);
            }
        }
    }
}

/// The upstream request never carries the client's `Host`, `Connection`,
/// `Content-Length` or `x-api-key`.
pub proof fn lemma_upstream_drops_hop_headers(client: Seq<HeaderView>, api_key: Seq<char>)
    ensures
        !has_header(upstream_header_views(client, api_key), "host"@),
        !has_header(upstream_header_views(client, api_key), "connection"@),
        !has_header(upstream_header_views(client, api_key), "x-api-key"@),
        !has_header(upstream_header_views(client, api_key), "content-length"@),
{
    let credentialed = with_credential(converted(client), api_key);
    let typed = with_default(credentialed, "content-type"@, "application/json"@);
    let agented = with_default(typed, "user-agent"@, browser_agent());
    let a = without(agented, "host"@);
    let b = without(a, "connection"@);
    let c = without(b, "x-api-key"@);
    lemma_without_has_none(agented, "host"@, agented.len() as int);
    lemma_without_keeps_absent(a, "connection"@, "host"@, a.len() as int);
    lemma_without_has_none(a, "connection"@, a.len() as int);
    lemma_without_keeps_absent(b, "x-api-key"@, "host"@, b.len() as int);
    lemma_without_keeps_absent(b, "x-api-key"@, "connection"@, b.len() as int);
    lemma_without_has_none(b, "x-api-key"@, b.len() as int);
    lemma_without_keeps_absent(c, "content-length"@, "host"@, c.len() as int);
    lemma_without_keeps_absent(c, "content-length"@, "connection"@, c.len() as int);
    lemma_without_keeps_absent(c, "content-length"@, "x-api-key"@, c.len() as int);
    lemma_without_has_none(c, "content-length"@, c.len() as int);
}

/// The number of headers of the given name among the first `upto`.
pub open spec fn count_named(list: Seq<HeaderView>, name: Seq<char>, upto: int) -> nat
    decreases upto,
{
    if upto <= 0 {
        0
    } else {
        count_named(list, name, upto - 1) + if name_is(list[upto - 1], name) {
            1nat
        } else {
            0nat
        }
    }
}

/// True when exactly one header of the list bears the name, and it has the
/// value.
pub open spec fn carries_only(list: Seq<HeaderView>, name: Seq<char>, value: Seq<char>) -> bool {
    &&& count_named(list, name, list.len() as int) == 1
    &&& forall|i: int|
        0 <= i < list.len() && name_is(#[trigger] list[i], name) ==> list[i].value == value
}

proof fn lemma_count_same_prefix(a: Seq<HeaderView>, b: Seq<HeaderView>, name: Seq<char>, upto: int)
    requires
        0 <= upto <= a.len(),
        upto <= b.len(),
        forall|i: int| 0 <= i < upto ==> a[i] == b[i],
    ensures
        count_named(a, name, upto) == count_named(b, name, upto),
    decreases upto,
{
    if upto > 0 {
        lemma_count_same_prefix(a, b, name, upto - 1);
    }
}

proof fn lemma_count_push(list: Seq<HeaderView>, last: HeaderView, name: Seq<char>)
    ensures
        count_named(list.push(last), name, list.len() as int + 1) == count_named(
            list,
            name,
            list.len() as int,
        ) + if name_is(last, name) {
            1nat
        } else {
            0nat
        },
{
    lemma_count_same_prefix(list.push(last), list, name, list.len() as int);
}

proof fn lemma_count_of_absent(list: Seq<HeaderView>, name: Seq<char>, upto: int)
    requires
        0 <= upto <= list.len(),
        !has_header(list, name),
    ensures
        count_named(list, name, upto) == 0,
    decreases upto,
{
    if upto > 0 {
        lemma_count_of_absent(list, name, upto - 1);
        assert(!name_is(list[upto - 1], name));
    }
}

proof fn lemma_without_keeps_others(
    list: Seq<HeaderView>,
    other: Seq<char>,
    name: Seq<char>,
    value: Seq<char>,
    upto: int,
)
    requires
        0 <= upto <= list.len(),
        utf8(name).len() != utf8(other).len(),
        forall|i: int|
            0 <= i < list.len() && name_is(#[trigger] list[i], name) ==> list[i].value == value,
    ensures
        count_named(
            without_upto(list, other, upto),
            name,
            without_upto(list, other, upto).len() as int,
        ) == count_named(list, name, upto),
        forall|k: int|
            0 <= k < without_upto(list, other, upto).len() && name_is(
                #[trigger] without_upto(list, other, upto)[k],
                name,
            ) ==> without_upto(list, other, upto)[k].value == value,
    decreases upto,
{
    if upto > 0 {
        lemma_without_keeps_others(list, other, name, value, upto - 1);
        let rest = without_upto(list, other, upto - 1);
        let out = without_upto(list, other, upto);
        let last = list[upto - 1];
        if name_is(last, other) {
            assert(!name_is(last, name));
        } else {
            lemma_count_push(rest, last, name);
            assert forall|k: int| 0 <= k < out.len() && name_is(#[trigger] out[k], name) implies out[k].value
                == value by {
                if k < rest.len() {
                    assert(out[k] == rest[k]);
                }
            }
        }
    }
}

proof fn lemma_with_default_keeps(
    list: Seq<HeaderView>,
    name: Seq<char>,
    value: Seq<char>,
    other: Seq<char>,
    other_value: Seq<char>,
)
    requires
        carries_only(list, name, value),
        utf8(name).len() != utf8(other).len(),
    ensures
        carries_only(with_default(list, other, other_value), name, value),
{
    if !has_header(list, other) {
        let added = HeaderView { name: other, value: other_value };
        let out = list.push(added);
        lemma_count_push(list, added, name);
        assert(!name_is(added, name));
        assert forall|i: int| 0 <= i < out.len() && name_is(#[trigger] out[i], name) implies out[i].value
            == value by {
            if i < list.len() {
                assert(out[i] == list[i]);
            }
        }
    }
}

proof fn lemma_with_header_carries(list: Seq<HeaderView>, name: Seq<char>, value: Seq<char>)
    ensures
        carries_only(with_header(list, name, value), name, value),
{
    let kept = without(list, name);
    let added = HeaderView { name, value };
    let out = kept.push(added);
    lemma_without_has_none(list, name, list.len() as int);
    lemma_count_of_absent(kept, name, kept.len() as int);
    lemma_count_push(kept, added, name);
    assert(name_is(added, name));
    assert forall|i: int| 0 <= i < out.len() && name_is(#[trigger] out[i], name) implies out[i].value
        == value by {
        if i < kept.len() {
            assert(out[i] == kept[i]);
            assert(!name_is(kept[i], name));
        }
    }
}

proof fn lemma_with_default_keeps_absent(
    list: Seq<HeaderView>,
    name: Seq<char>,
    other: Seq<char>,
    other_value: Seq<char>,
)
    requires
        !has_header(list, name),
        utf8(name).len() != utf8(other).len(),
    ensures
        !has_header(with_default(list, other, other_value), name),
{
    let out = with_default(list, other, other_value);
    assert forall|i: int| 0 <= i < out.len() implies !name_is(#[trigger] out[i], name) by {
        if i < list.len() {
            assert(out[i] == list[i]);
        }
    }
}

proof fn lemma_name_length(name: Seq<char>)
    requires
        vstd::utf8::is_ascii_chars(name),
    ensures
        utf8(name).len() == name.len(),
{
    vstd::utf8::is_ascii_chars_encode_utf8(name);
}

/// Where the profile has a credential that can be sent, the upstream
/// request carries it as its only `Authorization` header, whatever the
/// client sent.
pub proof fn lemma_upstream_carries_the_credential(client: Seq<HeaderView>, api_key: Seq<char>)
    requires
        api_key.len() > 0,
        is_header_value("Bearer "@ + api_key),
    ensures
        carries_only(
            upstream_header_views(client, api_key),
            "authorization"@,
            "Bearer "@ + api_key,
        ),
{
    let name = "authorization"@;
    let value = "Bearer "@ + api_key;
    reveal_strlit("authorization");
    reveal_strlit("content-type");
    reveal_strlit("user-agent");
    reveal_strlit("host");
    reveal_strlit("connection");
    reveal_strlit("x-api-key");
    reveal_strlit("content-length");
    lemma_name_length("authorization"@);
    lemma_name_length("content-type"@);
    lemma_name_length("user-agent"@);
    lemma_name_length("host"@);
    lemma_name_length("connection"@);
    lemma_name_length("x-api-key"@);
    lemma_name_length("content-length"@);
    let credentialed = with_credential(converted(client), api_key);
    lemma_with_header_carries(converted(client), name, value);
    let typed = with_default(credentialed, "content-type"@, "application/json"@);
    lemma_with_default_keeps(credentialed, name, value, "content-type"@, "application/json"@);
    let agented = with_default(typed, "user-agent"@, browser_agent());
    lemma_with_default_keeps(typed, name, value, "user-agent"@, browser_agent());
    let a = without(agented, "host"@);
    lemma_without_keeps_others(agented, "host"@, name, value, agented.len() as int);
    let b = without(a, "connection"@);
    lemma_without_keeps_others(a, "connection"@, name, value, a.len() as int);
    let c = without(b, "x-api-key"@);
    lemma_without_keeps_others(b, "x-api-key"@, name, value, b.len() as int);
    lemma_without_keeps_others(c, "content-length"@, name, value, c.len() as int);
}

/// Where the profile has no credential that can be sent, the upstream
/// request carries no `Authorization` header: the client's own, which holds
/// the proxy's key, stays behind.
pub proof fn lemma_upstream_drops_the_clients_credential(
    client: Seq<HeaderView>,
    api_key: Seq<char>,
)
    requires
        !(api_key.len() > 0 && is_header_value("Bearer "@ + api_key)),
    ensures
        !has_header(upstream_header_views(client, api_key), "authorization"@),
{
    let name = "authorization"@;
    reveal_strlit("authorization");
    reveal_strlit("content-type");
    reveal_strlit("user-agent");
    lemma_name_length("authorization"@);
    lemma_name_length("content-type"@);
    lemma_name_length("user-agent"@);
    let credentialed = with_credential(converted(client), api_key);
    lemma_without_has_none(converted(client), name, converted(client).len() as int);
    let typed = with_default(credentialed, "content-type"@, "application/json"@);
    lemma_with_default_keeps_absent(credentialed, name, "content-type"@, "application/json"@);
    let agented = with_default(typed, "user-agent"@, browser_agent());
    lemma_with_default_keeps_absent(typed, name, "user-agent"@, browser_agent());
    let a = without(agented, "host"@);
    lemma_without_keeps_absent(agented, "host"@, name, agented.len() as int);
    let b = without(a, "connection"@);
    lemma_without_keeps_absent(a, "connection"@, name, a.len() as int);
    let c = without(b, "x-api-key"@);
    lemma_without_keeps_absent(b, "x-api-key"@, name, b.len() as int);
    lemma_without_keeps_absent(c, "content-length"@, name, c.len() as int);
}

} // verus!
