//! Request builders that take Basic authentication.

use crate::header::{
    basic_auth_header, credentials, header_value, is_basic_value, is_field_value, text_of,
};
use reqwest::RequestBuilder;
use std::fmt::Display;
use vstd::prelude::*;
use vstd::string::to_string_from_display_ensures;

verus! {

#[verifier::external_type_specification]
#[verifier::external_body]
pub struct ExRequestBuilder(RequestBuilder);

/// Whether the builder still holds a request, and not the error of an
/// earlier step.
pub uninterp spec fn holds_request(builder: RequestBuilder) -> bool;

/// The headers of the request that the builder holds: for each header name,
/// in lower case, its values in the order in which they were added.
pub uninterp spec fn request_headers(builder: RequestBuilder) -> Map<Seq<char>, Seq<Seq<u8>>>;

/// The method of the request that the builder holds, as it is written on
/// the request line.
pub uninterp spec fn request_method(builder: RequestBuilder) -> Seq<char>;

/// The URL of the request that the builder holds, as text.
pub uninterp spec fn request_url(builder: RequestBuilder) -> Seq<char>;

/// The bytes of the body of the request that the builder holds, where it has
/// a body and holds it in memory.
pub uninterp spec fn request_body(builder: RequestBuilder) -> Option<Seq<u8>>;

/// The timeout of the request that the builder holds, in nanoseconds, where
/// one is set.
pub uninterp spec fn request_timeout(builder: RequestBuilder) -> Option<nat>;

/// The protocol version of the request that the builder holds, as it
/// prints.
pub uninterp spec fn request_version(builder: RequestBuilder) -> Seq<char>;

/// What a copy of the builder shows of the number of its header names:
/// nothing where the builder holds an error or a body that cannot be copied.
pub uninterp spec fn counted_names(builder: RequestBuilder) -> Option<usize>;

/// The name of the header that carries the credentials.
pub open spec fn authorization() -> Seq<char> {
    "authorization"@
}

/// The most header names a request may hold for one more header to be
/// accepted whatever the state of its header table. The table of
/// `http::HeaderMap` never has more than 32768 slots, and asks to be doubled
/// no sooner than with a fifth of them taken; the map panics when that is
/// refused.
pub const HEADER_NAME_LIMIT: usize = 6553;

/// Whether a header can be added to `headers`.
pub open spec fn has_room(headers: Map<Seq<char>, Seq<Seq<u8>>>) -> bool {
    headers.dom().finite() && headers.dom().len() <= HEADER_NAME_LIMIT
}

/// `headers` with `value` added under `name`, after the values that the name
/// already has.
pub open spec fn appended(
    headers: Map<Seq<char>, Seq<Seq<u8>>>,
    name: Seq<char>,
    value: Seq<u8>,
) -> Map<Seq<char>, Seq<Seq<u8>>> {
    if headers.contains_key(name) {
        headers.insert(name, headers[name].push(value))
    } else {
        headers.insert(name, seq![value])
    }
}

/// `reqwest::RequestBuilder::header` with `reqwest::header::AUTHORIZATION`
/// as the name. A builder that holds a request keeps it if `value` is
/// acceptable as a header value, and `value` then comes behind the values
/// that the header already has; otherwise the builder holds an error
/// afterwards. Nothing but the headers of the request is touched. The call
/// panics where the header table refuses to grow, which `requires` leaves
/// out.
#[verifier::external_body]
pub(crate) fn append_authorization(builder: RequestBuilder, value: Vec<u8>) -> (out: RequestBuilder)
    requires
        holds_request(builder) ==> has_room(request_headers(builder)),
    ensures
        holds_request(out) == (holds_request(builder) && is_field_value(value@)),
        holds_request(out) ==> request_headers(out) == appended(
            request_headers(builder),
            authorization(),
            value@,
        ),
        holds_request(out) ==> request_method(out) == request_method(builder),
        holds_request(out) ==> request_url(out) == request_url(builder),
        holds_request(out) ==> request_body(out) == request_body(builder),
        holds_request(out) ==> request_timeout(out) == request_timeout(builder),
        holds_request(out) ==> request_version(out) == request_version(builder),
{
    builder.header(reqwest::header::AUTHORIZATION, value)
}

/// `reqwest::RequestBuilder::try_clone`, `build` on the copy and
/// `http::HeaderMap::keys_len` on its headers: the number of header names of
/// the request, where the builder holds a request that can be copied.
#[verifier::external_body]
pub(crate) fn count_header_names(builder: &RequestBuilder) -> (count: Option<usize>)
    ensures
        count == counted_names(*builder),
        count is Some ==> holds_request(*builder),
        count is Some ==> request_headers(*builder).dom().finite(),
        count is Some ==> request_headers(*builder).dom().len() == count->Some_0,
{
    match builder.try_clone()?.build() {
        Ok(request) => Some(request.headers().keys_len()),
        Err(_) => None,
    }
}

/// Whether the builder is seen to have room for one more header.
pub open spec fn seen_to_have_room(builder: RequestBuilder) -> bool {
    counted_names(builder) is Some && counted_names(builder)->Some_0 <= HEADER_NAME_LIMIT
}

/// Whether `out` has the method, the URL, the body, the timeout and the
/// version of `builder`.
pub open spec fn same_apart_from_headers(builder: RequestBuilder, out: RequestBuilder) -> bool {
    &&& request_method(out) == request_method(builder)
    &&& request_url(out) == request_url(builder)
    &&& request_body(out) == request_body(builder)
    &&& request_timeout(out) == request_timeout(builder)
    &&& request_version(out) == request_version(builder)
}

/// Adds the `Authorization` header for credentials given as text, behind
/// the headers that the request already has.
pub fn authorize(
    builder: RequestBuilder,
    username: &str,
    password: Option<&str>,
) -> (out: RequestBuilder)
    requires
        builder.accepts_header(),
    ensures
        builder.authorized(header_value(username@, text_of(password)), &out),
        is_basic_value(
            header_value(username@, text_of(password)),
            credentials(username@, text_of(password)).len(),
        ),
{
    let value = basic_auth_header(username, password);
    append_authorization(builder, value)
}

/// Adds the header as `authorize` does where the builder is seen to have
/// room for it, and hands the builder back as it came where it is not.
pub fn try_authorize(
    builder: RequestBuilder,
    username: &str,
    password: Option<&str>,
) -> (out: Result<RequestBuilder, RequestBuilder>)
    ensures
        out is Ok <==> seen_to_have_room(builder),
        out is Ok ==> holds_request(builder) && builder.accepts_header(),
        out matches Ok(sent) ==> builder.authorized(
            header_value(username@, text_of(password)),
            &sent,
        ),
        out is Ok ==> is_basic_value(
            header_value(username@, text_of(password)),
            credentials(username@, text_of(password)).len(),
        ),
        out matches Err(back) ==> back == builder,
{
    match count_header_names(&builder) {
        Some(count) => {
            if count <= HEADER_NAME_LIMIT {
                Ok(authorize(builder, username, password))
            } else {
                Err(builder)
            }
        },
        None => Err(builder),
    }
}

/// Whether `value` shows as `text`.
pub open spec fn shows<T: Display>(value: T, text: Seq<char>) -> bool {
    exists|shown: String|
        #[trigger] to_string_from_display_ensures::<T>(&value, shown) && shown@ == text
}

/// Whether an optional value shows as `text`: nothing shows as nothing.
pub open spec fn shows_if_present<T: Display>(value: Option<T>, text: Option<Seq<char>>) -> bool {
    match value {
        Some(value) => text is Some && shows(value, text->Some_0),
        None => text is None,
    }
}

/// Basic authentication on a request builder, on every target.
pub trait ReqwestExt: Sized {
    /// Whether the builder can take the header.
    spec fn accepts_header(&self) -> bool;

    /// Whether `out` is `self` with `value` added as an `Authorization`
    /// header, and everything else about it as it was.
    spec fn authorized(&self, value: Seq<u8>, out: &Self) -> bool;

    /// Whether `out` is `self` authorized with the header value of
    /// `username` and `password` as they show, a value of the shape that
    /// their length asks for.
    open spec fn authorized_as<U: Display, P: Display>(
        &self,
        username: U,
        password: Option<P>,
        out: &Self,
    ) -> bool {
        exists|user: Seq<char>, pass: Option<Seq<char>>|
            {
                &&& shows(username, user)
                &&& shows_if_present(password, pass)
                &&& is_basic_value(header_value(user, pass), credentials(user, pass).len())
                &&& #[trigger] self.authorized(header_value(user, pass), out)
            }
    }

    /// Adds the `Authorization` header for `username` and `password`, as
    /// they show, to the request.
    fn basic_auth<U, P>(self, username: U, password: Option<P>) -> (out: Self) where
        U: Display,
        P: Display,

        requires
            self.accepts_header(),
        ensures
            self.authorized_as(username, password, &out),
    ;

    /// The same as `basic_auth`, under a name that no method of the builder
    /// itself has.
    fn basic_auth_ext<U, P>(self, username: U, password: Option<P>) -> (out: Self) where
        U: Display,
        P: Display,

        requires
            self.accepts_header(),
        ensures
            self.authorized_as(username, password, &out),
    {
        self.basic_auth(username, password)
    }
}

impl ReqwestExt for RequestBuilder {
    open spec fn accepts_header(&self) -> bool {
        holds_request(*self) ==> has_room(request_headers(*self))
    }

    open spec fn authorized(&self, value: Seq<u8>, out: &Self) -> bool {
        &&& holds_request(*out) == holds_request(*self)
        &&& holds_request(*self) ==> request_headers(*out) == appended(
            request_headers(*self),
            authorization(),
            value,
        )
        &&& holds_request(*self) ==> same_apart_from_headers(*self, *out)
    }

    fn basic_auth<U, P>(self, username: U, password: Option<P>) -> (out: RequestBuilder) where
        U: Display,
        P: Display,
    {
        let user = username.to_string();
        let pass: Option<String> = match &password {
            Some(password) => Some(password.to_string()),
            None => None,
        };
        let out = match &pass {
            Some(pass) => authorize(self, user.as_str(), Some(pass.as_str())),
            None => authorize(self, user.as_str(), None),
        };
        proof {
            let pass_text: Option<Seq<char>> = match pass {
                Some(pass) => Some(pass@),
                None => None,
            };
            assert(shows(username, user@));
            assert(shows_if_present(password, pass_text));
            assert(is_basic_value(
                header_value(user@, pass_text),
                credentials(user@, pass_text).len(),
            ));
            assert(self.authorized(header_value(user@, pass_text), &out));
        }
        out
    }
}

/// Authorizing a request leaves every other header as it was, puts the new
/// value behind the `Authorization` values that were there before, and
/// leaves method, URL, body, timeout and version alone.
pub proof fn other_headers_kept(
    builder: RequestBuilder,
    value: Seq<u8>,
    out: RequestBuilder,
    name: Seq<char>,
)
    requires
        holds_request(builder),
        builder.authorized(value, &out),
    ensures
        holds_request(out),
        name != authorization() ==> (request_headers(out).contains_key(name)
            <==> request_headers(builder).contains_key(name)),
        name != authorization() ==> request_headers(out)[name] == request_headers(builder)[name],
        request_headers(builder).contains_key(name) ==> request_headers(out).contains_key(name),
        request_headers(out).contains_key(authorization()),
        request_headers(out)[authorization()] == earlier_values(builder).push(value),
        same_apart_from_headers(builder, out),
{
}

/// The `Authorization` values that the request has so far.
pub open spec fn earlier_values(builder: RequestBuilder) -> Seq<Seq<u8>> {
    if request_headers(builder).contains_key(authorization()) {
        request_headers(builder)[authorization()]
    } else {
        Seq::<Seq<u8>>::empty()
    }
}

/// Authorizing twice with one value leaves the value twice behind the
/// earlier ones, each time whole, and everything else as it was.
pub proof fn authorized_twice(
    builder: RequestBuilder,
    value: Seq<u8>,
    once: RequestBuilder,
    twice: RequestBuilder,
    name: Seq<char>,
)
    requires
        holds_request(builder),
        builder.authorized(value, &once),
        once.authorized(value, &twice),
    ensures
        holds_request(twice),
        request_headers(twice)[authorization()] == earlier_values(builder).push(value).push(value),
        name != authorization() ==> (request_headers(twice).contains_key(name)
            <==> request_headers(builder).contains_key(name)),
        name != authorization() ==> request_headers(twice)[name] == request_headers(builder)[name],
        same_apart_from_headers(builder, twice),
{
    other_headers_kept(builder, value, once, name);
    other_headers_kept(once, value, twice, name);
}

} // verus!
