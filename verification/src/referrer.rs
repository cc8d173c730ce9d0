//! What a request tells of where it comes from.

use crate::headers::{with_header, HeaderView, Headers};
use crate::request::{Referrer, ReferrerPolicy, ReferrerView, Request, RequestView};
use crate::text::text_eq;
use crate::web_url::{resolved, same_origin, Url, UrlView};
use vstd::prelude::*;
use vstd::string::*;

verus! {

/// The policy of a request that names none.
pub open spec fn policy_of(request: RequestView) -> ReferrerPolicy {
    match request.referrer_policy {
        Some(p) => p,
        None => ReferrerPolicy::NoReferrerWhenDowngrade,
    }
}

/// How much of the referrer a request tells.
#[derive(Clone, Copy, Debug, PartialEq, Eq, Structural)]
pub enum Disclosure {
    /// Nothing.
    Nothing,
    /// The origin: the URL without path, query and fragment.
    OriginOnly,
    /// The URL without its fragment.
    WholeUrl,
}

/// How much of the referrer `referrer` a request to `target` tells under
/// `policy`. The request crosses origins where the two URLs are not of the
/// same origin, and is a downgrade where it goes from `https` to another
/// scheme.
pub open spec fn disclosure(policy: ReferrerPolicy, referrer: UrlView, target: UrlView) -> Disclosure {
    let crosses = !same_origin(referrer.origin, target.origin);
    let downgrade = referrer.scheme == "https"@ && target.scheme != "https"@;
    match policy {
        ReferrerPolicy::NoReferrer => Disclosure::Nothing,
        ReferrerPolicy::NoReferrerWhenDowngrade => if downgrade {
            Disclosure::Nothing
        } else {
            Disclosure::WholeUrl
        },
        ReferrerPolicy::Origin => Disclosure::OriginOnly,
        ReferrerPolicy::SameOrigin => if crosses {
            Disclosure::Nothing
        } else {
            Disclosure::WholeUrl
        },
        ReferrerPolicy::OriginWhenCrossOrigin => if crosses {
            Disclosure::OriginOnly
        } else {
            Disclosure::WholeUrl
        },
        ReferrerPolicy::UnsafeUrl => Disclosure::WholeUrl,
    }
}

/// The reference that, read against a URL, gives what is told of it.
pub open spec fn reference_for(d: Disclosure) -> Seq<char> {
    match d {
        Disclosure::OriginOnly => "/"@,
        _ => ""@,
    }
}

/// The value of the `Referer` header of a request, where it has one: a
/// request whose referrer is a URL tells as much of it as its policy lets it;
/// what is told is the URL that the empty reference, or `/` for the origin
/// alone, resolves to against the referrer.
pub open spec fn referer_value(request: RequestView) -> Option<Seq<char>> {
    match request.referrer {
        ReferrerView::ReferrerUrl(referrer) => {
            let d = disclosure(policy_of(request), referrer, request.url);
            if d is Nothing {
                None
            } else {
                match resolved(Some(referrer.serialization), reference_for(d)) {
                    Some(told) => Some(told.serialization),
                    None => None,
                }
            }
        },
        _ => None,
    }
}

/// `hs` with the `Referer` of the request, where it has one.
pub open spec fn with_referer(hs: Seq<HeaderView>, request: RequestView) -> Seq<HeaderView> {
    match referer_value(request) {
        Some(v) => with_header(hs, "Referer"@, v),
        None => hs,
    }
}

/// How much of `referrer` a request to `target` tells under `policy`.
pub fn disclosure_for(policy: ReferrerPolicy, referrer: &Url, target: &Url) -> (r: Disclosure)
    ensures
        r == disclosure(policy, referrer@, target@),
{
    let crosses = !referrer.origin().same_origin(&target.origin());
    let downgrade = text_eq(referrer.scheme(), "https") && !text_eq(target.scheme(), "https");
    match policy {
        ReferrerPolicy::NoReferrer => Disclosure::Nothing,
        ReferrerPolicy::NoReferrerWhenDowngrade => if downgrade {
            Disclosure::Nothing
        } else {
            Disclosure::WholeUrl
        },
        ReferrerPolicy::Origin => Disclosure::OriginOnly,
        ReferrerPolicy::SameOrigin => if crosses {
            Disclosure::Nothing
        } else {
            Disclosure::WholeUrl
        },
        ReferrerPolicy::OriginWhenCrossOrigin => if crosses {
            Disclosure::OriginOnly
        } else {
            Disclosure::WholeUrl
        },
        ReferrerPolicy::UnsafeUrl => Disclosure::WholeUrl,
    }
}

/// The value of the `Referer` header of a request, where it has one.
pub fn referer_of(request: &Request) -> (r: Option<String>)
    ensures
        match r {
            Some(v) => referer_value(request@) == Some(v@),
            None => referer_value(request@) is None,
        },
{
    match &request.referrer {
        Referrer::ReferrerUrl(referrer) => {
            let policy = match request.referrer_policy {
                Some(p) => p,
                None => ReferrerPolicy::NoReferrerWhenDowngrade,
            };
            let told = match disclosure_for(policy, referrer, &request.url) {
                Disclosure::Nothing => {
                    return None;
                },
                Disclosure::OriginOnly => referrer.join("/"),
                Disclosure::WholeUrl => referrer.join(""),
            };
            match told {
                Some(u) => Some(u.as_str().to_owned()),
                None => None,
            }
        },
        _ => None,
    }
}

/// Sets the `Referer` of the request in `headers`, where it has one.
pub fn set_referer(headers: &mut Headers, request: &Request)
    ensures
        final(headers)@ == with_referer(old(headers)@, request@),
{
    match referer_of(request) {
        Some(v) => headers.set("Referer", v.as_str()),
        None => {},
    }
}

} // verus!
