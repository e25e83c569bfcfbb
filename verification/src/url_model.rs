//! The parts of a parsed URL that the shell's navigation policy reads.
use vstd::prelude::*;

verus! {

/// A parsed URL as `(scheme, host, explicit port, path, serialization)`.
pub type UrlView = (Seq<char>, Option<Seq<char>>, Option<u16>, Seq<char>, Seq<char>);

/// What `url::Url::parse` makes of `input`, taken apart into `UrlView`; `None` when it
/// rejects the input.
pub uninterp spec fn url_parse(input: Seq<char>) -> Option<
    (Seq<char>, Option<Seq<char>>, Option<u16>, Seq<char>, Seq<char>),
>;

/// The port that `url::Url::port_or_known_default` reports: the explicit port, else the
/// default port of the five schemes that the `url` crate knows.
pub open spec fn port_or_known_default_spec(scheme: Seq<char>, port: Option<u16>) -> Option<u16> {
    match port {
        Some(p) => Some(p),
        None => if scheme == "http"@ || scheme == "ws"@ {
            Some(80u16)
        } else if scheme == "https"@ || scheme == "wss"@ {
            Some(443u16)
        } else if scheme == "ftp"@ {
            Some(21u16)
        } else {
            None
        },
    }
}

/// What the `url` crate keeps of every URL it parses (its `check_invariants`, which the
/// crate's methods rely on): the serialization begins with the scheme and a colon; parsing the
/// serialization again gives the same scheme, host, port, path and serialization (a URL without
/// a host may come back with an empty one); and an `http` URL's serialization holds only
/// printable ASCII without spaces, since every part of it is percent-encoded with sets that
/// hold the space and the control characters, and non-ASCII bytes are always encoded.
pub open spec fn serialization_is_stable(u: UrlView) -> bool {
    &&& u.4.len() > u.0.len()
    &&& u.4.take(u.0.len() as int) == u.0
    &&& u.4[u.0.len() as int] == ':'
    &&& match url_parse(u.4) {
        Some(q) => q.0 == u.0 && q.2 == u.2 && q.3 == u.3 && q.4 == u.4 && (q.1 == u.1 || (u.1 is None
            && q.1 == Some(Seq::<char>::empty()))),
        None => false,
    }
    &&& u.0 == "http"@ ==> forall|i: int|
        0 <= i < u.4.len() ==> 0x21 <= (#[trigger] u.4[i]) as u32 <= 0x7e
}

/// A URL that parsed, held as plain values.
pub struct UrlParts {
    pub scheme: String,
    pub host: Option<String>,
    pub port: Option<u16>,
    pub port_or_known_default: Option<u16>,
    pub path: String,
    pub serialization: String,
}

pub open spec fn opt_string_view(o: Option<String>) -> Option<Seq<char>> {
    match o {
        Some(s) => Some(s@),
        None => None,
    }
}

impl UrlParts {
    pub open spec fn view(&self) -> UrlView {
        (self.scheme@, opt_string_view(self.host), self.port, self.path@, self.serialization@)
    }

    /// The invariant that every `UrlParts` made by `parse` keeps.
    pub open spec fn wf(&self) -> bool {
        self.port_or_known_default == port_or_known_default_spec(self.scheme@, self.port)
    }

    /// Parses `input` as an absolute URL.
    pub fn parse(input: &str) -> (r: Option<UrlParts>)
        ensures
            match r {
                Some(p) => url_parse(input@) == Some(p.view()) && p.wf() && serialization_is_stable(
                    p.view(),
                ),
                None => url_parse(input@) is None,
            },
    {
        url_parse_parts(input)
    }
}

/// Calls `url::Url::parse` and copies out the scheme, host, port, known-default port, path
/// and serialization. The contract claims that the copied parts are what `url_parse` names
/// for this input, that the known-default port follows the `url` crate's documented rule,
/// and that the serialization is stable as `serialization_is_stable` says.
#[verifier::external_body]
fn url_parse_parts(input: &str) -> (r: Option<UrlParts>)
    ensures
        match r {
            Some(p) => url_parse(input@) == Some(p.view()) && p.wf() && serialization_is_stable(
                p.view(),
            ),
            None => url_parse(input@) is None,
        },
{
    match url::Url::parse(input) {
        Ok(u) => Some(UrlParts {
            scheme: u.scheme().to_string(),
            host: u.host_str().map(str::to_string),
            port: u.port(),
            port_or_known_default: u.port_or_known_default(),
            path: u.path().to_string(),
            serialization: u.as_str().to_string(),
        }),
        Err(_) => None,
    }
}

} // verus!
