//! Lazily connecting TLS channels to node endpoints, each kept together with the URI it
//! was opened for.

use vstd::prelude::*;

use tokio::runtime::Handle;
use tonic::transport::{Channel, ClientTlsConfig, Uri};

use crate::nodes::node_uri_text;

verus! {

/// `tonic::transport::Channel`, a handle on a gRPC channel; opaque here.
#[verifier::external_type_specification]
#[verifier::external_body]
pub struct ExChannel(Channel);

/// `tokio::runtime::Handle`, a handle on a Tokio runtime; opaque here.
#[verifier::external_type_specification]
#[verifier::external_body]
pub struct ExHandle(Handle);

/// `Channel::clone` (derived over the channel's buffer handle) gives another handle on the
/// same channel worker: as a value here, the same channel.
pub assume_specification[ <Channel as Clone>::clone ](c: &Channel) -> (r: Channel)
    ensures
        r == *c,
;

/// Why a channel could not be opened.
#[derive(Debug)]
pub enum ChannelSetupError {
    /// The endpoint text is not a URI; the parser's message.
    InvalidUri(String),
    /// The TLS configuration was refused for the URI; the transport's message.
    Tls(String),
}

/// A lazily connecting TLS channel and the URI it connects to. Only [`open_channel`]
/// makes one, so the channel always reaches the endpoint it names.
#[derive(Clone)]
pub struct NodeChannel {
    channel: Channel,
    endpoint: String,
}

/// What parsing `text` as a URI (`str::parse::<tonic::transport::Uri>`) fails with:
/// `None` when it parses, else the error's message.
pub uninterp spec fn uri_parse_outcome(text: Seq<char>) -> Option<Seq<char>>;

/// What `Endpoint::tls_config` with `ClientTlsConfig::new().with_webpki_roots()` fails with
/// for the URI parsed from `uri_text`: `None` when it is accepted, else the error's message.
pub uninterp spec fn tls_setup_outcome(uri_text: Seq<char>) -> Option<Seq<char>>;

/// An ASCII lower-case letter or digit.
pub open spec fn is_lower_alnum(c: char) -> bool {
    ('a' <= c && c <= 'z') || ('0' <= c && c <= '9')
}

/// Reading `h` from position `i`, in a label that so far has `run` characters (`letter`
/// when one of them is a letter): the rest is dot-separated labels of 1 to 63 lower-case
/// letters and digits, and the last label holds a letter.
pub open spec fn plain_labels_from(h: Seq<char>, i: nat, run: nat, letter: bool) -> bool
    decreases h.len() - i,
{
    if i >= h.len() {
        run >= 1 && letter
    } else if h[i as int] == '.' {
        run >= 1 && plain_labels_from(h, i + 1, 0, false)
    } else {
        &&& is_lower_alnum(h[i as int])
        &&& run < 63
        &&& plain_labels_from(h, i + 1, run + 1, letter || ('a' <= h[i as int] && h[i as int] <= 'z'))
    }
}

/// A host name that every part of the channel set-up accepts: at most 253 characters of
/// dot-separated labels of 1 to 63 lower-case letters and digits, the last holding a letter.
pub open spec fn plain_dns_name(h: Seq<char>) -> bool {
    h.len() <= 253 && plain_labels_from(h, 0, 0, false)
}

impl NodeChannel {
    /// The URI the channel was opened for.
    pub closed spec fn endpoint_text(&self) -> Seq<char> {
        self.endpoint@
    }

    /// The channel handle itself.
    pub closed spec fn handle(&self) -> Channel {
        self.channel
    }

    /// The gRPC channel.
    pub fn channel(&self) -> (r: &Channel)
        ensures
            *r == self.handle(),
    {
        &self.channel
    }

    /// The URI the channel was opened for.
    pub fn endpoint(&self) -> (r: &str)
        ensures
            r@ == self.endpoint_text(),
    {
        self.endpoint.as_str()
    }

    /// Another handle on the same channel.
    pub fn duplicate(&self) -> (r: NodeChannel)
        ensures
            r.handle() == self.handle(),
            r.endpoint_text() == self.endpoint_text(),
    {
        NodeChannel { channel: self.channel.clone(), endpoint: self.endpoint.clone() }
    }
}

/// Parses `uri_text` (`str::parse::<Uri>`), configures TLS on `Channel::builder(uri)`
/// (`Endpoint::tls_config` with `ClientTlsConfig::new().with_webpki_roots()`), enters
/// `runtime` (`Handle::enter`) and calls `Endpoint::connect_lazy`, which spawns the channel's
/// worker on that runtime. Claimed: a parse error gives its message as `InvalidUri`; else a
/// TLS error gives its message as `Tls`; else the channel comes back with `uri_text`. The
/// TLS step reads only the URI's host (a `ServerName`) and the fixed webpki roots. Claimed
/// too, from `http`'s authority parser and `rustls-pki-types`' DNS-name check: a URI
/// `https://{host}:{port}` whose host is a [`plain_dns_name`] passes both steps. Left unsaid:
/// `Handle::enter` panics if the calling thread's thread-local storage is already being torn
/// down (a thread that is exiting), which no precondition here can express.
#[verifier::external_body]
pub(crate) fn open_channel(uri_text: &str, runtime: &Handle) -> (r: Result<
    NodeChannel,
    ChannelSetupError,
>)
    ensures
        match uri_parse_outcome(uri_text@) {
            Some(m) => r matches Err(ChannelSetupError::InvalidUri(e)) && e@ == m,
            None => match tls_setup_outcome(uri_text@) {
                Some(m) => r matches Err(ChannelSetupError::Tls(e)) && e@ == m,
                None => r matches Ok(c) && c.endpoint_text() == uri_text@,
            },
        },
        (exists|h: Seq<char>, port: u16|
            #![trigger node_uri_text(h, port)]
            uri_text@ == node_uri_text(h, port) && plain_dns_name(h)) ==> r is Ok,
{
    let uri = match uri_text.parse::<Uri>() {
        Ok(u) => u,
        Err(e) => return Err(ChannelSetupError::InvalidUri(e.to_string())),
    };
    match Channel::builder(uri).tls_config(ClientTlsConfig::new().with_webpki_roots()) {
        Ok(ep) => {
            let _entered = runtime.enter();
            Ok(NodeChannel { channel: ep.connect_lazy(), endpoint: uri_text.to_owned() })
        },
        Err(e) => Err(ChannelSetupError::Tls(e.to_string())),
    }
}

} // verus!
