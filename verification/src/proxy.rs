//! The proxy's decisions for one exchange: which target a request goes to,
//! how it is rewritten for that target, and how the exchange ends.

use crate::audit::{audit_text, lemma_audit_names_responder, log_request_response, reason_phrase};
use crate::text::occurs_at;
use crate::config::{admits, Target, TargetView};
use crate::headers::{
    append_forwarded, lines, remove_hop_headers, remove_named, with_forwarded,
    without_hop_headers, without_name, Header, HeaderLine,
};
use crate::uri::{parse_uri, parsed_uri, Uri, UriParts};
use vstd::prelude::*;

verus! {

/// The head of a request: method, URI and header fields.
#[derive(Debug, PartialEq, Eq)]
pub struct Request {
    pub method: String,
    pub uri: Uri,
    pub headers: Vec<Header>,
}

/// A request head as mathematical values.
pub struct RequestView {
    pub method: Seq<char>,
    pub uri: UriParts,
    pub headers: Seq<HeaderLine>,
}

impl View for Request {
    type V = RequestView;

    open spec fn view(&self) -> RequestView {
        RequestView { method: self.method@, uri: self.uri@, headers: lines(self.headers@) }
    }
}

/// The head of a response: status code and header fields.
#[derive(Debug, PartialEq, Eq)]
pub struct Response {
    pub status: u16,
    pub headers: Vec<Header>,
}

/// A response head as mathematical values.
pub struct ResponseView {
    pub status: u16,
    pub headers: Seq<HeaderLine>,
}

impl View for Response {
    type V = ResponseView;

    open spec fn view(&self) -> ResponseView {
        ResponseView { status: self.status, headers: lines(self.headers@) }
    }
}

/// The status of the answer to a request that no target takes.
pub const NOT_FOUND: u16 = 404;

/// The status of the answer to a request whose target could not be reached.
pub const INTERNAL_SERVER_ERROR: u16 = 500;

/// A response without header fields.
pub open spec fn bare_response(status: u16) -> ResponseView {
    ResponseView { status, headers: Seq::empty() }
}

/// What a backend's response becomes on its way to the client: the status
/// stays, the hop-by-hop fields go.
pub open spec fn proxied_response(response: ResponseView) -> ResponseView {
    ResponseView { status: response.status, headers: without_hop_headers(response.headers) }
}

/// Prepares a backend's response for the client.
pub fn create_proxied_response(response: Response) -> (proxied: Response)
    ensures
        proxied@ == proxied_response(response@),
{
    Response { status: response.status, headers: remove_hop_headers(&response.headers) }
}

/// The target at `index` takes `path`, and none before it does.
pub open spec fn routes_to(targets: Seq<TargetView>, path: Seq<char>, index: int) -> bool {
    &&& 0 <= index < targets.len()
    &&& admits(targets[index], path)
    &&& forall|earlier: int| 0 <= earlier < index ==> !admits(targets[earlier], path)
}

/// The index of the first target, in the order of declaration, that takes
/// `path`; `None` where no target does.
pub open spec fn route(targets: Seq<TargetView>, path: Seq<char>) -> Option<int> {
    if exists|index: int| routes_to(targets, path, index) {
        Some(choose|index: int| routes_to(targets, path, index))
    } else {
        None
    }
}

/// The first target that takes a path is the one `route` names.
pub proof fn lemma_route_is(targets: Seq<TargetView>, path: Seq<char>, index: int)
    requires
        routes_to(targets, path, index),
    ensures
        route(targets, path) == Some(index),
{
    let chosen = choose|i: int| routes_to(targets, path, i);
    assert(routes_to(targets, path, chosen));
    if chosen < index {
        assert(!admits(targets[chosen], path));
    }
    if index < chosen {
        assert(!admits(targets[index], path));
    }
}

/// What an inbound request becomes before routing: the hop-by-hop fields go,
/// then the client's address, where it is known, joins the forwarding chain.
pub open spec fn proxied_request(
    remote_ip: Option<Seq<char>>,
    request: RequestView,
) -> RequestView {
    let kept = without_hop_headers(request.headers);
    RequestView {
        method: request.method,
        uri: request.uri,
        headers: match remote_ip {
            Some(address) => with_forwarded(kept, address),
            None => kept,
        },
    }
}

/// The text of the URI of a request for `uri` at the target with base
/// address `address`: the address, the path, and the query behind a `?`.
pub open spec fn target_uri_text(address: Seq<char>, uri: UriParts) -> Seq<char> {
    address + uri.path + match uri.query {
        Some(query) => "?"@ + query,
        None => Seq::<char>::empty(),
    }
}

/// A request after the attempt to aim it at `uri`: with a URI it takes that
/// and loses its `Host` fields, without one it stays as it is.
pub open spec fn redirected(request: RequestView, uri: Option<UriParts>) -> RequestView {
    match uri {
        Some(uri) => RequestView {
            method: request.method,
            uri,
            headers: without_name(request.headers, "Host"@),
        },
        None => request,
    }
}

/// A request aimed at `target`. Where the target's address with the request's
/// path and query is no valid URI, the request stays as it is.
pub open spec fn pointed(target: TargetView, request: RequestView) -> RequestView {
    redirected(request, parsed_uri(target_uri_text(target.address, request.uri)))
}

/// Writes the URI of `request` at `target`.
pub fn target_uri(target: &Target, request: &Request) -> (text: String)
    ensures
        text@ == target_uri_text(target@.address, request@.uri),
{
    let text = String::from_str(target.address()).concat(request.uri.path.as_str());
    match &request.uri.query {
        Some(query) => {
            let text = text.concat("?").concat(query.as_str());
            assert(text@ =~= target_uri_text(target@.address, request@.uri));
            text
        },
        None => {
            assert(text@ =~= target_uri_text(target@.address, request@.uri));
            text
        },
    }
}

/// Aims `request` at `uri`, or leaves it as it is where there is no URI.
pub fn redirect(request: Request, uri: Option<Uri>) -> (aimed: Request)
    ensures
        aimed@ == redirected(
            request@,
            match uri {
                Some(uri) => Some(uri@),
                None => None,
            },
        ),
{
    match uri {
        Some(uri) => Request {
            method: request.method,
            uri,
            headers: remove_named(&request.headers, "Host"),
        },
        None => request,
    }
}

/// How the client's request for one exchange came back from the backend.
#[derive(Debug, PartialEq, Eq)]
pub enum Outcome {
    /// The backend answered.
    Responded(Response),
    /// The request could not be carried out; the text says why.
    Failed(String),
}

/// An outcome as mathematical values.
pub enum OutcomeView {
    Responded(ResponseView),
    Failed(Seq<char>),
}

impl View for Outcome {
    type V = OutcomeView;

    open spec fn view(&self) -> OutcomeView {
        match self {
            Outcome::Responded(response) => OutcomeView::Responded(response@),
            Outcome::Failed(error) => OutcomeView::Failed(error@),
        }
    }
}

/// The end of an exchange: the response for the client, the one audit line,
/// and the entry for the error log where the backend failed.
#[derive(Debug, PartialEq, Eq)]
pub struct Completed {
    pub response: Response,
    pub audit: String,
    pub error: Option<String>,
}

/// The end of an exchange as mathematical values.
pub struct CompletedView {
    pub response: ResponseView,
    pub audit: Seq<char>,
    pub error: Option<Seq<char>>,
}

impl View for Completed {
    type V = CompletedView;

    open spec fn view(&self) -> CompletedView {
        CompletedView {
            response: self.response@,
            audit: self.audit@,
            error: match self.error {
                Some(error) => Some(error@),
                None => None,
            },
        }
    }
}

/// Where an exchange stands once the proxy has decided on the request.
#[derive(Debug, PartialEq, Eq)]
pub enum Exchange {
    /// A target takes the request: `request` is to be sent, and what comes
    /// back ends the exchange through `complete`. `uri_built` is false where
    /// the request could not be aimed at the target and goes out as it came.
    Routed { incoming: String, responder: String, request: Request, uri_built: bool },
    /// No target takes the request: the exchange is over.
    Completed(Completed),
}

/// An exchange as mathematical values.
pub enum ExchangeView {
    Routed { incoming: Seq<char>, responder: Seq<char>, request: RequestView, uri_built: bool },
    Completed(CompletedView),
}

impl View for Exchange {
    type V = ExchangeView;

    open spec fn view(&self) -> ExchangeView {
        match self {
            Exchange::Routed { incoming, responder, request, uri_built } => ExchangeView::Routed {
                incoming: incoming@,
                responder: responder@,
                request: request@,
                uri_built: *uri_built,
            },
            Exchange::Completed(completed) => ExchangeView::Completed(completed@),
        }
    }
}

/// The name under which the proxy itself answers.
pub open spec fn fallback_responder() -> Seq<char> {
    "Rocksy (fallback)"@
}

/// The words by which an audit line names a request: method and URI as they
/// came in.
pub open spec fn audit_key(request: RequestView) -> Seq<char> {
    request.method + " "@ + request.uri.text
}

/// The entry for the error log when the backend `responder` failed with `error`.
pub open spec fn failure_text(responder: Seq<char>, error: Seq<char>) -> Seq<char> {
    "Failed to proxy request to "@ + responder + "! "@ + error
}

/// How an exchange ends that was sent to `responder`: a backend's response is
/// handed on without its hop-by-hop fields; a failure becomes a bare 500 and
/// an entry for the error log. Either way there is one audit line.
pub open spec fn completed(
    incoming: Seq<char>,
    responder: Seq<char>,
    outcome: OutcomeView,
) -> CompletedView {
    match outcome {
        OutcomeView::Responded(response) => CompletedView {
            response: proxied_response(response),
            audit: audit_text(incoming, responder, response.status, reason_phrase(response.status)),
            error: None,
        },
        OutcomeView::Failed(error) => CompletedView {
            response: bare_response(INTERNAL_SERVER_ERROR),
            audit: audit_text(
                incoming,
                responder,
                INTERNAL_SERVER_ERROR,
                reason_phrase(INTERNAL_SERVER_ERROR),
            ),
            error: Some(failure_text(responder, error)),
        },
    }
}

/// How an exchange ends that no target takes: a bare 404 under the proxy's
/// own name.
pub open spec fn unrouted(incoming: Seq<char>) -> CompletedView {
    CompletedView {
        response: bare_response(NOT_FOUND),
        audit: audit_text(incoming, fallback_responder(), NOT_FOUND, reason_phrase(NOT_FOUND)),
        error: None,
    }
}

/// A response with `status` and no header fields.
fn bare(status: u16) -> (response: Response)
    ensures
        response@ == bare_response(status),
{
    let response = Response { status, headers: Vec::new() };
    assert(lines(response.headers@) =~= Seq::<HeaderLine>::empty());
    response
}

/// Ends an exchange with what came back from the backend `responder`.
pub fn complete(incoming: &str, responder: &str, outcome: Outcome) -> (end: Completed)
    ensures
        end@ == completed(incoming@, responder@, outcome@),
{
    match outcome {
        Outcome::Responded(response) => {
            let audit = log_request_response(incoming, responder, response.status);
            Completed { response: create_proxied_response(response), audit, error: None }
        },
        Outcome::Failed(error) => {
            let entry = String::from_str("Failed to proxy request to ").concat(responder).concat(
                "! ",
            ).concat(error.as_str());
            let response = bare(INTERNAL_SERVER_ERROR);
            Completed {
                response,
                audit: log_request_response(incoming, responder, INTERNAL_SERVER_ERROR),
                error: Some(entry),
            }
        },
    }
}

/// The proxy of one connection: the client's address where it is known, the
/// targets in the order of their declaration, and the debug flag.
#[derive(Debug)]
pub struct ReverseProxy {
    remote_ip: Option<String>,
    targets: Vec<Target>,
    debug_on: bool,
}

/// A proxy as mathematical values.
pub struct ProxyView {
    pub remote_ip: Option<Seq<char>>,
    pub targets: Seq<TargetView>,
    pub debug_on: bool,
}

/// What the proxy decides on an inbound request. The audit key is taken
/// before anything is changed. The request is rewritten, then routed by its
/// path; the first target that takes the path gets the request, aimed at it.
pub open spec fn planned(proxy: ProxyView, request: RequestView) -> ExchangeView {
    let rewritten = proxied_request(proxy.remote_ip, request);
    match route(proxy.targets, request.uri.path) {
        Some(index) => ExchangeView::Routed {
            incoming: audit_key(request),
            responder: proxy.targets[index].name,
            request: pointed(proxy.targets[index], rewritten),
            uri_built: parsed_uri(target_uri_text(proxy.targets[index].address, request.uri))
                is Some,
        },
        None => ExchangeView::Completed(unrouted(audit_key(request))),
    }
}

impl View for ReverseProxy {
    type V = ProxyView;

    closed spec fn view(&self) -> ProxyView {
        ProxyView {
            remote_ip: match self.remote_ip {
                Some(address) => Some(address@),
                None => None,
            },
            targets: self.targets@.map_values(|target: Target| target@),
            debug_on: self.debug_on,
        }
    }
}

impl ReverseProxy {
    /// A proxy for the connection of the client at `remote_ip`.
    pub fn new(remote_ip: Option<String>, targets: Vec<Target>, debug_on: bool) -> (proxy:
        ReverseProxy)
        ensures
            proxy@.remote_ip == match remote_ip {
                Some(address) => Some(address@),
                None => None,
            },
            proxy@.targets == targets@.map_values(|target: Target| target@),
            proxy@.debug_on == debug_on,
    {
        ReverseProxy { remote_ip, targets, debug_on }
    }

    /// Whether the proxy was asked to report what it does.
    pub fn debug_on(&self) -> (on: bool)
        ensures
            on == self@.debug_on,
    {
        self.debug_on
    }

    /// Prepares an inbound request for forwarding, before it is routed.
    pub fn create_proxied_request(&self, request: Request) -> (proxied: Request)
        ensures
            proxied@ == proxied_request(self@.remote_ip, request@),
    {
        let mut headers = remove_hop_headers(&request.headers);
        match &self.remote_ip {
            Some(address) => append_forwarded(&mut headers, Some(address.as_str())),
            None => {},
        }
        Request { method: request.method, uri: request.uri, headers }
    }

    /// The index of the first target that takes `path`.
    fn find_target(&self, path: &str) -> (found: Option<usize>)
        ensures
            match found {
                Some(index) => routes_to(self@.targets, path@, index as int) && index
                    < self.targets.len(),
                None => route(self@.targets, path@) is None,
            },
    {
        let mut index: usize = 0;
        while index < self.targets.len()
            invariant
                index <= self.targets.len(),
                forall|earlier: int|
                    0 <= earlier < index ==> !admits(self@.targets[earlier], path@),
            decreases self.targets.len() - index,
        {
            if self.targets[index].valid_for(path) {
                return Some(index);
            }
            index += 1;
        }
        None
    }

    /// The target for `request`: the first, in the order of declaration,
    /// that takes the request's path.
    pub fn determine_target(&self, request: &Request) -> (target: Option<&Target>)
        ensures
            match route(self@.targets, request@.uri.path) {
                Some(index) => target is Some && target->Some_0@ == self@.targets[index],
                None => target is None,
            },
    {
        match self.find_target(request.uri.path.as_str()) {
            Some(index) => {
                proof {
                    lemma_route_is(self@.targets, request@.uri.path, index as int);
                }
                Some(&self.targets[index])
            },
            None => None,
        }
    }

    /// Aims `request` at `target`: the URI becomes the target's address with
    /// the request's path and query, and the `Host` fields go. Where that
    /// text is no valid URI, the request comes back as it was.
    pub fn point_request_at_target(&self, target: &Target, request: Request) -> (aimed: Request)
        ensures
            aimed@ == pointed(target@, request@),
    {
        let text = target_uri(target, &request);
        redirect(request, parse_uri(text.as_str()))
    }

    /// Decides on an inbound request: a request that a target takes comes
    /// back rewritten and aimed at that target, ready to be sent; one that no
    /// target takes ends with a 404 at once.
    pub fn call(&self, request: Request) -> (exchange: Exchange)
        ensures
            exchange@ == planned(self@, request@),
    {
        let incoming = String::from_str(request.method.as_str()).concat(" ").concat(
            request.uri.text.as_str(),
        );
        let proxied = self.create_proxied_request(request);
        match self.determine_target(&proxied) {
            Some(target) => {
                let text = target_uri(target, &proxied);
                let uri = parse_uri(text.as_str());
                let uri_built = uri.is_some();
                let responder = target.name().to_owned();
                Exchange::Routed {
                    incoming,
                    responder,
                    request: redirect(proxied, uri),
                    uri_built,
                }
            },
            None => {
                let audit = log_request_response(
                    incoming.as_str(),
                    "Rocksy (fallback)",
                    NOT_FOUND,
                );
                Exchange::Completed(Completed { response: bare(NOT_FOUND), audit, error: None })
            },
        }
    }
}

/// Routing is decided by the order of declaration: a path has at most one
/// first target.
pub proof fn lemma_route_unique(targets: Seq<TargetView>, path: Seq<char>, one: int, other: int)
    requires
        routes_to(targets, path, one),
        routes_to(targets, path, other),
    ensures
        one == other,
{
    if one < other {
        assert(!admits(targets[one], path));
    }
    if other < one {
        assert(!admits(targets[other], path));
    }
}

/// What `route` names is the first target that takes the path.
pub proof fn lemma_route_first(targets: Seq<TargetView>, path: Seq<char>)
    requires
        route(targets, path) is Some,
    ensures
        routes_to(targets, path, route(targets, path)->0),
{
}

/// A path is routed exactly where some target takes it, and then to a
/// target at or before that one.
pub proof fn lemma_route_exists(targets: Seq<TargetView>, path: Seq<char>, index: int)
    requires
        0 <= index < targets.len(),
        admits(targets[index], path),
    ensures
        route(targets, path) is Some,
        route(targets, path)->0 <= index,
    decreases index,
{
    if exists|earlier: int| 0 <= earlier < index && admits(targets[earlier], path) {
        let earlier = choose|earlier: int| 0 <= earlier < index && admits(targets[earlier], path);
        lemma_route_exists(targets, path, earlier);
    } else {
        lemma_route_is(targets, path, index);
    }
}

/// A path that no target takes has no route.
pub proof fn lemma_route_none(targets: Seq<TargetView>, path: Seq<char>)
    requires
        forall|index: int| 0 <= index < targets.len() ==> !admits(targets[index], path),
    ensures
        route(targets, path) is None,
{
}

/// A target without a pattern takes every path that no earlier target
/// takes: no path is routed to a target declared after it.
pub proof fn lemma_route_shadowed(targets: Seq<TargetView>, path: Seq<char>, index: int)
    requires
        0 <= index < targets.len(),
        targets[index].pattern is None,
    ensures
        route(targets, path) is Some,
        route(targets, path)->0 <= index,
{
    lemma_route_exists(targets, path, index);
}

/// With no targets declared, every request ends at once: the client gets a
/// bare 404, and the one audit line names the proxy itself as the responder.
pub proof fn lemma_empty_registry(proxy: ProxyView, request: RequestView)
    requires
        proxy.targets.len() == 0,
    ensures
        planned(proxy, request) == ExchangeView::Completed(unrouted(audit_key(request))),
        unrouted(audit_key(request)).response == bare_response(404),
        occurs_at(
            unrouted(audit_key(request)).audit,
            fallback_responder(),
            (audit_key(request) + " -> "@).len() as int,
        ),
{
    lemma_route_none(proxy.targets, request.uri.path);
    lemma_audit_names_responder(
        audit_key(request),
        fallback_responder(),
        NOT_FOUND,
        reason_phrase(NOT_FOUND),
    );
}

/// A request that no target takes ends at once with a bare 404.
pub proof fn lemma_unrouted(proxy: ProxyView, request: RequestView)
    requires
        route(proxy.targets, request.uri.path) is None,
    ensures
        planned(proxy, request) == ExchangeView::Completed(unrouted(audit_key(request))),
        unrouted(audit_key(request)).response == bare_response(404),
{
}

/// When the backend fails, the client gets a bare 500 that holds nothing of
/// the error; the audit line and the entry for the error log both name the
/// backend.
pub proof fn lemma_failure_contained(incoming: Seq<char>, responder: Seq<char>, error: Seq<char>)
    ensures
        completed(incoming, responder, OutcomeView::Failed(error)).response == bare_response(500),
        completed(incoming, responder, OutcomeView::Failed(error)).error == Some(
            failure_text(responder, error),
        ),
        occurs_at(
            failure_text(responder, error),
            responder,
            "Failed to proxy request to "@.len() as int,
        ),
        occurs_at(
            completed(incoming, responder, OutcomeView::Failed(error)).audit,
            responder,
            (incoming + " -> "@).len() as int,
        ),
{
    let prefix = "Failed to proxy request to "@;
    assert(failure_text(responder, error).subrange(
        prefix.len() as int,
        (prefix.len() + responder.len()) as int,
    ) =~= responder);
    lemma_audit_names_responder(
        incoming,
        responder,
        INTERNAL_SERVER_ERROR,
        reason_phrase(INTERNAL_SERVER_ERROR),
    );
}

} // verus!
