//! Header fields of a message: hop-by-hop stripping and the chain of
//! forwarding addresses.

use vstd::prelude::*;

verus! {

/// One header field of a message. A name may occur in several fields.
#[derive(Debug, PartialEq, Eq)]
pub struct Header {
    pub name: String,
    pub value: String,
}

/// A header field as character sequences.
pub struct HeaderLine {
    pub name: Seq<char>,
    pub value: Seq<char>,
}

impl View for Header {
    type V = HeaderLine;

    open spec fn view(&self) -> HeaderLine {
        HeaderLine { name: self.name@, value: self.value@ }
    }
}

impl Header {
    /// A field with the given name and value.
    pub fn new(name: &str, value: &str) -> (header: Header)
        ensures
            header@ == (HeaderLine { name: name@, value: value@ }),
    {
        Header { name: name.to_owned(), value: value.to_owned() }
    }
}

impl Clone for Header {
    fn clone(&self) -> (copy: Header)
        ensures
            copy@ == self@,
    {
        Header { name: self.name.clone(), value: self.value.clone() }
    }
}

/// The fields of `headers` as character sequences, in order.
pub open spec fn lines(headers: Seq<Header>) -> Seq<HeaderLine> {
    headers.map_values(|header: Header| header@)
}

/// An ASCII capital letter as its small letter; any other character as itself.
pub open spec fn ascii_lowercase(c: char) -> char {
    if 'A' <= c && c <= 'Z' {
        ((c as u8) + 32) as char
    } else {
        c
    }
}

/// Two names are the same where they differ at most in the case of ASCII letters.
pub open spec fn same_name(a: Seq<char>, b: Seq<char>) -> bool {
    a.map_values(|c: char| ascii_lowercase(c)) == b.map_values(|c: char| ascii_lowercase(c))
}

/// Compares two names through `unicase::Ascii`, whose `==` is
/// `str::eq_ignore_ascii_case`. Trusted: that comparison holds exactly of
/// strings that are equal once the letters `A` to `Z` are made small.
#[verifier::external_body]
fn eq_ignore_case(a: &str, b: &str) -> (same: bool)
    ensures
        same == same_name(a@, b@),
{
    unicase::Ascii::new(a) == b
}

/// The names of the hop-by-hop headers: those that are meant for one
/// connection only and are not handed on.
pub open spec fn is_hop_name(name: Seq<char>) -> bool {
    ||| same_name(name, "Connection"@)
    ||| same_name(name, "Keep-Alive"@)
    ||| same_name(name, "Proxy-Authenticate"@)
    ||| same_name(name, "Proxy-Authorization"@)
    ||| same_name(name, "Te"@)
    ||| same_name(name, "Trailers"@)
    ||| same_name(name, "Transfer-Encoding"@)
    ||| same_name(name, "Upgrade"@)
}

/// Whether `name`, in any case of its letters, is that of a hop-by-hop header.
pub fn is_hop_header(name: &str) -> (hop: bool)
    ensures
        hop == is_hop_name(name@),
{
    eq_ignore_case(name, "Connection") || eq_ignore_case(name, "Keep-Alive") || eq_ignore_case(
        name,
        "Proxy-Authenticate",
    ) || eq_ignore_case(name, "Proxy-Authorization") || eq_ignore_case(name, "Te")
        || eq_ignore_case(name, "Trailers") || eq_ignore_case(name, "Transfer-Encoding")
        || eq_ignore_case(name, "Upgrade")
}

/// The fields that are handed on: all but the hop-by-hop ones, in their order.
pub open spec fn without_hop_headers(fields: Seq<HeaderLine>) -> Seq<HeaderLine> {
    fields.filter(|field: HeaderLine| !is_hop_name(field.name))
}

/// A copy of `headers` without the hop-by-hop fields.
pub fn remove_hop_headers(headers: &Vec<Header>) -> (kept: Vec<Header>)
    ensures
        lines(kept@) == without_hop_headers(lines(headers@)),
{
    let mut kept: Vec<Header> = Vec::new();
    let mut next: usize = 0;
    proof {
        reveal(Seq::filter);
        assert(lines(headers@.take(0)) =~= Seq::<HeaderLine>::empty());
    }
    while next < headers.len()
        invariant
            next <= headers.len(),
            lines(kept@) == without_hop_headers(lines(headers@.take(next as int))),
        decreases headers.len() - next,
    {
        let header = &headers[next];
        proof {
            let before = lines(headers@.take(next as int));
            assert(lines(headers@.take(next + 1)) =~= before.push(header@));
            before.lemma_filter_push(header@, |field: HeaderLine| !is_hop_name(field.name));
        }
        if !is_hop_header(header.name.as_str()) {
            let ghost earlier = lines(kept@);
            kept.push(header.clone());
            assert(lines(kept@) =~= earlier.push(header@));
        }
        next += 1;
    }
    assert(headers@.take(next as int) == headers@);
    kept
}

/// The fields of `fields` that do not bear `name`, in their order.
pub open spec fn without_name(fields: Seq<HeaderLine>, name: Seq<char>) -> Seq<HeaderLine> {
    fields.filter(|field: HeaderLine| !same_name(field.name, name))
}

/// A copy of `headers` without the fields that bear `name`.
pub fn remove_named(headers: &Vec<Header>, name: &str) -> (kept: Vec<Header>)
    ensures
        lines(kept@) == without_name(lines(headers@), name@),
{
    let mut kept: Vec<Header> = Vec::new();
    let mut next: usize = 0;
    proof {
        reveal(Seq::filter);
        assert(lines(headers@.take(0)) =~= Seq::<HeaderLine>::empty());
    }
    while next < headers.len()
        invariant
            next <= headers.len(),
            lines(kept@) == without_name(lines(headers@.take(next as int)), name@),
        decreases headers.len() - next,
    {
        let header = &headers[next];
        proof {
            let before = lines(headers@.take(next as int));
            assert(lines(headers@.take(next + 1)) =~= before.push(header@));
            before.lemma_filter_push(header@, |field: HeaderLine| !same_name(field.name, name@));
        }
        if !eq_ignore_case(header.name.as_str(), name) {
            let ghost earlier = lines(kept@);
            kept.push(header.clone());
            assert(lines(kept@) =~= earlier.push(header@));
        }
        next += 1;
    }
    assert(headers@.take(next as int) == headers@);
    kept
}

/// Whether `name` is that of the header that lists the addresses a request
/// was forwarded for.
pub open spec fn is_forwarded_name(name: Seq<char>) -> bool {
    same_name(name, "X-Forwarded-For"@)
}

/// The field at `at` is the last of `fields` that lists forwarding addresses.
pub open spec fn is_last_forwarded(fields: Seq<HeaderLine>, at: int) -> bool {
    &&& 0 <= at < fields.len()
    &&& is_forwarded_name(fields[at].name)
    &&& forall|later: int| at < later < fields.len() ==> !is_forwarded_name(fields[later].name)
}

/// A list of addresses with `address` added at its end.
pub open spec fn chained(list: Seq<char>, address: Seq<char>) -> Seq<char> {
    if list.len() == 0 {
        address
    } else {
        list + ", "@ + address
    }
}

/// The fields after `address` was recorded: it is added to the list in the
/// last field that lists forwarding addresses, or, where there is none, put
/// into a new field at the end. Every other field stays as it is.
pub open spec fn with_forwarded(fields: Seq<HeaderLine>, address: Seq<char>) -> Seq<HeaderLine> {
    if exists|at: int| is_last_forwarded(fields, at) {
        let at = choose|at: int| is_last_forwarded(fields, at);
        fields.update(
            at,
            HeaderLine { name: fields[at].name, value: chained(fields[at].value, address) },
        )
    } else {
        fields.push(HeaderLine { name: "X-Forwarded-For"@, value: address })
    }
}

/// Records the client's address in the chain of forwarding addresses. An
/// unknown address leaves the fields as they are.
pub fn append_forwarded(headers: &mut Vec<Header>, client_ip: Option<&str>)
    ensures
        lines(final(headers)@) == match client_ip {
            Some(address) => with_forwarded(lines(old(headers)@), address@),
            None => lines(old(headers)@),
        },
{
    let address = match client_ip {
        Some(address) => address,
        None => { return ; },
    };
    let ghost fields = lines(headers@);
    let mut at: usize = headers.len();
    while at > 0
        invariant
            at <= headers.len(),
            client_ip == Some(address),
            headers@ == old(headers)@,
            fields == lines(headers@),
            forall|later: int| at <= later < fields.len() ==> !is_forwarded_name(fields[later].name),
        decreases at,
    {
        at -= 1;
        if eq_ignore_case(headers[at].name.as_str(), "X-Forwarded-For") {
            proof {
                assert(is_last_forwarded(fields, at as int));
                let chosen = choose|i: int| is_last_forwarded(fields, i);
                assert(is_last_forwarded(fields, chosen));
                assert(chosen == at) by {
                    if chosen < at {
                        assert(!is_forwarded_name(fields[at as int].name));
                    }
                    if at < chosen {
                        assert(!is_forwarded_name(fields[chosen].name));
                    }
                }
            }
            let name = headers[at].name.clone();
            let value = if headers[at].value.as_str().unicode_len() == 0 {
                address.to_owned()
            } else {
                headers[at].value.clone().concat(", ").concat(address)
            };
            headers[at] = Header { name, value };
            assert(lines(headers@) =~= with_forwarded(fields, address@));
            return ;
        }
    }
    assert forall|i: int| !is_last_forwarded(fields, i) by {
        if 0 <= i < fields.len() {
            assert(!is_forwarded_name(fields[i].name));
        }
    }
    headers.push(Header::new("X-Forwarded-For", address));
    assert(lines(headers@) =~= with_forwarded(fields, address@));
}

/// After stripping, no hop-by-hop field is left.
pub proof fn lemma_no_hop_header_left(fields: Seq<HeaderLine>, at: int)
    requires
        0 <= at < without_hop_headers(fields).len(),
    ensures
        !is_hop_name(without_hop_headers(fields)[at].name),
{
    fields.lemma_filter_pred(|field: HeaderLine| !is_hop_name(field.name), at);
}

/// Stripping takes nothing from fields that hold no hop-by-hop field.
pub proof fn lemma_nothing_to_strip(fields: Seq<HeaderLine>)
    requires
        forall|at: int| 0 <= at < fields.len() ==> !is_hop_name(fields[at].name),
    ensures
        without_hop_headers(fields) == fields,
    decreases fields.len(),
{
    reveal(Seq::filter);
    if fields.len() > 0 {
        lemma_nothing_to_strip(fields.drop_last());
        assert(fields.drop_last().push(fields.last()) =~= fields);
    }
}

/// Where no field lists forwarding addresses, the client's address comes
/// into a new field behind all others.
pub proof fn lemma_forwarded_created(fields: Seq<HeaderLine>, address: Seq<char>)
    requires
        forall|at: int| 0 <= at < fields.len() ==> !is_forwarded_name(fields[at].name),
    ensures
        with_forwarded(fields, address) == fields.push(
            HeaderLine { name: "X-Forwarded-For"@, value: address },
        ),
{
}

/// Where the field at `at` is the last that lists forwarding addresses, the
/// client's address is added to its list, and nothing else changes.
pub proof fn lemma_forwarded_chained(fields: Seq<HeaderLine>, at: int, address: Seq<char>)
    requires
        is_last_forwarded(fields, at),
    ensures
        with_forwarded(fields, address) == fields.update(
            at,
            HeaderLine { name: fields[at].name, value: chained(fields[at].value, address) },
        ),
{
    let chosen = choose|i: int| is_last_forwarded(fields, i);
    assert(is_last_forwarded(fields, chosen));
    if chosen < at {
        assert(!is_forwarded_name(fields[at].name));
    }
    if at < chosen {
        assert(!is_forwarded_name(fields[chosen].name));
    }
}

} // verus!
