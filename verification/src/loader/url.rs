//! Which RPC endpoints are accepted.

use vstd::prelude::*;

use crate::text;

verus! {

/// What is wrong with the address of an RPC endpoint.
#[derive(Debug)]
pub enum UrlFault {
    Empty,
    NoScheme,
    NoHost,
    /// Plain HTTP, where it is not allowed at all.
    Insecure,
    /// Plain HTTP to another machine.
    NotLocal,
    /// A scheme other than HTTPS and HTTP, in lower case.
    Unsupported(String),
}

/// A fault as plain text.
pub enum UrlFaultView {
    Empty,
    NoScheme,
    NoHost,
    Insecure,
    NotLocal,
    Unsupported(Seq<char>),
}

impl View for UrlFault {
    type V = UrlFaultView;

    open spec fn view(&self) -> UrlFaultView {
        match self {
            UrlFault::Empty => UrlFaultView::Empty,
            UrlFault::NoScheme => UrlFaultView::NoScheme,
            UrlFault::NoHost => UrlFaultView::NoHost,
            UrlFault::Insecure => UrlFaultView::Insecure,
            UrlFault::NotLocal => UrlFaultView::NotLocal,
            UrlFault::Unsupported(scheme) => UrlFaultView::Unsupported(scheme@),
        }
    }
}

/// An address that is not accepted.
#[derive(Debug)]
pub struct RpcUrlError {
    /// The address as it was given.
    pub url: String,
    pub fault: UrlFault,
}

/// The position of the first character from `from` on that is one of `stops`,
/// or the length of the text.
pub open spec fn first_of(s: Seq<char>, stops: Seq<char>, from: int) -> int
    decreases s.len() - from,
{
    if from < 0 || from >= s.len() {
        s.len() as int
    } else if stops.contains(s[from]) {
        from
    } else {
        first_of(s, stops, from + 1)
    }
}

/// The position behind the last `c` among the first `n` characters, or the
/// beginning.
pub open spec fn behind_last(s: Seq<char>, c: char, n: int) -> int
    decreases n,
{
    if n <= 0 {
        0
    } else if s[n - 1] == c {
        n
    } else {
        behind_last(s, c, n - 1)
    }
}

/// A machine without its port. An address in square brackets, which may hold
/// colons itself, ends with its bracket.
pub open spec fn without_port(machine: Seq<char>) -> Seq<char> {
    let close = first_of(machine, seq![']'], 0);
    if machine.len() > 0 && machine[0] == '[' && close < machine.len() {
        machine.take(close + 1)
    } else {
        machine.take(first_of(machine, seq![':'], 0))
    }
}

/// The host in what follows the scheme of an address: without user, port, path,
/// query and fragment.
pub open spec fn host_of(rest: Seq<char>) -> Seq<char> {
    let authority = rest.take(first_of(rest, seq!['/', '?', '#'], 0));
    let machine = authority.skip(behind_last(authority, '@', authority.len() as int));
    without_port(machine)
}

/// What is wrong with an address, if anything is.
pub open spec fn url_fault(url: Seq<char>, allow_http_local: bool) -> Option<UrlFaultView> {
    let trimmed = text::trimmed(url);
    if trimmed.len() == 0 {
        Some(UrlFaultView::Empty)
    } else {
        match text::first_at(trimmed, 0, "://"@) {
            None => Some(UrlFaultView::NoScheme),
            Some(i) => {
                let scheme = text::ascii_lower_text(trimmed.take(i));
                let host = host_of(trimmed.skip(i + 3));
                if host.len() == 0 {
                    Some(UrlFaultView::NoHost)
                } else if scheme == "https"@ {
                    None
                } else if scheme == "http"@ {
                    if !allow_http_local {
                        Some(UrlFaultView::Insecure)
                    } else if host != "localhost"@ && host != "127.0.0.1"@ {
                        Some(UrlFaultView::NotLocal)
                    } else {
                        None
                    }
                } else {
                    Some(UrlFaultView::Unsupported(scheme))
                }
            },
        }
    }
}

/// What is said of an address that is not accepted.
pub open spec fn url_message(url: Seq<char>, fault: UrlFaultView) -> Seq<char> {
    match fault {
        UrlFaultView::Empty =>
            "Invalid RPC URL: the value is empty. Expected an 'https://' endpoint."@,
        UrlFaultView::NoScheme => "Invalid RPC URL '"@ + url
            + "': no scheme. Expected an 'https://' endpoint (e.g. https://soroban-testnet.stellar.org)."@,
        UrlFaultView::NoHost => "Invalid RPC URL '"@ + url
            + "': no host after the scheme. Expected an 'https://<host>' endpoint."@,
        UrlFaultView::Insecure => "Insecure RPC URL scheme 'http' for '"@ + url
            + "'. Use 'https://' for secure transport, or pass --allow-http-local for local development only."@,
        UrlFaultView::NotLocal => "HTTP RPC URL '"@ + url
            + "' is not allowed. --allow-http-local only permits localhost or 127.0.0.1."@,
        UrlFaultView::Unsupported(scheme) => "Invalid RPC URL '"@ + url
            + "': unsupported scheme '"@ + scheme + "'. Use 'https://'."@,
    }
}

impl RpcUrlError {
    /// What is said of the address.
    pub fn message(&self) -> (r: String)
        ensures
            r@ == url_message(self.url@, self.fault@),
    {
        match &self.fault {
            UrlFault::Empty =>
                "Invalid RPC URL: the value is empty. Expected an 'https://' endpoint.".to_string(),
            UrlFault::NoScheme => {
                let mut out = "Invalid RPC URL '".to_string();
                out.append(self.url.as_str());
                out.append(
                    "': no scheme. Expected an 'https://' endpoint (e.g. https://soroban-testnet.stellar.org).",
                );
                out
            },
            UrlFault::NoHost => {
                let mut out = "Invalid RPC URL '".to_string();
                out.append(self.url.as_str());
                out.append("': no host after the scheme. Expected an 'https://<host>' endpoint.");
                out
            },
            UrlFault::Insecure => {
                let mut out = "Insecure RPC URL scheme 'http' for '".to_string();
                out.append(self.url.as_str());
                out.append(
                    "'. Use 'https://' for secure transport, or pass --allow-http-local for local development only.",
                );
                out
            },
            UrlFault::NotLocal => {
                let mut out = "HTTP RPC URL '".to_string();
                out.append(self.url.as_str());
                out.append(
                    "' is not allowed. --allow-http-local only permits localhost or 127.0.0.1.",
                );
                out
            },
            UrlFault::Unsupported(scheme) => {
                let mut out = "Invalid RPC URL '".to_string();
                out.append(self.url.as_str());
                out.append("': unsupported scheme '");
                out.append(scheme.as_str());
                out.append("'. Use 'https://'.");
                out
            },
        }
    }
}

/// The host in what follows the scheme of an address.
pub fn url_host(rest: &str) -> (r: String)
    ensures
        r@ == host_of(rest@),
{
    host_in(&text::to_chars(rest))
}

fn host_in(rest: &Vec<char>) -> (r: String)
    ensures
        r@ == host_of(rest@),
{
    let mut end: usize = 0;
    while end < rest.len() && rest[end] != '/' && rest[end] != '?' && rest[end] != '#'
        invariant
            end <= rest@.len(),
            first_of(rest@, seq!['/', '?', '#'], 0) == first_of(
                rest@,
                seq!['/', '?', '#'],
                end as int,
            ),
        decreases rest@.len() - end,
    {
        proof {
            lemma_none_of_three(rest@[end as int]);
        }
        end = end + 1;
    }
    proof {
        if end < rest@.len() {
            lemma_one_of_three(rest@[end as int]);
        }
    }
    let ghost authority = rest@.take(end as int);
    assert(authority == rest@.take(first_of(rest@, seq!['/', '?', '#'], 0)));
    let mut start: usize = end;
    while start > 0 && rest[start - 1] != '@'
        invariant
            start <= end <= rest@.len(),
            authority == rest@.take(end as int),
            behind_last(authority, '@', authority.len() as int) == behind_last(
                authority,
                '@',
                start as int,
            ),
        decreases start,
    {
        assert(authority[start - 1] == rest@[start - 1]);
        start = start - 1;
    }
    proof {
        if start > 0 {
            assert(authority[start - 1] == rest@[start - 1]);
        }
    }
    let ghost machine = authority.skip(start as int);
    assert(machine =~= rest@.subrange(start as int, end as int));
    let stop = port_start(rest, start, end);
    assert(rest@.subrange(start as int, stop as int) =~= machine.take(stop - start));
    text::text_of(rest, start, stop)
}

/// The position of the first `c` from `from` on, below `end`, or `end`.
fn find_char(s: &Vec<char>, c: char, from: usize, end: usize) -> (r: usize)
    requires
        from <= end <= s@.len(),
    ensures
        from <= r <= end,
        r == from + first_of(s@.subrange(from as int, end as int), seq![c], 0),
{
    let ghost part = s@.subrange(from as int, end as int);
    let mut i: usize = from;
    while i < end && s[i] != c
        invariant
            from <= i <= end <= s@.len(),
            part == s@.subrange(from as int, end as int),
            first_of(part, seq![c], 0) == first_of(part, seq![c], i - from),
        decreases end - i,
    {
        proof {
            assert(part[i - from] == s@[i as int]);
            lemma_not_the_one(s@[i as int], c);
        }
        i = i + 1;
    }
    proof {
        if i < end {
            assert(part[i - from] == s@[i as int]);
            assert(seq![c][0] == c);
        }
    }
    i
}

/// Where a machine ends and its port begins.
fn port_start(rest: &Vec<char>, start: usize, end: usize) -> (r: usize)
    requires
        start <= end <= rest@.len(),
    ensures
        start <= r <= end,
        rest@.subrange(start as int, r as int) == without_port(
            rest@.subrange(start as int, end as int),
        ),
{
    let ghost machine = rest@.subrange(start as int, end as int);
    let close = find_char(rest, ']', start, end);
    if start < end && rest[start] == '[' && close < end {
        assert(machine[0] == rest@[start as int]);
        assert(machine.take(close + 1 - start) =~= rest@.subrange(start as int, close + 1));
        close + 1
    } else {
        let stop = find_char(rest, ':', start, end);
        proof {
            if start < end {
                assert(machine[0] == rest@[start as int]);
            }
            assert(machine.take(stop - start) =~= rest@.subrange(start as int, stop as int));
        }
        stop
    }
}

proof fn lemma_none_of_three(c: char)
    requires
        c != '/',
        c != '?',
        c != '#',
    ensures
        !seq!['/', '?', '#'].contains(c),
{
}

proof fn lemma_one_of_three(c: char)
    requires
        c == '/' || c == '?' || c == '#',
    ensures
        seq!['/', '?', '#'].contains(c),
{
    assert(seq!['/', '?', '#'][0] == '/');
    assert(seq!['/', '?', '#'][1] == '?');
    assert(seq!['/', '?', '#'][2] == '#');
}

proof fn lemma_not_the_one(c: char, other: char)
    requires
        c != other,
    ensures
        !seq![other].contains(c),
{
}

/// Fails on an address that is not accepted: one without a scheme or a host, one
/// that is not HTTPS, unless it is HTTP to this machine and that is allowed.
pub fn validate_rpc_url(rpc_url: &str, allow_http_local: bool) -> (r: Result<(), RpcUrlError>)
    ensures
        match r {
            Ok(_) => url_fault(rpc_url@, allow_http_local) is None,
            Err(e) => url_fault(rpc_url@, allow_http_local) == Some(e.fault@) && e.url@ == rpc_url@,
        },
{
    match find_fault(rpc_url, allow_http_local) {
        None => Ok(()),
        Some(fault) => Err(RpcUrlError { url: rpc_url.to_string(), fault }),
    }
}

fn find_fault(rpc_url: &str, allow_http_local: bool) -> (r: Option<UrlFault>)
    ensures
        match r {
            None => url_fault(rpc_url@, allow_http_local) is None,
            Some(fault) => url_fault(rpc_url@, allow_http_local) == Some(fault@),
        },
{
    let trimmed = text::trim(rpc_url);
    let chars = text::to_chars(trimmed.as_str());
    if chars.len() == 0 {
        return Some(UrlFault::Empty);
    }
    proof {
        reveal_strlit("://");
        text::lemma_first_at(chars@, 0, "://"@);
    }
    let at = match text::find_from(&chars, 0, "://") {
        Some(i) => i,
        None => {
            return Some(UrlFault::NoScheme);
        },
    };
    let scheme_text = text::text_of(&chars, 0, at);
    assert(scheme_text@ =~= chars@.take(at as int));
    let scheme = text::to_ascii_lower(scheme_text.as_str());
    let rest_text = text::text_of(&chars, at + 3, chars.len());
    assert(rest_text@ =~= chars@.skip(at + 3));
    let host = url_host(rest_text.as_str());
    if host.as_str().is_empty() {
        return Some(UrlFault::NoHost);
    }
    if text::same_text(scheme.as_str(), "https") {
        return None;
    }
    if text::same_text(scheme.as_str(), "http") {
        if !allow_http_local {
            return Some(UrlFault::Insecure);
        }
        if !text::same_text(host.as_str(), "localhost") && !text::same_text(
            host.as_str(),
            "127.0.0.1",
        ) {
            return Some(UrlFault::NotLocal);
        }
        return None;
    }
    Some(UrlFault::Unsupported(scheme))
}

/// Nothing goes over plain HTTP to another machine: an accepted address is HTTPS,
/// or it is HTTP to this machine and that was allowed.
pub proof fn accepted_addresses_are_secure_or_local(url: Seq<char>, allow_http_local: bool)
    requires
        url_fault(url, allow_http_local) is None,
    ensures
        ({
            let trimmed = text::trimmed(url);
            &&& text::first_at(trimmed, 0, "://"@) is Some
            &&& ({
                let i = text::first_at(trimmed, 0, "://"@)->0;
                let scheme = text::ascii_lower_text(trimmed.take(i));
                let host = host_of(trimmed.skip(i + 3));
                &&& host.len() > 0
                &&& scheme == "https"@ || scheme == "http"@ && allow_http_local && (host
                    == "localhost"@ || host == "127.0.0.1"@)
            })
        }),
{
}

proof fn lemma_first_of(s: Seq<char>, stops: Seq<char>, from: int, k: int)
    requires
        0 <= from <= k <= s.len(),
        forall|i: int| from <= i < k ==> !stops.contains(#[trigger] s[i]),
        k < s.len() ==> stops.contains(s[k]),
    ensures
        first_of(s, stops, from) == k,
    decreases k - from,
{
    if from < k {
        assert(!stops.contains(s[from]));
        lemma_first_of(s, stops, from + 1, k);
    }
}

proof fn lemma_behind_none(s: Seq<char>, c: char, n: int)
    requires
        0 <= n <= s.len(),
        !s.contains(c),
    ensures
        behind_last(s, c, n) == 0,
    decreases n,
{
    if n > 0 {
        assert(s.contains(s[n - 1]));
        lemma_behind_none(s, c, n - 1);
    }
}

/// A host in square brackets is taken whole, whatever colons it holds, and its
/// port is left out.
pub proof fn a_host_in_brackets_keeps_its_colons(inner: Seq<char>, port: Seq<char>)
    requires
        !inner.contains(']'),
        forall|i: int|
            0 <= i < inner.len() ==> !seq!['/', '?', '#', '@'].contains(#[trigger] inner[i]),
        forall|i: int|
            0 <= i < port.len() ==> !seq!['/', '?', '#', '@'].contains(#[trigger] port[i]),
    ensures
        host_of(seq!['['] + inner + seq![']', ':'] + port) == seq!['['] + inner + seq![']'],
{
    let rest = seq!['['] + inner + seq![']', ':'] + port;
    let stops = seq!['/', '?', '#', '@'];
    assert(stops[0] == '/' && stops[1] == '?' && stops[2] == '#' && stops[3] == '@');
    let close = inner.len() as int + 1;
    assert forall|i: int| 0 <= i < rest.len() implies !stops.contains(#[trigger] rest[i]) by {
        if 1 <= i < close {
            assert(rest[i] == inner[i - 1]);
        } else if i > close + 1 {
            assert(rest[i] == port[i - close - 2]);
        }
    }
    assert forall|i: int| 0 <= i < rest.len() implies !seq!['/', '?', '#'].contains(
        #[trigger] rest[i],
    ) by {
        assert(!stops.contains(rest[i]));
        lemma_none_of_three(rest[i]);
    }
    lemma_first_of(rest, seq!['/', '?', '#'], 0, rest.len() as int);
    assert(rest.take(rest.len() as int) =~= rest);
    lemma_behind_none(rest, '@', rest.len() as int);
    assert(rest.skip(0) =~= rest);
    assert forall|i: int| 0 <= i < close implies !seq![']'].contains(#[trigger] rest[i]) by {
        if i > 0 {
            assert(rest[i] == inner[i - 1]);
            assert(inner.contains(rest[i]));
        }
        lemma_not_the_one(rest[i], ']');
    }
    assert(seq![']'][0] == ']');
    lemma_first_of(rest, seq![']'], 0, close);
    assert(rest.take(close + 1) =~= seq!['['] + inner + seq![']']);
}

/// What is accepted without the permission for HTTP is accepted with it.
pub proof fn the_permission_only_adds(url: Seq<char>)
    requires
        url_fault(url, false) is None,
    ensures
        url_fault(url, true) is None,
{
}

} // verus!
