//! Which addresses are accepted, by the parts that they are made of.

use vstd::prelude::*;

use crate::loader::url;
use crate::loader::url::UrlFaultView;
use crate::text;

verus! {

/// Whether a character ends the part of an address that names the machine.
pub open spec fn ends_machine(c: char) -> bool {
    c == '/' || c == '?' || c == '#'
}

/// Whether none of the characters of a text ends the part that names the machine.
pub open spec fn stays_in_machine(s: Seq<char>) -> bool {
    forall|i: int| 0 <= i < s.len() ==> !ends_machine(#[trigger] s[i])
}

/// Whether `user` is what may stand before a host: nothing, or a text that ends with
/// an at sign.
pub open spec fn is_user(user: Seq<char>) -> bool {
    stays_in_machine(user) && (user.len() == 0 || user.last() == '@')
}

/// Whether `port` is what may stand behind a host: nothing, or a colon and what
/// follows it.
pub open spec fn is_port(port: Seq<char>) -> bool {
    &&& stays_in_machine(port)
    &&& !port.contains('@')
    &&& port.len() == 0 || port[0] == ':'
}

/// Whether `path` is what may stand behind a machine: nothing, or a path, a query or
/// a fragment.
pub open spec fn is_path(path: Seq<char>) -> bool {
    path.len() == 0 || ends_machine(path[0])
}

proof fn lemma_ends_machine(c: char)
    ensures
        seq!['/', '?', '#'].contains(c) <==> ends_machine(c),
{
    let stops = seq!['/', '?', '#'];
    assert(stops[0] == '/' && stops[1] == '?' && stops[2] == '#');
}

proof fn lemma_first_of(s: Seq<char>, stops: Seq<char>, from: int, k: int)
    requires
        0 <= from <= k <= s.len(),
        forall|i: int| from <= i < k ==> !stops.contains(#[trigger] s[i]),
        k < s.len() ==> stops.contains(s[k]),
    ensures
        url::first_of(s, stops, from) == k,
    decreases k - from,
{
    if from < k {
        assert(!stops.contains(s[from]));
        lemma_first_of(s, stops, from + 1, k);
    }
}

proof fn lemma_behind_last(s: Seq<char>, c: char, k: int, n: int)
    requires
        0 <= k <= n <= s.len(),
        k > 0 ==> s[k - 1] == c,
        forall|i: int| k <= i < n ==> #[trigger] s[i] != c,
    ensures
        url::behind_last(s, c, n) == k,
    decreases n,
{
    if n > k {
        assert(s[n - 1] != c);
        lemma_behind_last(s, c, k, n - 1);
    }
}

proof fn lemma_machine(user: Seq<char>, host: Seq<char>, port: Seq<char>, path: Seq<char>)
    requires
        is_user(user),
        is_port(port),
        is_path(path),
        stays_in_machine(host),
        !host.contains('@'),
    ensures
        url::host_of(user + host + port + path) == url::without_port(host + port),
{
    let rest = user + host + port + path;
    let authority = user + host + port;
    let n = authority.len() as int;
    let stops = seq!['/', '?', '#'];
    assert forall|i: int| 0 <= i < n implies !stops.contains(#[trigger] rest[i]) by {
        lemma_ends_machine(rest[i]);
        if i < user.len() {
            assert(rest[i] == user[i]);
        } else if i < user.len() + host.len() {
            assert(rest[i] == host[i - user.len()]);
        } else {
            assert(rest[i] == port[i - user.len() - host.len()]);
        }
    }
    if n < rest.len() {
        assert(rest[n] == path[0]);
        lemma_ends_machine(rest[n]);
    }
    lemma_first_of(rest, stops, 0, n);
    assert(rest.take(n) =~= authority);
    let k = user.len() as int;
    assert forall|i: int| k <= i < n implies #[trigger] authority[i] != '@' by {
        if i < user.len() + host.len() {
            assert(authority[i] == host[i - user.len()]);
            assert(host.contains(authority[i]));
        } else {
            assert(authority[i] == port[i - user.len() - host.len()]);
            assert(port.contains(authority[i]));
        }
    }
    if k > 0 {
        assert(authority[k - 1] == user.last());
    }
    lemma_behind_last(authority, '@', k, n);
    assert(authority.skip(k) =~= host + port);
}

/// The host of an address is what stands between its user and its port: neither
/// user, port, path, query nor fragment is a part of it.
pub proof fn the_host_is_what_names_the_machine(
    user: Seq<char>,
    host: Seq<char>,
    port: Seq<char>,
    path: Seq<char>,
)
    requires
        is_user(user),
        is_port(port),
        is_path(path),
        stays_in_machine(host),
        !host.contains('@'),
        !host.contains(':'),
        !host.contains('['),
    ensures
        url::host_of(user + host + port + path) == host,
{
    lemma_machine(user, host, port, path);
    let machine = host + port;
    if machine.len() > 0 && machine[0] == '[' {
        if host.len() > 0 {
            assert(host.contains(machine[0]));
        }
    }
    let colon = seq![':'];
    assert(colon[0] == ':');
    assert forall|i: int| 0 <= i < host.len() implies !colon.contains(#[trigger] machine[i]) by {
        assert(machine[i] == host[i]);
        assert(host.contains(machine[i]));
    }
    if port.len() > 0 {
        assert(machine[host.len() as int] == port[0]);
    }
    lemma_first_of(machine, colon, 0, host.len() as int);
    assert(machine.take(host.len() as int) =~= host);
}

/// A host in square brackets is taken whole, with the brackets and whatever colons it
/// holds.
pub proof fn a_bracketed_host_is_taken_whole(
    user: Seq<char>,
    inner: Seq<char>,
    port: Seq<char>,
    path: Seq<char>,
)
    requires
        is_user(user),
        is_port(port),
        is_path(path),
        stays_in_machine(inner),
        !inner.contains('@'),
        !inner.contains(']'),
    ensures
        url::host_of(user + (seq!['['] + inner + seq![']']) + port + path) == seq!['['] + inner
            + seq![']'],
{
    let host = seq!['['] + inner + seq![']'];
    assert forall|i: int| 0 <= i < host.len() implies !ends_machine(#[trigger] host[i]) && host[i]
        != '@' by {
        if 0 < i <= inner.len() {
            assert(host[i] == inner[i - 1]);
            assert(inner.contains(host[i]));
        }
    }
    lemma_machine(user, host, port, path);
    let machine = host + port;
    let close = seq![']'];
    assert(close[0] == ']');
    let k = inner.len() as int + 1;
    assert forall|i: int| 0 <= i < k implies !close.contains(#[trigger] machine[i]) by {
        if i > 0 {
            assert(machine[i] == inner[i - 1]);
            assert(inner.contains(machine[i]));
        }
    }
    lemma_first_of(machine, close, 0, k);
    assert(machine[0] == '[');
    assert(machine.take(k + 1) =~= host);
}

/// An address of a scheme and a host is accepted exactly where the scheme is HTTPS,
/// or where it is HTTP, the host is this machine and that is allowed. What is wrong
/// with any other is told apart.
pub proof fn an_address_is_accepted_by_scheme_and_host(
    address: Seq<char>,
    scheme: Seq<char>,
    rest: Seq<char>,
    allow_http_local: bool,
)
    requires
        text::trimmed(address) == scheme + "://"@ + rest,
        !scheme.contains(':'),
    ensures
        ({
            let fault = url::url_fault(address, allow_http_local);
            let host = url::host_of(rest);
            let lower = text::ascii_lower_text(scheme);
            let local = host == "localhost"@ || host == "127.0.0.1"@;
            &&& fault is None <==> host.len() > 0 && (lower == "https"@ || lower == "http"@
                && allow_http_local && local)
            &&& fault == Some(UrlFaultView::NoHost) <==> host.len() == 0
            &&& fault == Some(UrlFaultView::Insecure) <==> host.len() > 0 && lower == "http"@
                && !allow_http_local
            &&& fault == Some(UrlFaultView::NotLocal) <==> host.len() > 0 && lower == "http"@
                && allow_http_local && !local
            &&& host.len() > 0 && lower != "http"@ && lower != "https"@ ==> fault == Some(
                UrlFaultView::Unsupported(lower),
            )
        }),
{
    reveal_strlit("://");
    reveal_strlit("https");
    reveal_strlit("http");
    assert("https"@.len() != "http"@.len());
    let t = text::trimmed(address);
    let i = scheme.len() as int;
    text::lemma_first_at(t, 0, "://"@);
    assert(t.subrange(i, i + 3) =~= "://"@);
    assert(text::occurs_at(t, i, "://"@));
    assert forall|j: int| 0 <= j < i implies !text::occurs_at(t, j, "://"@) by {
        if text::occurs_at(t, j, "://"@) {
            assert(t.subrange(j, j + 3)[0] == ':');
            assert(t[j] == scheme[j]);
            assert(scheme.contains(t[j]));
        }
    }
    assert(text::first_at(t, 0, "://"@) == Some(i));
    assert(t.take(i) =~= scheme);
    assert(t.skip(i + 3) =~= rest);
}

/// An address of white space alone is said to be empty, and any other without the
/// mark behind a scheme to have none.
pub proof fn an_address_has_a_scheme(address: Seq<char>, allow_http_local: bool)
    ensures
        url::url_fault(address, allow_http_local) == Some(UrlFaultView::Empty)
            <==> text::trimmed(address).len() == 0,
        url::url_fault(address, allow_http_local) == Some(UrlFaultView::NoScheme)
            <==> text::trimmed(address).len() > 0 && forall|j: int|
            !text::occurs_at(text::trimmed(address), j, "://"@),
{
    let t = text::trimmed(address);
    text::lemma_first_at(t, 0, "://"@);
    if forall|j: int| !text::occurs_at(t, j, "://"@) {
        match text::first_at(t, 0, "://"@) {
            Some(i) => {
                assert(text::occurs_at(t, i, "://"@));
            },
            None => {},
        }
    }
    if text::first_at(t, 0, "://"@) is None {
        assert forall|j: int| !text::occurs_at(t, j, "://"@) by {
            if j >= 0 {
                assert(!text::occurs_at(t, j, "://"@));
            }
        }
    }
}

/// What is said of an address that is refused tells the address, unless it is empty,
/// and begins with what the fault is: one of the transport for plain HTTP, and an
/// invalid address otherwise. Of a scheme that is not supported it tells the scheme.
pub proof fn a_refused_address_is_told(address: Seq<char>, fault: UrlFaultView)
    ensures
        ({
            let out = url::url_message(address, fault);
            &&& !(fault is Empty) ==> text::has_sub(out, "'"@ + address + "'"@)
            &&& fault is Insecure <==> text::begins_with(out, "Insecure RPC URL scheme 'http'"@)
            &&& fault is NotLocal <==> text::begins_with(out, "HTTP RPC URL"@)
            &&& fault matches UrlFaultView::Unsupported(scheme) ==> text::has_sub(
                out,
                "unsupported scheme '"@ + scheme + "'"@,
            )
        }),
{
    broadcast use text::lemma_sub_of_joined;

    let out = url::url_message(address, fault);
    let quoted = "'"@ + address + "'"@;
    text::lemma_sub_of_itself(quoted);
    lemma_message_words();
    match fault {
        UrlFaultView::Empty => {
            lemma_message_starts(out);
        },
        UrlFaultView::NoScheme => {
            assert(out =~= "Invalid RPC URL "@ + quoted
                + ": no scheme. Expected an 'https://' endpoint (e.g. https://soroban-testnet.stellar.org)."@);
            lemma_message_starts(out);
        },
        UrlFaultView::NoHost => {
            assert(out =~= "Invalid RPC URL "@ + quoted
                + ": no host after the scheme. Expected an 'https://<host>' endpoint."@);
            lemma_message_starts(out);
        },
        UrlFaultView::Insecure => {
            let rest = quoted
                + ". Use 'https://' for secure transport, or pass --allow-http-local for local development only."@;
            assert(out =~= "Insecure RPC URL scheme 'http'"@ + (" for "@ + rest));
            assert(text::has_sub(" for "@ + rest, quoted));
            lemma_begins(out, "Insecure RPC URL scheme 'http'"@, " for "@ + rest);
            assert(out[0] == 'I');
            lemma_not_at_first(out, "HTTP RPC URL"@);
        },
        UrlFaultView::NotLocal => {
            let rest = " "@ + quoted
                + " is not allowed. --allow-http-local only permits localhost or 127.0.0.1."@;
            assert(out =~= "HTTP RPC URL"@ + rest);
            lemma_begins(out, "HTTP RPC URL"@, rest);
            assert(out[0] == 'H');
            lemma_not_at_first(out, "Insecure RPC URL scheme 'http'"@);
        },
        UrlFaultView::Unsupported(scheme) => {
            let named = "unsupported scheme '"@ + scheme + "'"@;
            text::lemma_sub_of_itself(named);
            assert(out =~= "Invalid RPC URL "@ + quoted + ": "@ + named + ". Use 'https://'."@);
            lemma_message_starts(out);
        },
    }
}

proof fn lemma_begins(s: Seq<char>, a: Seq<char>, b: Seq<char>)
    requires
        s == a + b,
    ensures
        text::begins_with(s, a),
{
    assert((a + b).take(a.len() as int) =~= a);
}

proof fn lemma_not_at_first(s: Seq<char>, start: Seq<char>)
    requires
        s.len() > 0,
        start.len() > 0,
        s[0] != start[0],
    ensures
        !text::begins_with(s, start),
{
    if text::begins_with(s, start) {
        assert(s.take(start.len() as int)[0] == s[0]);
    }
}

proof fn lemma_message_starts(s: Seq<char>)
    requires
        s.len() > 2,
        s[0] == 'I',
        s[1] == 'n',
        s[2] == 'v',
    ensures
        !text::begins_with(s, "Insecure RPC URL scheme 'http'"@),
        !text::begins_with(s, "HTTP RPC URL"@),
{
    reveal_strlit("Insecure RPC URL scheme 'http'");
    reveal_strlit("HTTP RPC URL");
    lemma_not_at_first(s, "HTTP RPC URL"@);
    if text::begins_with(s, "Insecure RPC URL scheme 'http'"@) {
        assert(s.take("Insecure RPC URL scheme 'http'"@.len() as int)[2] == s[2]);
    }
}

proof fn lemma_message_words()
    ensures
        "Invalid RPC URL '"@ == "Invalid RPC URL "@ + "'"@,
        "Invalid RPC URL "@.len() > 2,
        "Invalid RPC URL "@[0] == 'I' && "Invalid RPC URL "@[1] == 'n' && "Invalid RPC URL "@[2]
            == 'v',
        "Invalid RPC URL: the value is empty. Expected an 'https://' endpoint."@.len() > 2,
        "Invalid RPC URL: the value is empty. Expected an 'https://' endpoint."@[0] == 'I',
        "Invalid RPC URL: the value is empty. Expected an 'https://' endpoint."@[1] == 'n',
        "Invalid RPC URL: the value is empty. Expected an 'https://' endpoint."@[2] == 'v',
        "': no scheme. Expected an 'https://' endpoint (e.g. https://soroban-testnet.stellar.org)."@
            == "'"@
            + ": no scheme. Expected an 'https://' endpoint (e.g. https://soroban-testnet.stellar.org)."@,
        "': no host after the scheme. Expected an 'https://<host>' endpoint."@ == "'"@
            + ": no host after the scheme. Expected an 'https://<host>' endpoint."@,
        "Insecure RPC URL scheme 'http' for '"@ == "Insecure RPC URL scheme 'http'"@ + " for "@
            + "'"@,
        "'. Use 'https://' for secure transport, or pass --allow-http-local for local development only."@
            == "'"@
            + ". Use 'https://' for secure transport, or pass --allow-http-local for local development only."@,
        "HTTP RPC URL '"@ == "HTTP RPC URL"@ + " "@ + "'"@,
        "' is not allowed. --allow-http-local only permits localhost or 127.0.0.1."@ == "'"@
            + " is not allowed. --allow-http-local only permits localhost or 127.0.0.1."@,
        "': unsupported scheme '"@ == "'"@ + ": "@ + "unsupported scheme '"@,
        "'. Use 'https://'."@ == "'"@ + ". Use 'https://'."@,
        "Insecure RPC URL scheme 'http'"@.len() > 0 && "Insecure RPC URL scheme 'http'"@[0] == 'I',
        "HTTP RPC URL"@.len() > 0 && "HTTP RPC URL"@[0] == 'H',
{
    reveal_strlit("Invalid RPC URL '");
    reveal_strlit("Invalid RPC URL ");
    reveal_strlit("'");
    reveal_strlit("Invalid RPC URL: the value is empty. Expected an 'https://' endpoint.");
    reveal_strlit("': no scheme. Expected an 'https://' endpoint (e.g. https://soroban-testnet.stellar.org).");
    reveal_strlit(": no scheme. Expected an 'https://' endpoint (e.g. https://soroban-testnet.stellar.org).");
    reveal_strlit("': no host after the scheme. Expected an 'https://<host>' endpoint.");
    reveal_strlit(": no host after the scheme. Expected an 'https://<host>' endpoint.");
    reveal_strlit("Insecure RPC URL scheme 'http' for '");
    reveal_strlit("Insecure RPC URL scheme 'http'");
    reveal_strlit(" for ");
    reveal_strlit("'. Use 'https://' for secure transport, or pass --allow-http-local for local development only.");
    reveal_strlit(". Use 'https://' for secure transport, or pass --allow-http-local for local development only.");
    reveal_strlit("HTTP RPC URL '");
    reveal_strlit("HTTP RPC URL");
    reveal_strlit(" ");
    reveal_strlit("' is not allowed. --allow-http-local only permits localhost or 127.0.0.1.");
    reveal_strlit(" is not allowed. --allow-http-local only permits localhost or 127.0.0.1.");
    reveal_strlit("': unsupported scheme '");
    reveal_strlit(": ");
    reveal_strlit("unsupported scheme '");
    reveal_strlit("'. Use 'https://'.");
    reveal_strlit(". Use 'https://'.");
    assert("Invalid RPC URL '"@ =~= "Invalid RPC URL "@ + "'"@);
    assert("': no scheme. Expected an 'https://' endpoint (e.g. https://soroban-testnet.stellar.org)."@ =~= "'"@ + ": no scheme. Expected an 'https://' endpoint (e.g. https://soroban-testnet.stellar.org)."@);
    assert("': no host after the scheme. Expected an 'https://<host>' endpoint."@ =~= "'"@ + ": no host after the scheme. Expected an 'https://<host>' endpoint."@);
    assert("Insecure RPC URL scheme 'http' for '"@ =~= "Insecure RPC URL scheme 'http'"@ + " for "@ + "'"@);
    assert("'. Use 'https://' for secure transport, or pass --allow-http-local for local development only."@ =~= "'"@ + ". Use 'https://' for secure transport, or pass --allow-http-local for local development only."@);
    assert("HTTP RPC URL '"@ =~= "HTTP RPC URL"@ + " "@ + "'"@);
    assert("' is not allowed. --allow-http-local only permits localhost or 127.0.0.1."@ =~= "'"@ + " is not allowed. --allow-http-local only permits localhost or 127.0.0.1."@);
    assert("': unsupported scheme '"@ =~= "'"@ + ": "@ + "unsupported scheme '"@);
    assert("'. Use 'https://'."@ =~= "'"@ + ". Use 'https://'."@);
}

} // verus!
