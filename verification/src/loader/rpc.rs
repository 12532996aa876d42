//! What is said where a request to an RPC endpoint fails.

use vstd::prelude::*;

use crate::text;

verus! {

/// Whether the text of a transport error tells of a timeout.
pub open spec fn is_timeout(error: Seq<char>) -> bool {
    text::has_sub(error, "timed out"@) || text::has_sub(error, "Timeout"@) || text::has_sub(
        error,
        "timeout"@,
    )
}

/// What is said of a request that failed on the way.
pub open spec fn transport_text(url: Seq<char>, timeout_secs: u64, error: Seq<char>) -> Seq<char> {
    if is_timeout(error) {
        "RPC request to '"@ + url + "' timed out after "@ + text::decimal(timeout_secs as nat)
            + " second(s). The endpoint may be unresponsive. Use --rpc-timeout-secs to adjust the timeout."@
    } else {
        "RPC request to '"@ + url + "' failed: "@ + error
    }
}

/// What is said of a request that failed on the way. A timeout is told apart by
/// the text of the error.
pub fn transport_message(url: &str, timeout_secs: u64, error: &str) -> (r: String)
    ensures
        r@ == transport_text(url@, timeout_secs, error@),
{
    let mut out = "RPC request to '".to_string();
    out.append(url);
    if text::contains_text(error, "timed out") || text::contains_text(error, "Timeout")
        || text::contains_text(error, "timeout") {
        out.append("' timed out after ");
        out.append(text::decimal_text(timeout_secs).as_str());
        out.append(
            " second(s). The endpoint may be unresponsive. Use --rpc-timeout-secs to adjust the timeout.",
        );
    } else {
        out.append("' failed: ");
        out.append(error);
    }
    out
}

/// What is said of a reply that is no JSON.
pub open spec fn reply_text(url: Seq<char>, error: Seq<char>) -> Seq<char> {
    "Failed to parse RPC response from '"@ + url + "': "@ + error
}

/// What is said of a reply that is no JSON.
pub fn reply_message(url: &str, error: &str) -> (r: String)
    ensures
        r@ == reply_text(url@, error@),
{
    let mut out = "Failed to parse RPC response from '".to_string();
    out.append(url);
    out.append("': ");
    out.append(error);
    out
}

/// A signed number in decimal.
pub open spec fn number_text(n: i64) -> Seq<char> {
    if n >= 0 {
        text::decimal(n as nat)
    } else {
        "-"@ + text::decimal((-(n as int)) as nat)
    }
}

/// What is said of an error that the endpoint replied with. What it left out is
/// taken as zero and as unknown.
pub open spec fn rpc_error_text(code: Option<i64>, message: Option<&str>) -> Seq<char> {
    "RPC Error (code "@ + number_text(
        match code {
            Some(c) => c,
            None => 0,
        },
    ) + "): "@ + (match message {
        Some(m) => m@,
        None => "Unknown RPC error"@,
    })
}

fn number_of(n: i64) -> (r: String)
    ensures
        r@ == number_text(n),
{
    let digits = text::decimal_text(text::magnitude(n));
    if n >= 0 {
        digits
    } else {
        text::two("-", digits.as_str())
    }
}

/// What is said of an error that the endpoint replied with.
pub fn rpc_error_message(code: Option<i64>, message: Option<&str>) -> (r: String)
    ensures
        r@ == rpc_error_text(code, message),
{
    let mut out = "RPC Error (code ".to_string();
    out.append(
        number_of(
            match code {
                Some(c) => c,
                None => 0,
            },
        ).as_str(),
    );
    out.append("): ");
    out.append(
        match message {
            Some(m) => m,
            None => "Unknown RPC error",
        },
    );
    out
}

} // verus!
