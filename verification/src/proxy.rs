//! WebSocket proxy for terminal connections to sandboxes.
//!
//! Which requests are accepted, and where they are connected to.

use crate::text::{joined, replace, replaced, starts_with};
use vstd::prelude::*;

verus! {

/// Seconds that connecting to the portal may take.
pub const CONNECT_TIMEOUT_SECS: u64 = 10;

/// Sandbox name validation regex pattern.
pub const SANDBOX_NAME_PATTERN: &'static str = "^[a-zA-Z0-9_-]{1,64}$";

/// `c` may stand in a sandbox name.
pub open spec fn is_name_char(c: char) -> bool {
    'a' <= c <= 'z' || 'A' <= c <= 'Z' || '0' <= c <= '9' || c == '_' || c == '-'
}

/// `text` is a sandbox name: 1 to 64 letters, digits, underscores and hyphens.
pub open spec fn is_sandbox_name(text: Seq<char>) -> bool {
    &&& 1 <= text.len() <= 64
    &&& forall|i: int| 0 <= i < text.len() ==> is_name_char(#[trigger] text[i])
}

/// Calls `Regex::new` and `Regex::is_match` of the `regex` crate.
///
/// Trusted: the sandbox name pattern is a valid one, and matches exactly the sandbox names, since
/// `^` and `$` stand for the beginning and the end of the whole text, the class for one of its
/// characters and the braces for how many there are. Only this pattern is handed in.
#[verifier::external_body]
fn matches_pattern(pattern: &str, text: &str) -> (matched: bool)
    requires
        pattern@ == SANDBOX_NAME_PATTERN@,
    ensures
        matched == is_sandbox_name(text@),
{
    regex::Regex::new(pattern).unwrap().is_match(text)
}

/// Why a proxy request is refused.
#[derive(Debug)]
pub enum ValidationError {
    /// The request names something that is not a valid name.
    InvalidInput(String),
}

/// Handle a request for the route `/ws/terminal/:namespace/:sandbox`: whether it is accepted.
///
/// The sandbox name is looked at first.
pub fn terminal_ws_proxy(namespace: &str, sandbox: &str) -> (accepted: Result<(), ValidationError>)
    ensures
        accepted is Ok <==> is_sandbox_name(sandbox@) && is_sandbox_name(namespace@),
        !is_sandbox_name(sandbox@) ==> (accepted matches Err(ValidationError::InvalidInput(text))
            && text@ == "Invalid sandbox name: "@ + sandbox@),
        is_sandbox_name(sandbox@) && !is_sandbox_name(namespace@) ==> (accepted matches Err(
            ValidationError::InvalidInput(text),
        ) && text@ == "Invalid namespace: "@ + namespace@),
{
    // Validate sandbox name
    if !matches_pattern(SANDBOX_NAME_PATTERN, sandbox) {
        return Err(ValidationError::InvalidInput(joined("Invalid sandbox name: ", sandbox)));
    }
    if !matches_pattern(SANDBOX_NAME_PATTERN, namespace) {
        return Err(ValidationError::InvalidInput(joined("Invalid namespace: ", namespace)));
    }
    Ok(())
}

/// The WebSocket URL of the terminal endpoint of the portal at `portal_url`.
pub open spec fn terminal_url(portal_url: Seq<char>) -> Seq<char> {
    replaced(replaced(portal_url, "http://"@, "ws://"@), "https://"@, "wss://"@) + "/ws/terminal"@
}

/// Build the WebSocket URL for the portal terminal endpoint.
pub fn portal_terminal_url(portal_url: &str) -> (url: String)
    ensures
        url@ == terminal_url(portal_url@),
{
    proof {
        reveal_strlit("http://");
        reveal_strlit("https://");
    }
    let plain = replace(portal_url, "http://", "ws://");
    let secure = replace(&plain, "https://", "wss://");
    secure.concat("/ws/terminal")
}

/// `part` does not occur in `text`.
pub open spec fn absent(text: Seq<char>, part: Seq<char>) -> bool {
    forall|i: int| 0 <= i < text.len() ==> !starts_with(#[trigger] text.skip(i), part)
}

/// Replacing what does not occur changes nothing.
proof fn lemma_absent_is_kept(text: Seq<char>, from: Seq<char>, to: Seq<char>)
    requires
        absent(text, from),
    ensures
        replaced(text, from, to) == text,
    decreases text.len(),
{
    if from.len() > 0 && text.len() > 0 {
        assert(text.skip(0) =~= text);
        let rest = text.skip(1);
        assert forall|i: int| 0 <= i < rest.len() implies !starts_with(
            #[trigger] rest.skip(i),
            from,
        ) by {
            assert(rest.skip(i) =~= text.skip(i + 1));
        }
        lemma_absent_is_kept(rest, from, to);
        assert(seq![text[0]] + rest =~= text);
    }
}

/// Replacing goes past a beginning in which no occurrence starts.
proof fn lemma_replaced_after(
    front: Seq<char>,
    back: Seq<char>,
    from: Seq<char>,
    to: Seq<char>,
)
    requires
        from.len() > 0,
        forall|i: int| 0 <= i < front.len() ==> !starts_with(#[trigger] (front + back).skip(i), from),
    ensures
        replaced(front + back, from, to) == front + replaced(back, from, to),
    decreases front.len(),
{
    let text = front + back;
    if front.len() == 0 {
        assert(text =~= back);
        assert(front + replaced(back, from, to) =~= replaced(back, from, to));
    } else {
        assert(text.skip(0) =~= text);
        let rest = front.skip(1);
        assert(text.skip(1) =~= rest + back);
        assert forall|i: int| 0 <= i < rest.len() implies !starts_with(
            #[trigger] (rest + back).skip(i),
            from,
        ) by {
            assert((rest + back).skip(i) =~= text.skip(i + 1));
        }
        lemma_replaced_after(rest, back, from, to);
        assert(seq![text[0]] + (rest + replaced(back, from, to)) =~= front + replaced(
            back,
            from,
            to,
        ));
    }
}

/// A plain portal URL becomes a plain WebSocket URL on the same host: `http://` at its beginning
/// turns into `ws://`, and the endpoint is added at its end.
pub proof fn law_http_becomes_ws(rest: Seq<char>)
    requires
        absent(rest, "http://"@),
        absent(rest, "https://"@),
    ensures
        terminal_url("http://"@ + rest) == "ws://"@ + rest + "/ws/terminal"@,
{
    reveal_strlit("http://");
    reveal_strlit("https://");
    reveal_strlit("ws://");
    let http = "http://"@;
    let https = "https://"@;
    let ws = "ws://"@;
    let text = http + rest;
    assert(text.take(http.len() as int) =~= http);
    assert(text.skip(http.len() as int) =~= rest);
    lemma_absent_is_kept(rest, http, ws);
    assert(replaced(text, http, ws) == ws + rest);
    assert forall|i: int| 0 <= i < ws.len() implies !starts_with(
        #[trigger] (ws + rest).skip(i),
        https,
    ) by {
        assert((ws + rest).skip(i)[0] == ws[i]);
        if starts_with((ws + rest).skip(i), https) {
            assert((ws + rest).skip(i).take(https.len() as int)[0] == https[0]);
        }
    }
    lemma_replaced_after(ws, rest, https, "wss://"@);
    lemma_absent_is_kept(rest, https, "wss://"@);
}

/// A secure portal URL becomes a secure WebSocket URL on the same host: `https://` at its beginning
/// turns into `wss://`, and the endpoint is added at its end.
pub proof fn law_https_becomes_wss(rest: Seq<char>)
    requires
        absent(rest, "http://"@),
        absent(rest, "https://"@),
    ensures
        terminal_url("https://"@ + rest) == "wss://"@ + rest + "/ws/terminal"@,
{
    reveal_strlit("http://");
    reveal_strlit("https://");
    let http = "http://"@;
    let https = "https://"@;
    let text = https + rest;
    assert forall|i: int| 0 <= i < https.len() implies !starts_with(
        #[trigger] text.skip(i),
        http,
    ) by {
        assert(text.skip(i)[0] == https[i]);
        if starts_with(text.skip(i), http) {
            assert(text.skip(i).take(http.len() as int)[0] == http[0]);
            assert(text.skip(i).take(http.len() as int)[4] == http[4]);
        }
    }
    lemma_replaced_after(https, rest, http, "ws://"@);
    lemma_absent_is_kept(rest, http, "ws://"@);
    assert(text.take(https.len() as int) =~= https);
    assert(text.skip(https.len() as int) =~= rest);
    lemma_absent_is_kept(rest, https, "wss://"@);
}

/// What connecting to the portal came to.
#[derive(Debug)]
pub enum ConnectOutcome<S> {
    /// There is a connection.
    Connected(S),
    /// Connecting failed, for this reason.
    Failed(String),
    /// Connecting took too long.
    TimedOut,
}

/// Connect to the portal WebSocket, given what the attempt came to within
/// [`CONNECT_TIMEOUT_SECS`].
pub fn connect_to_portal<S>(outcome: ConnectOutcome<S>) -> (socket: Result<S, String>)
    ensures
        match outcome {
            ConnectOutcome::Connected(found) => socket == Ok::<S, String>(found),
            ConnectOutcome::Failed(cause) => socket matches Err(text) && text@
                == "WebSocket connection failed: "@ + cause@,
            ConnectOutcome::TimedOut => socket matches Err(text) && text@ == "Connection timeout"@,
        },
{
    match outcome {
        ConnectOutcome::Connected(found) => Ok(found),
        ConnectOutcome::Failed(cause) => Err(joined("WebSocket connection failed: ", &cause)),
        ConnectOutcome::TimedOut => Err(String::from("Connection timeout")),
    }
}

/// Sandbox names are from 1 to 64 characters long, each an ASCII letter or digit, an underscore or a
/// hyphen, and every such text is one.
pub proof fn law_sandbox_names(text: Seq<char>)
    ensures
        is_sandbox_name(text) <==> 0 < text.len() < 65 && (forall|i: int|
            0 <= i < text.len() ==> {
                let c = #[trigger] text[i];
                97 <= c as int <= 122 || 65 <= c as int <= 90 || 48 <= c as int <= 57 || c == '_'
                    || c == '-'
            }),
        SANDBOX_NAME_PATTERN@ == "^[a-zA-Z0-9_-]{1,64}$"@,
{
}

/// In a portal URL every plain scheme becomes that of plain WebSockets, then every secure one that of
/// secure WebSockets; the terminal endpoint is added at its end.
pub proof fn law_url_schemes(portal_url: Seq<char>)
    ensures
        ({
            let plain = replaced(portal_url, "http://"@, "ws://"@);
            let both = replaced(plain, "https://"@, "wss://"@);
            &&& terminal_url(portal_url).len() == both.len() + "/ws/terminal"@.len()
            &&& terminal_url(portal_url).take(both.len() as int) == both
            &&& terminal_url(portal_url).skip(both.len() as int) == "/ws/terminal"@
        }),
{
    let both = replaced(replaced(portal_url, "http://"@, "ws://"@), "https://"@, "wss://"@);
    assert(terminal_url(portal_url).take(both.len() as int) =~= both);
    assert(terminal_url(portal_url).skip(both.len() as int) =~= "/ws/terminal"@);
}

/// Connecting may take ten seconds.
pub proof fn law_connect_timeout()
    ensures
        CONNECT_TIMEOUT_SECS == 10,
{
}

} // verus!
