//! The request for an optimization proposal, and reading the reply.
use vstd::prelude::*;
use vstd::string::*;
use crate::daemon::{DaemonUrlError, completion_endpoint, daemon_url_verdict, validate_daemon_url, COMPLETION_PATH};

verus! {

/// Opening of the prompt, before the target's path.
pub const PROMPT_HEAD: &'static str = "Suggest ONE small optimization for this Rust file. Focus on performance, not style. Reply with ONLY the optimized code.\n\nFile: ";

/// Between the target's path and its content.
pub const CODE_OPEN: &'static str = "\n```rust\n";

/// After the target's content.
pub const CODE_CLOSE: &'static str = "\n```";

/// Most tokens the model may answer with.
pub const MAX_PROPOSAL_TOKENS: u32 = 1024;

/// The agent the daemon attributes the request to.
pub const AGENT_ID: &'static str = "autoresearch";

/// What is recorded when the reply carries no text.
pub const NO_PROPOSAL: &'static str = "no proposal";

/// The prompt for a target file with the given content.
pub open spec fn prompt_text(target: Seq<char>, content: Seq<char>) -> Seq<char> {
    PROMPT_HEAD@ + target + CODE_OPEN@ + content + CODE_CLOSE@
}

/// Builds the prompt asking for one optimization of `target`.
pub fn build_prompt(target: &str, content: &str) -> (r: String)
    ensures
        r@ == prompt_text(target@, content@),
{
    let mut r = String::from_str(PROMPT_HEAD);
    r.append(target);
    r.append(CODE_OPEN);
    r.append(content);
    r.append(CODE_CLOSE);
    r
}

/// Everything the completion request carries.
pub struct ProposalRequest {
    pub endpoint: String,
    pub prompt: String,
    pub max_tokens: u32,
    pub agent_id: String,
}

/// The request for a proposal on `target` (whose text is `content`), sent
/// to the daemon at `daemon_url`; refused, with the reason, when the URL is
/// not a local daemon URL.
pub fn proposal_request(daemon_url: &str, target: &str, content: &str) -> (r: Result<
    ProposalRequest,
    DaemonUrlError,
>)
    ensures
        match r {
            Ok(req) => {
                &&& daemon_url_verdict(daemon_url.spec_bytes()) is Ok
                &&& req.endpoint@ == daemon_url@ + COMPLETION_PATH@
                &&& req.prompt@ == prompt_text(target@, content@)
                &&& req.max_tokens == MAX_PROPOSAL_TOKENS
                &&& req.agent_id@ == AGENT_ID@
            },
            Err(e) => daemon_url_verdict(daemon_url.spec_bytes()) == Err::<(), DaemonUrlError>(e),
        },
{
    match validate_daemon_url(daemon_url) {
        Err(e) => Err(e),
        Ok(()) => Ok(
            ProposalRequest {
                endpoint: completion_endpoint(daemon_url),
                prompt: build_prompt(target, content),
                max_tokens: MAX_PROPOSAL_TOKENS,
                agent_id: String::from_str(AGENT_ID),
            },
        ),
    }
}

/// The proposal in a reply: its `content` text when there is one, and
/// `NO_PROPOSAL` otherwise.
pub fn proposal_from_reply(content: Option<&str>) -> (r: String)
    ensures
        content matches Some(c) ==> r@ == c@,
        content is None ==> r@ == NO_PROPOSAL@,
{
    match content {
        Some(c) => String::from_str(c),
        None => String::from_str(NO_PROPOSAL),
    }
}

} // verus!
