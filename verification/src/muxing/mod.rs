//! HLS streaming: segments, playlists, encoder arguments and sessions.
use crate::text::{contains_text, has_text, lower, occurs_at, to_lower};
use vstd::prelude::*;

pub mod args;
pub mod playlists;
pub mod segments;
pub mod sessions;

verus! {

/// How a media item is turned into an HLS stream.
#[derive(Debug, Clone, Copy, PartialEq, Eq, Structural)]
pub enum HlsMode {
    /// Video and audio are copied.
    HlsRemux,
    /// Video is copied, audio is encoded.
    HlsAudioTranscode,
    /// Video and audio are encoded.
    HlsFullTranscode,
    /// The item is not streamed over HLS.
    NotHls,
}

impl HlsMode {
    /// Whether the item is streamed over HLS.
    pub fn is_hls(self) -> (r: bool)
        ensures
            r == !(self is NotHls),
    {
        match self {
            HlsMode::NotHls => false,
            _ => true,
        }
    }
}

/// What is known of the client's browser.
#[derive(Debug, Clone, Copy, PartialEq, Eq, Structural)]
pub enum BrowserHint {
    Generic,
    Safari,
}

/// Whether a user agent is Safari: others carry its name beside their own.
pub open spec fn is_safari(user_agent: Seq<char>) -> bool {
    let name = lower(user_agent);
    &&& has_text(name, "safari"@)
    &&& !has_text(name, "chrome"@)
    &&& !has_text(name, "chromium"@)
    &&& !has_text(name, "edg/"@)
    &&& !has_text(name, "firefox"@)
}

/// Whether a user agent is Safari.
pub fn is_safari_user_agent(ua: &str) -> (r: bool)
    ensures
        r == is_safari(ua@),
{
    let name: String = to_lower(ua);
    let name: &str = name.as_str();
    contains_text(name, "safari") && !contains_text(name, "chrome") && !contains_text(
        name,
        "chromium",
    ) && !contains_text(name, "edg/") && !contains_text(name, "firefox")
}

impl BrowserHint {
    pub fn from_user_agent(user_agent: Option<&str>) -> (r: BrowserHint)
        ensures
            r is Safari <==> (user_agent matches Some(ua) && is_safari(ua@)),
    {
        match user_agent {
            Some(ua) => {
                if is_safari_user_agent(ua) {
                    BrowserHint::Safari
                } else {
                    BrowserHint::Generic
                }
            },
            None => BrowserHint::Generic,
        }
    }
}

/// A browser that names Chrome, Chromium, Edge or Firefox anywhere in its user agent, in
/// any case of letters, is not taken for Safari; nor is one that does not name Safari.
/// One that names Safari alone is.
pub proof fn law_safari_is_named_alone(user_agent: Seq<char>)
    ensures
        ({
            let agent = lower(user_agent);
            &&& has_text(agent, "chrome"@) || has_text(agent, "chromium"@) || has_text(
                agent,
                "edg/"@,
            ) || has_text(agent, "firefox"@) ==> !is_safari(user_agent)
            &&& !has_text(agent, "safari"@) ==> !is_safari(user_agent)
            &&& has_text(agent, "safari"@) && !has_text(agent, "chrom"@) && !has_text(agent, "edg"@)
                && !has_text(agent, "firefox"@) ==> is_safari(user_agent)
        }),
{
    let agent = lower(user_agent);
    reveal_strlit("chrom");
    reveal_strlit("chrome");
    reveal_strlit("chromium");
    reveal_strlit("edg");
    reveal_strlit("edg/");
    if has_text(agent, "chrome"@) {
        let i = choose|i: int| occurs_at(agent, "chrome"@, i);
        assert(agent.subrange(i, i + 5) =~= agent.subrange(i, i + 6).take(5));
        assert("chrome"@.take(5) =~= "chrom"@);
        assert(occurs_at(agent, "chrom"@, i));
    }
    if has_text(agent, "chromium"@) {
        let i = choose|i: int| occurs_at(agent, "chromium"@, i);
        assert(agent.subrange(i, i + 5) =~= agent.subrange(i, i + 8).take(5));
        assert("chromium"@.take(5) =~= "chrom"@);
        assert(occurs_at(agent, "chrom"@, i));
    }
    if has_text(agent, "edg/"@) {
        let i = choose|i: int| occurs_at(agent, "edg/"@, i);
        assert(agent.subrange(i, i + 3) =~= agent.subrange(i, i + 4).take(3));
        assert("edg/"@.take(3) =~= "edg"@);
        assert(occurs_at(agent, "edg"@, i));
    }
}

} // verus!
