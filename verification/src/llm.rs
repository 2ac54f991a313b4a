//! The choice of the service that runs the simulation engine.

use vstd::prelude::*;

verus! {

/// The kinds of service that can run the simulation engine.
#[derive(Clone, Copy, PartialEq, Eq, Structural, Debug)]
pub enum ProviderKind {
    /// A service that follows the OpenAI chat completions interface.
    OpenAi,
    /// A local Ollama server.
    Ollama,
}

/// The lower-case form of a text, as `str::to_lowercase` gives it.
pub uninterp spec fn lowercase(s: Seq<char>) -> Seq<char>;

/// `str::to_lowercase` from std: the text with every character mapped to its
/// lower-case form by the Unicode tables. Its result is named, not stated.
#[verifier::external_body]
fn to_lowercase(s: &str) -> (r: String)
    ensures
        r@ == lowercase(s@),
{
    s.to_lowercase()
}

/// The service named by `name`, already in lower case: "openai" or
/// "open_ai" (which needs an API key) or "ollama"; any other name is refused.
pub fn provider_from_lowercase(name: &str, has_api_key: bool) -> (r: Result<ProviderKind, String>)
    ensures
        if name@ == "openai"@ || name@ == "open_ai"@ {
            if has_api_key { r == Ok::<ProviderKind, String>(ProviderKind::OpenAi) } else {
                r matches Err(e) && e@ == "OpenAI provider requires an API key"@
            }
        } else if name@ == "ollama"@ {
            r == Ok::<ProviderKind, String>(ProviderKind::Ollama)
        } else {
            r matches Err(e) && e@ == "Unknown provider '"@ + name@ + "'. Supported: openai, ollama"@
        },
{
    if crate::text::same_text(name, "openai") || crate::text::same_text(name, "open_ai") {
        if has_api_key {
            Ok(ProviderKind::OpenAi)
        } else {
            Err("OpenAI provider requires an API key".to_owned())
        }
    } else if crate::text::same_text(name, "ollama") {
        Ok(ProviderKind::Ollama)
    } else {
        Err(crate::text::join3("Unknown provider '", name, "'. Supported: openai, ollama"))
    }
}

/// The service named by `provider`, in any case.
pub fn select_provider(provider: &str, has_api_key: bool) -> (r: Result<ProviderKind, String>)
    ensures
        ({
            let name = lowercase(provider@);
            if name == "openai"@ || name == "open_ai"@ {
                if has_api_key { r == Ok::<ProviderKind, String>(ProviderKind::OpenAi) } else {
                    r matches Err(e) && e@ == "OpenAI provider requires an API key"@
                }
            } else if name == "ollama"@ {
                r == Ok::<ProviderKind, String>(ProviderKind::Ollama)
            } else {
                r matches Err(e) && e@ == "Unknown provider '"@ + name + "'. Supported: openai, ollama"@
            }
        }),
{
    let name = to_lowercase(provider);
    provider_from_lowercase(name.as_str(), has_api_key)
}

/// The number of slashes in a text.
pub open spec fn slash_count(t: Seq<char>) -> nat
    decreases t.len(),
{
    if t.len() == 0 {
        0
    } else {
        slash_count(t.drop_last()) + if t.last() == '/' { 1nat } else { 0nat }
    }
}

/// The text ends in a slash.
pub open spec fn ends_in_slash(t: Seq<char>) -> bool {
    t.len() > 0 && t.last() == '/'
}

/// The address names a server and nothing more, as `http://localhost:11434`
/// does: it has no slash beyond those of its scheme, but for one at its end.
pub open spec fn names_server_only(e: Seq<char>) -> bool {
    slash_count(e) <= 2 || (slash_count(e) == 3 && ends_in_slash(e))
}

/// Where chat requests to an Ollama server go: `http://localhost:11434/api/chat`
/// when no address is configured; a configured address that names only the
/// server, with the chat path `/api/chat` added; any other address as it is.
pub open spec fn ollama_chat_url(endpoint: Option<Seq<char>>) -> Seq<char> {
    match endpoint {
        None => "http://localhost:11434/api/chat"@,
        Some(e) => if !names_server_only(e) {
            e
        } else if ends_in_slash(e) {
            e + "api/chat"@
        } else {
            e + "/api/chat"@
        },
    }
}

/// Where chat requests to an Ollama server go, from the configured address.
pub fn ollama_chat_endpoint(endpoint: Option<&str>) -> (r: String)
    ensures
        r@ == ollama_chat_url(match endpoint {
            Some(e) => Some(e@),
            None => None,
        }),
{
    let e = match endpoint {
        Some(e) => e,
        None => {
            proof { reveal_strlit("http://localhost:11434/api/chat"); }
            return "http://localhost:11434/api/chat".to_owned();
        },
    };
    let n = e.unicode_len();
    let mut slashes: usize = 0;
    let mut i: usize = 0;
    while i < n
        invariant
            n == e@.len(),
            i <= n,
            slashes == slash_count(e@.take(i as int)),
            slashes <= i,
        decreases n - i,
    {
        assert(e@.take(i + 1).drop_last() =~= e@.take(i as int));
        if e.get_char(i) == '/' {
            slashes = slashes + 1;
        }
        i = i + 1;
    }
    assert(e@.take(n as int) =~= e@);
    let trailing = n > 0 && e.get_char(n - 1) == '/';
    let mut r = e.to_owned();
    if slashes <= 2 || (slashes == 3 && trailing) {
        if trailing {
            proof { reveal_strlit("api/chat"); }
            r.append("api/chat");
        } else {
            proof { reveal_strlit("/api/chat"); }
            r.append("/api/chat");
        }
    }
    r
}

} // verus!
