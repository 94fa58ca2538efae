//! Configuration of the local Ollama endpoint and the model identifiers that
//! route a request to it.

use vstd::prelude::*;

use crate::text::{
    chars_of, concat_chars, has_prefix, split_after_ascii_prefix, starts_with_chars, string_of,
    sub_chars, trim_end_char, trim_end_char_len,
};

verus! {

/// Default Ollama API endpoint.
pub const DEFAULT_OLLAMA_URL: &'static str = "http://localhost:11434";

/// Default model to use with Ollama.
pub const DEFAULT_OLLAMA_MODEL: &'static str = "llama3.1";

/// Prefix that marks a model identifier as an Ollama model: an Ollama model
/// identifier looks like `ollama:llama3.1`.
pub const OLLAMA_MODEL_PREFIX: &'static str = "ollama:";

/// Path of the OpenAI-compatible chat completions endpoint.
pub const CHAT_COMPLETIONS_PATH: &'static str = "/v1/chat/completions";

/// Path of the endpoint that lists the locally available models.
pub const TAGS_PATH: &'static str = "/api/tags";

/// The URL of the endpoint at `path` under `base`: the base URL without its
/// trailing slashes, followed by the path.
pub open spec fn endpoint_url(base: Seq<char>, path: Seq<char>) -> Seq<char> {
    trim_end_char(base, '/') + path
}

/// The identifier of the Ollama model called `name`.
pub open spec fn spec_model_id(name: Seq<char>) -> Seq<char> {
    OLLAMA_MODEL_PREFIX@ + name
}

/// Whether `id` names an Ollama model.
pub open spec fn spec_is_ollama_model_id(id: Seq<char>) -> bool {
    has_prefix(id, OLLAMA_MODEL_PREFIX@)
}

/// The model name inside an Ollama model identifier, if `id` is one.
pub open spec fn spec_extract_model_name(id: Seq<char>) -> Option<Seq<char>> {
    if spec_is_ollama_model_id(id) {
        Some(id.skip(OLLAMA_MODEL_PREFIX@.len() as int))
    } else {
        None
    }
}

/// Configuration for connecting to a local Ollama instance.
#[derive(Clone, Debug)]
pub struct OllamaConfig {
    /// Whether Ollama integration is enabled.
    pub enabled: bool,
    /// The base URL for the Ollama API (e.g. `http://localhost:11434`).
    pub base_url: String,
    /// The model name to use (e.g. `llama3.1`, `codellama`, `mistral`).
    pub model: String,
}

impl Default for OllamaConfig {
    fn default() -> (config: Self)
        ensures
            config.enabled,
            config.base_url@ == DEFAULT_OLLAMA_URL@,
            config.model@ == DEFAULT_OLLAMA_MODEL@,
    {
        OllamaConfig {
            enabled: true,
            base_url: DEFAULT_OLLAMA_URL.to_owned(),
            model: DEFAULT_OLLAMA_MODEL.to_owned(),
        }
    }
}

/// `base` without trailing slashes, followed by `path`.
fn join_endpoint(base: &str, path: &str) -> (url: String)
    ensures
        url@ == endpoint_url(base@, path@),
{
    let chars = chars_of(base);
    let n = trim_end_char_len(&chars, '/');
    let trimmed = sub_chars(&chars, 0, n);
    let joined = concat_chars(&trimmed, &chars_of(path));
    assert(chars@.take(n as int) =~= chars@.subrange(0, n as int));
    string_of(joined.as_slice())
}

impl OllamaConfig {
    /// Returns the OpenAI-compatible chat completions endpoint URL.
    pub fn chat_completions_url(&self) -> (url: String)
        ensures
            url@ == endpoint_url(self.base_url@, CHAT_COMPLETIONS_PATH@),
    {
        join_endpoint(self.base_url.as_str(), CHAT_COMPLETIONS_PATH)
    }

    /// Returns the Ollama API tags endpoint for listing available models.
    pub fn tags_url(&self) -> (url: String)
        ensures
            url@ == endpoint_url(self.base_url@, TAGS_PATH@),
    {
        join_endpoint(self.base_url.as_str(), TAGS_PATH)
    }

    /// Creates a model identifier string for a given model name.
    pub fn model_id(model_name: &str) -> (id: String)
        ensures
            id@ == spec_model_id(model_name@),
    {
        let prefix = chars_of(OLLAMA_MODEL_PREFIX);
        let joined = concat_chars(&prefix, &chars_of(model_name));
        string_of(joined.as_slice())
    }

    /// Checks if a model identifier string represents an Ollama model.
    pub fn is_ollama_model_id(id: &str) -> (b: bool)
        ensures
            b == spec_is_ollama_model_id(id@),
    {
        starts_with_chars(&chars_of(id), &chars_of(OLLAMA_MODEL_PREFIX))
    }

    /// Extracts the model name from an Ollama model identifier.
    pub fn extract_model_name(id: &str) -> (name: Option<&str>)
        ensures
            match name {
                Some(n) => spec_extract_model_name(id@) == Some(n@),
                None => spec_extract_model_name(id@) is None,
            },
    {
        if Self::is_ollama_model_id(id) {
            proof {
                reveal_strlit("ollama:");
                assert(id@.take(7) == OLLAMA_MODEL_PREFIX@);
            }
            Some(split_after_ascii_prefix(id, 7))
        } else {
            None
        }
    }
}

// ---------------------------------------------------------------------------
// Laws
// ---------------------------------------------------------------------------

/// The identifier made for a model name is an Ollama model identifier, and
/// extracting the model name from it gives the name back.
pub proof fn law_model_id_round_trip(name: Seq<char>)
    ensures
        spec_is_ollama_model_id(spec_model_id(name)),
        spec_extract_model_name(spec_model_id(name)) == Some(name),
{
    let id = spec_model_id(name);
    assert(id.take(OLLAMA_MODEL_PREFIX@.len() as int) =~= OLLAMA_MODEL_PREFIX@);
    assert(id.skip(OLLAMA_MODEL_PREFIX@.len() as int) =~= name);
}

/// A model name can be extracted from exactly the Ollama model identifiers,
/// and the identifier of the extracted name is the identifier it came from.
pub proof fn law_extract_model_name_inverts_model_id(id: Seq<char>)
    ensures
        spec_is_ollama_model_id(id) <==> spec_extract_model_name(id) is Some,
        spec_extract_model_name(id) matches Some(name) ==> spec_model_id(name) == id,
{
    if spec_is_ollama_model_id(id) {
        let n = OLLAMA_MODEL_PREFIX@.len() as int;
        assert(id.take(n) + id.skip(n) =~= id);
    }
}

/// The base URL without trailing slashes never ends in a slash, and it is a
/// prefix of the base URL.
pub proof fn law_trimmed_base(base: Seq<char>)
    ensures
        trim_end_char(base, '/').len() > 0 ==> trim_end_char(base, '/').last() != '/',
        has_prefix(base, trim_end_char(base, '/')),
    decreases base.len(),
{
    if base.len() > 0 && base.last() == '/' {
        law_trimmed_base(base.drop_last());
        let t = trim_end_char(base.drop_last(), '/');
        assert(base.take(t.len() as int) =~= base.drop_last().take(t.len() as int));
    } else {
        assert(base.take(base.len() as int) =~= base);
    }
}

/// Trailing slashes on the base URL do not change an endpoint URL.
pub proof fn law_endpoint_url_ignores_trailing_slash(base: Seq<char>, path: Seq<char>)
    ensures
        endpoint_url(base.push('/'), path) == endpoint_url(base, path),
{
    assert(base.push('/').drop_last() =~= base);
}

/// The model name of an Ollama identifier is the identifier with exactly the
/// prefix removed, all the rest kept; other identifiers have none.
pub proof fn law_extracted_name_is_the_rest(id: Seq<char>)
    ensures
        has_prefix(id, OLLAMA_MODEL_PREFIX@) ==> (spec_extract_model_name(id) matches Some(n)
            && OLLAMA_MODEL_PREFIX@ + n == id),
        !has_prefix(id, OLLAMA_MODEL_PREFIX@) ==> spec_extract_model_name(id) is None,
        spec_model_id(id) == OLLAMA_MODEL_PREFIX@ + id,
{
    if has_prefix(id, OLLAMA_MODEL_PREFIX@) {
        let k = OLLAMA_MODEL_PREFIX@.len() as int;
        assert(id.take(k) + id.skip(k) =~= id);
    }
}

/// A base URL that does not end in a slash is used as it is: the endpoint URL
/// is the base followed by the path.
pub proof fn law_endpoint_url_of_clean_base(base: Seq<char>, path: Seq<char>)
    requires
        base.len() == 0 || base.last() != '/',
    ensures
        endpoint_url(base, path) == base + path,
{
}

} // verus!
