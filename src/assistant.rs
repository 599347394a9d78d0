//! The assistant's provider listing and prompt.
use vstd::prelude::*;

use crate::text::{find_char, find_char_from, skip_ws, skip_ws_from, token_end, token_end_from};

verus! {

/// One message of a chat.
pub struct ChatMessage {
    /// `user`, `assistant` or `system`.
    pub role: String,
    pub content: String,
}

/// A chat request to one provider.
pub struct ChatRequest {
    pub messages: Vec<ChatMessage>,
    pub model: Option<String>,
    /// `ollama`, `openai` or `bitnet`.
    pub provider: String,
}

/// A provider's answer.
pub struct ChatResponse {
    pub content: String,
    pub model: String,
    pub provider: String,
}

/// A provider and the models it offers.
pub struct AIProvider {
    pub name: String,
    pub available: bool,
    pub models: Vec<String>,
}

/// The tools needed to build the local 1-bit model runtime.
pub struct BitNetPrerequisites {
    pub git: bool,
    pub python: bool,
    pub cmake: bool,
    pub conda: bool,
}

/// The state of the local 1-bit model runtime.
pub struct BitNetSetupStatus {
    pub installed: bool,
    pub built: bool,
    pub install_path: Option<String>,
    pub has_models: bool,
    pub models: Vec<String>,
    pub prerequisites: BitNetPrerequisites,
}

/// The assistant's system prompt.
pub const SYSTEM_PROMPT: &'static str = "You are Alagappa AI, a helpful assistant built into Alagappa Tools - a desktop application for:\n- Biometric attendance management (ZKTeco devices)\n- Document conversion (Excel, CSV, JSON, PDF)\n- Image processing (resize, convert, compress)\n- Video processing (convert, compress, extract audio)\n\nYou help users with:\n1. Using the app's features effectively\n2. Troubleshooting issues\n3. General questions and tasks\n4. Data analysis and insights\n\nBe concise, friendly, and helpful. Use emojis sparingly for clarity.";

/// The provider `name` with the models it was found to have, or unavailable
/// with none.
pub open spec fn provider_ok(p: AIProvider, name: Seq<char>, found: Option<Vec<String>>) -> bool {
    &&& p.name@ == name
    &&& p.available == found is Some
    &&& match found {
        Some(m) => p.models@ == m@,
        None => p.models@.len() == 0,
    }
}

fn provider(name: &str, found: Option<Vec<String>>) -> (p: AIProvider)
    ensures
        provider_ok(p, name@, found),
{
    match found {
        Some(models) => AIProvider { name: String::from_str(name), available: true, models },
        None => AIProvider { name: String::from_str(name), available: false, models: Vec::new() },
    }
}

/// The providers: the local Ollama and BitNet runtimes with the models found
/// for them (unavailable where none was found), and OpenAI with its fixed
/// model list.
pub fn get_providers(ollama_models: Option<Vec<String>>, bitnet_models: Option<Vec<String>>) -> (r: Vec<AIProvider>)
    ensures
        r@.len() == 3,
        provider_ok(r@[0], "ollama"@, ollama_models),
        provider_ok(r@[1], "bitnet"@, bitnet_models),
        r@[2].name@ == "openai"@,
        r@[2].available,
        r@[2].models@.len() == 4,
        r@[2].models@[0]@ == "gpt-4o"@,
        r@[2].models@[1]@ == "gpt-4o-mini"@,
        r@[2].models@[2]@ == "gpt-4-turbo"@,
        r@[2].models@[3]@ == "gpt-3.5-turbo"@,
{
    let mut providers: Vec<AIProvider> = Vec::new();
    providers.push(provider("ollama", ollama_models));
    providers.push(provider("bitnet", bitnet_models));
    let models: Vec<String> = vec![
        String::from_str("gpt-4o"),
        String::from_str("gpt-4o-mini"),
        String::from_str("gpt-4-turbo"),
        String::from_str("gpt-3.5-turbo"),
    ];
    providers.push(AIProvider { name: String::from_str("openai"), available: true, models });
    providers
}

/// The assistant's system prompt.
pub fn get_system_prompt() -> (r: String)
    ensures
        r@ == SYSTEM_PROMPT@,
{
    String::from_str(SYSTEM_PROMPT)
}

fn same_text(a: &str, b: &str) -> (r: bool)
    ensures
        r == (a@ == b@),
{
    String::from_str(a) == String::from_str(b)
}

/// The first words of the lines from the one starting at `pos` on; lines
/// with no word give none.
pub open spec fn line_words(s: Seq<char>, pos: int) -> Seq<Seq<char>>
    decreases s.len() - pos,
{
    if pos < 0 || pos >= s.len() {
        Seq::empty()
    } else {
        let nl = find_char(s, '\n', pos);
        if nl < pos {
            Seq::empty()
        } else {
            let a = skip_ws(s, pos, nl);
            let rest = if nl < s.len() { line_words(s, nl + 1) } else { Seq::empty() };
            if a < nl { seq![s.subrange(a, token_end(s, a, nl))] + rest } else { rest }
        }
    }
}

/// The model names of a model listing: the first word of each line after the
/// header line.
pub open spec fn listed_models(s: Seq<char>) -> Seq<Seq<char>> {
    let first = find_char(s, '\n', 0);
    if first < s.len() { line_words(s, first + 1) } else { Seq::empty() }
}

/// The model names of a model listing such as `ollama list` prints.
pub fn model_names(listing: &str) -> (r: Vec<String>)
    ensures
        r@.map_values(|m: String| m@) == listed_models(listing@),
{
    let n = listing.unicode_len();
    let mut out: Vec<String> = Vec::new();
    let first = find_char_from(listing, '\n', 0);
    if first >= n {
        assert(out@.map_values(|m: String| m@) =~= listed_models(listing@));
        return out;
    }
    let mut pos: usize = first + 1;
    assert(out@.map_values(|m: String| m@) + line_words(listing@, pos as int) =~= listed_models(listing@));
    while pos < n
        invariant
            n == listing@.len(),
            pos <= n,
            out@.map_values(|m: String| m@) + line_words(listing@, pos as int) == listed_models(listing@),
        decreases n - pos,
    {
        let nl = find_char_from(listing, '\n', pos);
        let a = skip_ws_from(listing, pos, nl);
        let ghost before = out@.map_values(|m: String| m@);
        let ghost rest = line_words(listing@, nl + 1);
        if a < nl {
            let b = token_end_from(listing, a, nl);
            let word = String::from_str(listing.substring_char(a, b));
            out.push(word);
            assert(out@.map_values(|m: String| m@) =~= before.push(listing@.subrange(a as int, b as int)));
            assert(before + line_words(listing@, pos as int) =~= before + (seq![listing@.subrange(a as int, b as int)] + rest));
            assert(out@.map_values(|m: String| m@) + rest =~= before + (seq![listing@.subrange(a as int, b as int)] + rest));
        }
        if nl == n {
            assert(line_words(listing@, nl + 1) =~= Seq::<Seq<char>>::empty());
            assert(out@.map_values(|m: String| m@) =~= listed_models(listing@));
            return out;
        }
        pos = nl + 1;
    }
    assert(line_words(listing@, pos as int) =~= Seq::<Seq<char>>::empty());
    out
}

/// The models of a local BitNet installation: those found, or the default
/// model where none was found.
pub fn bitnet_models(found: Vec<String>) -> (r: Vec<String>)
    ensures
        found@.len() > 0 ==> r@ == found@,
        found@.len() == 0 ==> r@.len() == 1 && r@[0]@ == "BitNet-b1.58-2B-4T"@,
{
    if found.len() > 0 {
        found
    } else {
        vec![String::from_str("BitNet-b1.58-2B-4T")]
    }
}

/// The model used when a request names none.
pub fn default_model(provider: &str) -> (r: String)
    ensures
        provider@ == "openai"@ ==> r@ == "gpt-4o-mini"@,
        provider@ == "bitnet"@ ==> r@ == "BitNet-b1.58-2B-4T"@,
        provider@ != "openai"@ && provider@ != "bitnet"@ ==> r@ == "llama3.2"@,
{
    proof {
        reveal_strlit("openai");
        reveal_strlit("bitnet");
        assert("openai"@[0] != "bitnet"@[0]);
    }
    if same_text(provider, "openai") {
        String::from_str("gpt-4o-mini")
    } else if same_text(provider, "bitnet") {
        String::from_str("BitNet-b1.58-2B-4T")
    } else {
        String::from_str("llama3.2")
    }
}

} // verus!
