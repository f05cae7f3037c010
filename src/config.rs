use vstd::prelude::*;

verus! {

#[verifier::external_type_specification]
pub struct ExModelArchitecture(llm::ModelArchitecture);

/// The name llm displays for an architecture.
pub open spec fn display_name(a: llm::ModelArchitecture) -> Seq<char> {
    match a {
        llm::ModelArchitecture::Bloom => "BLOOM"@,
        llm::ModelArchitecture::Gpt2 => "GPT-2"@,
        llm::ModelArchitecture::GptJ => "GPT-J"@,
        llm::ModelArchitecture::Llama => "LLaMA"@,
        llm::ModelArchitecture::NeoX => "GPT-NeoX"@,
    }
}

/// The lowercase name llm reads for an architecture.
pub open spec fn short_name(a: llm::ModelArchitecture) -> Seq<char> {
    match a {
        llm::ModelArchitecture::Bloom => "bloom"@,
        llm::ModelArchitecture::Gpt2 => "gpt2"@,
        llm::ModelArchitecture::GptJ => "gptj"@,
        llm::ModelArchitecture::Llama => "llama"@,
        llm::ModelArchitecture::NeoX => "gptneox"@,
    }
}

/// The text as llm compares it with architecture names: lowercased, with only
/// its alphanumeric characters kept.
pub uninterp spec fn architecture_key(s: Seq<char>) -> Seq<char>;

/// Relies on `<llm::ModelArchitecture as FromStr>::from_str`: it lowercases the
/// text, keeps its alphanumeric characters, and accepts `bloom`, `gpt2`,
/// `gptj`, `llama` and `gptneox`, each for its own architecture; so each
/// display name is read back as its architecture, and empty text is refused.
#[verifier::external_body]
fn parse_architecture(s: &str) -> (r: Option<llm::ModelArchitecture>)
    ensures
        forall|a: llm::ModelArchitecture|
            #![trigger short_name(a)]
            r == Some(a) <==> architecture_key(s@) == short_name(a),
        forall|a: llm::ModelArchitecture|
            #![trigger display_name(a)]
            #![trigger short_name(a)]
            s@ == display_name(a) || s@ == short_name(a) ==> r == Some(a),
        s@.len() == 0 ==> r is None,
{
    s.parse::<llm::ModelArchitecture>().ok()
}

/// Relies on `<llm::ModelArchitecture as Display>::fmt`, through `to_string`:
/// `BLOOM`, `GPT-2`, `GPT-J`, `LLaMA` or `GPT-NeoX`.
#[verifier::external_body]
fn architecture_name(a: llm::ModelArchitecture) -> (r: String)
    ensures
        r@ == display_name(a),
{
    a.to_string()
}

/// Where the model comes from and how it is loaded.
pub struct Model {
    pub path: String,
    pub context_token_length: usize,
    pub architecture: String,
    pub prefer_mmap: bool,
    pub use_gpu: bool,
    pub gpu_layers: Option<usize>,
}

impl Model {
    /// The architecture that the configured name stands for, if any: the one
    /// whose lowercase name is the name's key. An architecture's display name
    /// or lowercase name gives that architecture.
    pub fn architecture(&self) -> (r: Option<llm::ModelArchitecture>)
        ensures
            forall|a: llm::ModelArchitecture|
                #![trigger short_name(a)]
                r == Some(a) <==> architecture_key(self.architecture@) == short_name(a),
            forall|a: llm::ModelArchitecture|
                #![trigger display_name(a)]
                #![trigger short_name(a)]
                self.architecture@ == display_name(a) || self.architecture@ == short_name(a)
                    ==> r == Some(a),
            self.architecture@.len() == 0 ==> r is None,
    {
        parse_architecture(self.architecture.as_str())
    }
}

/// The settings read at start-up.
pub struct Configuration {
    pub model: Model,
}

/// Model file loaded when nothing else is configured.
pub const DEFAULT_MODEL_PATH: &'static str = "models/llama-2-13b-chat.ggmlv3.q4_0.bin";

/// Context window, in tokens, when nothing else is configured.
pub const DEFAULT_CONTEXT_TOKEN_LENGTH: usize = 2000;

/// Layers offloaded to the GPU when nothing else is configured.
pub const DEFAULT_GPU_LAYERS: usize = 50000;

impl Default for Configuration {
    /// A LLaMA 2 chat model from the `models` directory, memory-mapped, with
    /// a 2000-token context and all layers on the GPU.
    fn default() -> (r: Configuration)
        ensures
            r.model.path@ == DEFAULT_MODEL_PATH@,
            r.model.context_token_length == DEFAULT_CONTEXT_TOKEN_LENGTH,
            r.model.architecture@ == display_name(llm::ModelArchitecture::Llama),
            r.model.prefer_mmap,
            r.model.use_gpu,
            r.model.gpu_layers == Some(DEFAULT_GPU_LAYERS),
    {
        let architecture = architecture_name(llm::ModelArchitecture::Llama);
        Configuration {
            model: Model {
                path: String::from_str(DEFAULT_MODEL_PATH),
                context_token_length: DEFAULT_CONTEXT_TOKEN_LENGTH,
                architecture,
                prefer_mmap: true,
                use_gpu: true,
                gpu_layers: Some(DEFAULT_GPU_LAYERS),
            },
        }
    }
}

} // verus!
