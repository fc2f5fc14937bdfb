//! The `in=` and `out=` options of the command line: where requests come from
//! and which engine serves them.
use vstd::prelude::*;
use crate::protocols::ENDPOINT_SCHEME;
use crate::text::chars_of;
use crate::text::chars_start_with;
use crate::text::has_prefix;
use crate::text::str_eq;
use crate::text::string_of;

verus! {

/// How a batch input option starts.
pub const BATCH_PREFIX: &'static str = "batch:";

/// Where requests come from.
#[derive(Debug, Clone, PartialEq, Eq)]
pub enum Input {
    /// An OpenAI compatible HTTP server.
    Http,
    /// A single prompt on stdin.
    Stdin,
    /// Interactive chat.
    Text,
    /// Requests pulled from a `dyn://namespace/component/endpoint` path.
    Endpoint(String),
    /// Batch mode: run all the prompts of a file, write the outputs, exit.
    Batch(String),
}

/// Which engine serves the requests.
#[derive(Debug, Clone, Copy, PartialEq, Eq, Structural)]
pub enum Output {
    /// Takes un-preprocessed requests and echoes the prompt back.
    EchoFull,
    /// Takes preprocessed requests and echoes the tokens back.
    EchoCore,
    /// Listens for models coming and going on the network.
    Dynamic,
    /// Inference on a GGUF model with mistral.rs.
    MistralRs,
    /// Inference with llama.cpp.
    LlamaCpp,
    /// Inference with sglang.
    SgLang,
    /// Inference with TensorRT-LLM.
    Trtllm,
    /// Inference with vllm in a sub-process.
    Vllm,
}

/// An option value that names no input or output.
#[derive(Debug, Clone, PartialEq, Eq)]
pub enum OptionError {
    InvalidIn(String),
    InvalidOut(String),
}

/// The input that the option value `s` names, if any.
pub open spec fn input_of(s: Seq<char>, r: Input) -> bool {
    if s == "http"@ {
        r == Input::Http
    } else if s == "text"@ {
        r == Input::Text
    } else if s == "stdin"@ {
        r == Input::Stdin
    } else if has_prefix(s, ENDPOINT_SCHEME@) {
        r matches Input::Endpoint(p) && p@ == s
    } else if has_prefix(s, BATCH_PREFIX@) {
        r matches Input::Batch(p) && p@ == s.subrange(BATCH_PREFIX@.len() as int, s.len() as int)
    } else {
        false
    }
}

/// The output that the option value `s` names, if any.
pub open spec fn output_of(s: Seq<char>) -> Option<Output> {
    if s == "mistralrs"@ {
        Some(Output::MistralRs)
    } else if s == "llamacpp"@ || s == "llama_cpp"@ {
        Some(Output::LlamaCpp)
    } else if s == "sglang"@ {
        Some(Output::SgLang)
    } else if s == "trtllm"@ {
        Some(Output::Trtllm)
    } else if s == "vllm"@ {
        Some(Output::Vllm)
    } else if s == "echo_full"@ {
        Some(Output::EchoFull)
    } else if s == "echo_core"@ {
        Some(Output::EchoCore)
    } else if s == "dyn"@ || has_prefix(s, ENDPOINT_SCHEME@) {
        Some(Output::Dynamic)
    } else {
        None
    }
}

/// The option value of an output.
pub open spec fn output_name(o: Output) -> Seq<char> {
    match o {
        Output::MistralRs => "mistralrs"@,
        Output::LlamaCpp => "llamacpp"@,
        Output::SgLang => "sglang"@,
        Output::Trtllm => "trtllm"@,
        Output::Vllm => "vllm"@,
        Output::EchoFull => "echo_full"@,
        Output::EchoCore => "echo_core"@,
        Output::Dynamic => "dyn"@,
    }
}

impl Input {
    /// Parses an `in=` option value.
    pub fn parse(s: &str) -> (r: Result<Input, OptionError>)
        ensures
            match r {
                Ok(i) => input_of(s@, i),
                Err(e) => (forall|i: Input| !input_of(s@, i)) && (e matches OptionError::InvalidIn(
                    v,
                ) && v@ == s@),
            },
    {
        if str_eq(s, "http") {
            return Ok(Input::Http);
        }
        if str_eq(s, "text") {
            return Ok(Input::Text);
        }
        if str_eq(s, "stdin") {
            return Ok(Input::Stdin);
        }
        let cs = chars_of(s);
        if chars_start_with(&cs, ENDPOINT_SCHEME) {
            return Ok(Input::Endpoint(s.to_owned()));
        }
        if chars_start_with(&cs, BATCH_PREFIX) {
            let k = chars_of(BATCH_PREFIX).len();
            return Ok(Input::Batch(string_of(&cs, k, cs.len())));
        }
        Err(OptionError::InvalidIn(s.to_owned()))
    }

    /// The input when none is given: interactive chat on a terminal, otherwise
    /// a single prompt on stdin.
    pub fn default_for(stdin_is_terminal: bool) -> (r: Input)
        ensures
            r == (if stdin_is_terminal {
                Input::Text
            } else {
                Input::Stdin
            }),
    {
        if stdin_is_terminal {
            Input::Text
        } else {
            Input::Stdin
        }
    }

    /// The option value of the input.
    pub fn name(&self) -> (r: String)
        ensures
            match self {
                Input::Http => r@ == "http"@,
                Input::Text => r@ == "text"@,
                Input::Stdin => r@ == "stdin"@,
                Input::Endpoint(p) => r@ == p@,
                Input::Batch(p) => r@ == p@,
            },
    {
        match self {
            Input::Http => "http".to_owned(),
            Input::Text => "text".to_owned(),
            Input::Stdin => "stdin".to_owned(),
            Input::Endpoint(p) => p.clone(),
            Input::Batch(p) => p.clone(),
        }
    }
}

impl Output {
    /// Parses an `out=` option value. A `dyn://` path names the dynamic output
    /// (the path itself is not used).
    pub fn parse(s: &str) -> (r: Result<Output, OptionError>)
        ensures
            match r {
                Ok(o) => output_of(s@) == Some(o),
                Err(e) => output_of(s@) is None && (e matches OptionError::InvalidOut(v) && v@ == s@),
            },
    {
        if str_eq(s, "mistralrs") {
            Ok(Output::MistralRs)
        } else if str_eq(s, "llamacpp") || str_eq(s, "llama_cpp") {
            Ok(Output::LlamaCpp)
        } else if str_eq(s, "sglang") {
            Ok(Output::SgLang)
        } else if str_eq(s, "trtllm") {
            Ok(Output::Trtllm)
        } else if str_eq(s, "vllm") {
            Ok(Output::Vllm)
        } else if str_eq(s, "echo_full") {
            Ok(Output::EchoFull)
        } else if str_eq(s, "echo_core") {
            Ok(Output::EchoCore)
        } else if str_eq(s, "dyn") || chars_start_with(&chars_of(s), ENDPOINT_SCHEME) {
            Ok(Output::Dynamic)
        } else {
            Err(OptionError::InvalidOut(s.to_owned()))
        }
    }

    /// The option value of the output.
    pub fn name(&self) -> (r: String)
        ensures
            r@ == output_name(*self),
    {
        match self {
            Output::MistralRs => "mistralrs".to_owned(),
            Output::LlamaCpp => "llamacpp".to_owned(),
            Output::SgLang => "sglang".to_owned(),
            Output::Trtllm => "trtllm".to_owned(),
            Output::Vllm => "vllm".to_owned(),
            Output::EchoFull => "echo_full".to_owned(),
            Output::EchoCore => "echo_core".to_owned(),
            Output::Dynamic => "dyn".to_owned(),
        }
    }

    /// The engines that can be named with `out=`.
    pub fn available_engines() -> (r: Vec<String>)
        ensures
            r@.map_values(|s: String| s@) == seq![
                "echo_core"@,
                "echo_full"@,
                output_name(Output::MistralRs),
                output_name(Output::LlamaCpp),
                output_name(Output::SgLang),
                output_name(Output::Trtllm),
                output_name(Output::Vllm),
            ],
    {
        let mut out: Vec<String> = Vec::new();
        out.push("echo_core".to_owned());
        out.push("echo_full".to_owned());
        out.push(Output::MistralRs.name());
        out.push(Output::LlamaCpp.name());
        out.push(Output::SgLang.name());
        out.push(Output::Trtllm.name());
        out.push(Output::Vllm.name());
        assert(out@.map_values(|s: String| s@) =~= seq![
            "echo_core"@,
            "echo_full"@,
            output_name(Output::MistralRs),
            output_name(Output::LlamaCpp),
            output_name(Output::SgLang),
            output_name(Output::Trtllm),
            output_name(Output::Vllm),
        ]);
        out
    }
}

impl Default for Output {
    /// mistral.rs, which needs nothing outside this process.
    fn default() -> (r: Output)
        ensures
            r == Output::MistralRs,
    {
        Output::MistralRs
    }
}

/// Why a combination of options cannot run.
#[derive(Debug, Clone, Copy, PartialEq, Eq, Structural)]
pub enum RunOptionError {
    /// `in=dyn://...` together with `out=dyn`.
    EndpointBothWays,
    /// A context length was given to an ingress (`out=dyn`).
    ContextLengthOnIngress,
    /// A KV cache block size was given to an ingress (`out=dyn`).
    KvBlockSizeOnIngress,
    /// `out=echo_core` without a tokenizer.
    MissingTokenizer,
    /// sglang needs a Hugging Face repository checkout.
    NotARepoCheckout,
    /// vllm and TensorRT-LLM take no base GPU id.
    BaseGpuIdUnsupported,
    /// llama.cpp needs a GGUF file.
    NotAGgufFile,
}

/// The first rule that the options break, if any.
pub open spec fn run_option_error(
    input: Input,
    output: Output,
    context_length_set: bool,
    kv_cache_block_size_set: bool,
    base_gpu_id: u32,
    has_tokenizer: bool,
    model_is_dir: bool,
    model_is_file: bool,
) -> Option<RunOptionError> {
    if input is Endpoint && output == Output::Dynamic {
        Some(RunOptionError::EndpointBothWays)
    } else {
        match output {
            Output::Dynamic => if context_length_set {
                Some(RunOptionError::ContextLengthOnIngress)
            } else if kv_cache_block_size_set {
                Some(RunOptionError::KvBlockSizeOnIngress)
            } else {
                None
            },
            Output::EchoCore => if !has_tokenizer {
                Some(RunOptionError::MissingTokenizer)
            } else {
                None
            },
            Output::SgLang => if !model_is_dir {
                Some(RunOptionError::NotARepoCheckout)
            } else {
                None
            },
            Output::Vllm | Output::Trtllm => if base_gpu_id != 0 {
                Some(RunOptionError::BaseGpuIdUnsupported)
            } else {
                None
            },
            Output::LlamaCpp => if !model_is_file {
                Some(RunOptionError::NotAGgufFile)
            } else {
                None
            },
            _ => None,
        }
    }
}

/// Checks a combination of options before anything is started, given what is
/// known of the model (whether it has a tokenizer, is a directory or a file).
pub fn check_run_options(
    input: &Input,
    output: Output,
    context_length_set: bool,
    kv_cache_block_size_set: bool,
    base_gpu_id: u32,
    has_tokenizer: bool,
    model_is_dir: bool,
    model_is_file: bool,
) -> (r: Result<(), RunOptionError>)
    ensures
        match run_option_error(
            *input,
            output,
            context_length_set,
            kv_cache_block_size_set,
            base_gpu_id,
            has_tokenizer,
            model_is_dir,
            model_is_file,
        ) {
            Some(e) => r == Err::<(), RunOptionError>(e),
            None => r is Ok,
        },
{
    let endpoint_in = match input {
        Input::Endpoint(_) => true,
        _ => false,
    };
    if endpoint_in && output == Output::Dynamic {
        return Err(RunOptionError::EndpointBothWays);
    }
    match output {
        Output::Dynamic => {
            if context_length_set {
                Err(RunOptionError::ContextLengthOnIngress)
            } else if kv_cache_block_size_set {
                Err(RunOptionError::KvBlockSizeOnIngress)
            } else {
                Ok(())
            }
        },
        Output::EchoCore => {
            if !has_tokenizer {
                Err(RunOptionError::MissingTokenizer)
            } else {
                Ok(())
            }
        },
        Output::SgLang => {
            if !model_is_dir {
                Err(RunOptionError::NotARepoCheckout)
            } else {
                Ok(())
            }
        },
        Output::Vllm | Output::Trtllm => {
            if base_gpu_id != 0 {
                Err(RunOptionError::BaseGpuIdUnsupported)
            } else {
                Ok(())
            }
        },
        Output::LlamaCpp => {
            if !model_is_file {
                Err(RunOptionError::NotAGgufFile)
            } else {
                Ok(())
            }
        },
        _ => Ok(()),
    }
}

} // verus!
