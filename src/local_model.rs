//! A model served from this process: where its files are and the card that
//! describes it.
use vstd::prelude::*;
use crate::text::chars_of;
use crate::text::has_prefix;
use crate::text::string_of;

verus! {

/// What a model is called when no name was given.
pub const DEFAULT_NAME: &'static str = "dynamo";

/// What is published about a model.
#[derive(Debug, Clone)]
pub struct ModelDeploymentCard {
    /// The name shown to users.
    pub display_name: String,
    /// The name the model is served under.
    pub service_name: String,
    /// The largest number of tokens in a context; 0 when unknown.
    pub context_length: usize,
    /// Tokens per KV cache block; 0 until set.
    pub kv_cache_block_size: usize,
}

impl ModelDeploymentCard {
    /// A card that holds nothing but the name.
    pub fn with_name_only(name: &str) -> (r: ModelDeploymentCard)
        ensures
            r.display_name@ == name@,
            r.service_name@ == name@,
            r.context_length == 0,
            r.kv_cache_block_size == 0,
    {
        ModelDeploymentCard {
            display_name: name.to_owned(),
            service_name: name.to_owned(),
            context_length: 0,
            kv_cache_block_size: 0,
        }
    }

    /// Registers the model under `name`.
    pub fn set_name(&mut self, name: &str)
        ensures
            final(self).display_name@ == name@,
            final(self).service_name@ == name@,
            final(self).context_length == old(self).context_length,
            final(self).kv_cache_block_size == old(self).kv_cache_block_size,
    {
        self.display_name = name.to_owned();
        self.service_name = name.to_owned();
    }
}

/// A local model: its full path and its card.
#[derive(Debug, Clone)]
pub struct LocalModel {
    full_path: String,
    card: ModelDeploymentCard,
}

impl Default for LocalModel {
    /// No path, and a card named `dynamo`.
    fn default() -> (r: LocalModel)
        ensures
            r.spec_path() == Seq::<char>::empty(),
            r.spec_card().display_name@ == DEFAULT_NAME@,
            r.spec_card().service_name@ == DEFAULT_NAME@,
            r.spec_card().context_length == 0,
            r.spec_card().kv_cache_block_size == 0,
    {
        LocalModel {
            full_path: String::new(),
            card: ModelDeploymentCard::with_name_only(DEFAULT_NAME),
        }
    }
}

impl LocalModel {
    pub closed spec fn spec_path(&self) -> Seq<char> {
        self.full_path@
    }

    pub closed spec fn spec_card(&self) -> ModelDeploymentCard {
        self.card
    }

    /// A model with the given path and card.
    pub fn new(full_path: String, card: ModelDeploymentCard) -> (r: LocalModel)
        ensures
            r.spec_path() == full_path@,
            r.spec_card() == card,
    {
        LocalModel { full_path, card }
    }

    /// A model with no path and a card that holds only `name`.
    pub fn with_name_only(name: &str) -> (r: LocalModel)
        ensures
            r.spec_path() == Seq::<char>::empty(),
            r.spec_card().display_name@ == name@,
            r.spec_card().service_name@ == name@,
            r.spec_card().context_length == 0,
            r.spec_card().kv_cache_block_size == 0,
    {
        LocalModel { full_path: String::new(), card: ModelDeploymentCard::with_name_only(name) }
    }

    /// The model's card.
    pub fn card(&self) -> (r: &ModelDeploymentCard)
        ensures
            *r == self.spec_card(),
    {
        &self.card
    }

    /// The model's full path.
    pub fn path(&self) -> (r: &str)
        ensures
            r@ == self.spec_path(),
    {
        self.full_path.as_str()
    }

    /// The name shown to users.
    pub fn display_name(&self) -> (r: &str)
        ensures
            r@ == self.spec_card().display_name@,
    {
        self.card.display_name.as_str()
    }

    /// The name the model is served under.
    pub fn service_name(&self) -> (r: &str)
        ensures
            r@ == self.spec_card().service_name@,
    {
        self.card.service_name.as_str()
    }

    /// Overrides the largest number of tokens in a context (usually to limit
    /// the KV cache allocation).
    pub fn set_context_length(&mut self, context_length: usize)
        ensures
            final(self).spec_card().context_length == context_length,
            final(self).spec_card().kv_cache_block_size == old(self).spec_card().kv_cache_block_size,
            final(self).spec_card().display_name == old(self).spec_card().display_name,
            final(self).spec_card().service_name == old(self).spec_card().service_name,
            final(self).spec_path() == old(self).spec_path(),
    {
        self.card.context_length = context_length;
    }

    /// Sets the number of tokens per KV cache block.
    pub fn set_kv_cache_block_size(&mut self, block_size: usize)
        ensures
            final(self).spec_card().kv_cache_block_size == block_size,
            final(self).spec_card().context_length == old(self).spec_card().context_length,
            final(self).spec_card().display_name == old(self).spec_card().display_name,
            final(self).spec_card().service_name == old(self).spec_card().service_name,
            final(self).spec_path() == old(self).spec_path(),
    {
        self.card.kv_cache_block_size = block_size;
    }
}

/// Why a local model path was refused.
#[derive(Debug, Clone, PartialEq, Eq)]
pub enum RepoPathError {
    /// Nothing is at the path.
    NotFound(String),
    /// The path is not a directory.
    NotADirectory(String),
}

/// Checks that a local model repository path exists and is a directory, given
/// what the file system says of it.
pub fn check_valid_local_repo_path(path: &str, exists: bool, is_dir: bool) -> (r: Result<
    (),
    RepoPathError,
>)
    ensures
        exists && is_dir <==> r is Ok,
        !exists ==> (r matches Err(RepoPathError::NotFound(p)) && p@ == path@),
        exists && !is_dir ==> (r matches Err(RepoPathError::NotADirectory(p)) && p@ == path@),
{
    if !exists {
        return Err(RepoPathError::NotFound(path.to_owned()));
    }
    if !is_dir {
        return Err(RepoPathError::NotADirectory(path.to_owned()));
    }
    Ok(())
}

/// The prefix that marks a Hugging Face repository: `hf://`.
pub open spec fn hf_scheme() -> Seq<char> {
    seq!['h', 'f', ':', '/', '/']
}

/// `s` without every `hf://` at its start.
pub open spec fn strip_hf(s: Seq<char>) -> Seq<char>
    decreases s.len(),
{
    if has_prefix(s, hf_scheme()) {
        strip_hf(s.subrange(5, s.len() as int))
    } else {
        s
    }
}

fn starts_with_hf(cs: &Vec<char>, from: usize) -> (r: bool)
    requires
        from <= cs@.len(),
    ensures
        r == has_prefix(cs@.subrange(from as int, cs@.len() as int), hf_scheme()),
{
    let n = cs.len();
    let r = n - from >= 5 && cs[from] == 'h' && cs[from + 1] == 'f' && cs[from + 2] == ':' && cs[from
        + 3] == '/' && cs[from + 4] == '/';
    proof {
        let t = cs@.subrange(from as int, n as int);
        if t.len() >= 5 {
            assert(r == (t.subrange(0, 5) =~= hf_scheme()));
        }
    }
    r
}

/// Whether a model path names a Hugging Face repository: it starts with
/// `hf://`, or nothing is at it locally.
pub fn is_hf_repo(model_path: &str, path_exists: bool) -> (r: bool)
    ensures
        r == (has_prefix(model_path@, hf_scheme()) || !path_exists),
{
    let cs = chars_of(model_path);
    assert(cs@.subrange(0, cs@.len() as int) =~= cs@);
    starts_with_hf(&cs, 0) || !path_exists
}

/// The model path without the `hf://` prefixes at its start.
pub fn hf_relative_path(model_path: &str) -> (r: String)
    ensures
        r@ == strip_hf(model_path@),
{
    let cs = chars_of(model_path);
    let n = cs.len();
    let mut i: usize = 0;
    assert(cs@.subrange(0, n as int) =~= cs@);
    while starts_with_hf(&cs, i)
        invariant
            n == cs@.len(),
            i <= n,
            strip_hf(cs@) == strip_hf(cs@.subrange(i as int, n as int)),
        decreases n - i,
    {
        proof {
            let t = cs@.subrange(i as int, n as int);
            assert(t.subrange(5, t.len() as int) =~= cs@.subrange(i + 5, n as int));
        }
        i = i + 5;
    }
    string_of(&cs, i, n)
}

/// The name a local model is served under: the name given, if any; else the
/// repository name for a Hugging Face model, else the last component of its
/// full path. `None` when a local path has no last component.
pub fn model_name_for(
    is_hf: bool,
    relative_path: &str,
    last_component: Option<String>,
    override_name: Option<String>,
) -> (r: Option<String>)
    ensures
        match override_name {
            Some(n) => r matches Some(x) && x@ == n@,
            None => if is_hf {
                r matches Some(x) && x@ == relative_path@
            } else {
                match last_component {
                    Some(c) => r matches Some(x) && x@ == c@,
                    None => r is None,
                }
            },
        },
{
    match override_name {
        Some(n) => Some(n),
        None => {
            if is_hf {
                Some(relative_path.to_owned())
            } else {
                last_component
            }
        },
    }
}

} // verus!
