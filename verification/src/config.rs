//! Configuration records and the lookups made on them.
use vstd::prelude::*;
use crate::text::{sv, chars_of, find, find_in, lit, owned, slice_to_vec, str_eq, string_from_chars};

verus! {

/// Provider configuration.
#[derive(Debug, Clone, PartialEq)]
pub struct ProviderConfig {
    /// Model configurations by model name.
    pub models: Option<Vec<(String, ModelConfig)>>,
    pub options: Option<ProviderOptions>,
}

/// Model-specific configuration.
#[derive(Debug, Clone, PartialEq)]
pub struct ModelConfig {
    pub label: Option<String>,
}

/// Provider connection options.
#[derive(Debug, Clone, PartialEq)]
pub struct ProviderOptions {
    pub api_key: Option<String>,
    pub base_url: Option<String>,
    /// Request timeout in milliseconds.
    pub timeout: Option<u64>,
}

/// Agent configuration. The sampling parameters are carried as the bit
/// patterns of their `f32` values (`f32::to_bits`).
#[derive(Debug, Clone, PartialEq)]
pub struct AgentConfig {
    pub name: Option<String>,
    pub description: Option<String>,
    pub prompt: Option<String>,
    pub model: Option<String>,
    /// "primary", "subagent" or "all".
    pub mode: Option<String>,
    pub temperature_bits: Option<u32>,
    pub top_p_bits: Option<u32>,
    pub tools: Option<Vec<(String, bool)>>,
    pub permission: Option<PermissionConfig>,
    pub color: Option<String>,
    pub disable: Option<bool>,
}

/// Permission configuration.
#[derive(Debug, Clone, PartialEq)]
pub struct PermissionConfig {
    pub edit: Option<String>,
    pub bash: Option<BashPermission>,
    pub webfetch: Option<String>,
    pub doom_loop: Option<String>,
    pub external_directory: Option<String>,
}

/// Bash permission: one level for every command, or levels by command pattern.
#[derive(Debug, Clone, PartialEq)]
pub enum BashPermission {
    Simple(String),
    Targeted(Vec<(String, String)>),
}

impl BashPermission {
    /// `Simple("ask")`.
    pub fn default() -> (r: BashPermission)
        ensures
            r matches BashPermission::Simple(s) && s@ == "ask"@,
    {
        BashPermission::Simple(owned("ask"))
    }
}

/// A custom command.
#[derive(Debug, Clone, PartialEq)]
pub struct CommandConfig {
    pub template: String,
    pub description: Option<String>,
    pub agent: Option<String>,
    pub model: Option<String>,
}

/// Root configuration.
#[derive(Debug, Clone, PartialEq)]
pub struct Config {
    pub schema: Option<String>,
    pub theme: Option<String>,
    /// Default model in "provider/model" form.
    pub model: Option<String>,
    pub small_model: Option<String>,
    pub username: Option<String>,
    pub provider: Option<Vec<(String, ProviderConfig)>>,
    pub agent: Option<Vec<(String, AgentConfig)>>,
    pub tools: Option<Vec<(String, bool)>>,
    pub permission: Option<PermissionConfig>,
    pub command: Option<Vec<(String, CommandConfig)>>,
    pub instructions: Option<Vec<String>>,
    pub disabled_providers: Option<Vec<String>>,
}

/// The provider and model named by `s`: the text before and after its first
/// `/`, or `"default"` and `s` when it has none.
pub open spec fn parse_model_spec(s: Seq<char>) -> (Seq<char>, Seq<char>) {
    let k = find(s, seq!['/']);
    if k >= 0 {
        (s.take(k), s.skip(k + 1))
    } else {
        ("default"@, s)
    }
}

/// The providers that `c` disables contain `p`.
pub open spec fn disables(c: Config, p: Seq<char>) -> bool {
    match c.disabled_providers {
        Some(list) => sv(list@).contains(p),
        None => false,
    }
}

impl Config {
    /// Split a "provider/model" string.
    pub fn parse_model(model_str: &str) -> (r: (String, String))
        ensures
            (r.0@, r.1@) == parse_model_spec(model_str@),
    {
        let s = chars_of(model_str);
        let slash = lit("/");
        proof {
            reveal_strlit("/");
            assert(slash@ =~= seq!['/']);
        }
        match find_in(&s, &slash, 0) {
            Some(k) => {
                proof {
                    crate::text::lemma_find_from(s@, slash@, 0);
                    assert(crate::text::occurs_at(s@, slash@, k as int));
                    assert(s@.len() == s.len());
                }
                let a = slice_to_vec(&s, 0, k);
                let b = slice_to_vec(&s, k + 1, s.len());
                assert(a@ =~= s@.take(k as int));
                assert(b@ =~= s@.skip(k + 1));
                (string_from_chars(&a), string_from_chars(&b))
            },
            None => (owned("default"), owned(model_str)),
        }
    }

    /// The configured default model, or moonshotai/kimi-k2-thinking.
    pub fn get_default_model(&self) -> (r: (String, String))
        ensures
            match self.model {
                Some(m) => (r.0@, r.1@) == parse_model_spec(m@),
                None => r.0@ == "moonshotai"@ && r.1@ == "kimi-k2-thinking"@,
            },
    {
        match &self.model {
            Some(m) => Self::parse_model(m.as_str()),
            None => (owned("moonshotai"), owned("kimi-k2-thinking")),
        }
    }

    /// Whether `provider` is among the disabled providers.
    pub fn is_provider_disabled(&self, provider: &str) -> (r: bool)
        ensures
            r == disables(*self, provider@),
    {
        match &self.disabled_providers {
            None => false,
            Some(list) => {
                let mut i: usize = 0;
                while i < list.len()
                    invariant
                        self.disabled_providers == Some(*list),
                        i <= list@.len(),
                        forall|j: int| 0 <= j < i ==> sv(list@)[j] != provider@,
                    decreases list@.len() - i,
                {
                    if str_eq(list[i].as_str(), provider) {
                        assert(list@[i as int]@ == provider@);
                        assert(sv(list@)[i as int] == provider@);
                        return true;
                    }
                    i = i + 1;
                }
                false
            },
        }
    }
}

impl AgentConfig {
    /// The configured mode, "all" when unset.
    pub fn get_mode(&self) -> (r: &str)
        ensures
            r@ == (match self.mode {
                Some(m) => m@,
                None => "all"@,
            }),
    {
        match &self.mode {
            Some(m) => m.as_str(),
            None => "all",
        }
    }

    /// Whether the agent is disabled (false when unset).
    pub fn is_disabled(&self) -> (r: bool)
        ensures
            r == (self.disable == Some(true)),
    {
        match self.disable {
            Some(b) => b,
            None => false,
        }
    }
}

} // verus!
