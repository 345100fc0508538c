//! The persona configuration.

use vstd::prelude::*;

verus! {

/// The global persona configuration.
#[derive(Debug, Clone, PartialEq, Eq)]
pub struct PersonaConfig {
    /// System-level directives, rendered verbatim before the identity line.
    pub system_prefix: Option<String>,
    /// The display name.
    pub name: String,
    /// The identity, one sentence.
    pub identity: String,
    /// Personality traits, one per entry.
    pub personality: Vec<String>,
    /// Speaking style rules, one per entry.
    pub speaking_style: Vec<String>,
    /// Behavioral rules, one per entry.
    pub behavioral_rules: Vec<String>,
    /// Example dialogues, rendered verbatim.
    pub examples: Vec<PersonaExample>,
    /// High-importance rules for the end of the reply request, rendered verbatim.
    pub suffix: Vec<String>,
}

/// One example dialogue.
#[derive(Debug, Clone, PartialEq, Eq)]
pub struct PersonaExample {
    /// A sample of the live context.
    pub context: String,
    /// The reply as bare text.
    pub reply: String,
}

impl Default for PersonaConfig {
    /// A minimal persona for the case that no file exists.
    fn default() -> (r: Self)
        ensures
            r.system_prefix is None,
            r.name@ == "Tamako"@,
            r.identity@ == "a small cat who lives in this chat group"@,
            r.personality@.len() == 0,
            r.speaking_style@.len() == 0,
            r.behavioral_rules@.len() == 0,
            r.examples@.len() == 0,
            r.suffix@.len() == 0,
    {
        PersonaConfig {
            system_prefix: None,
            name: "Tamako".to_owned(),
            identity: "a small cat who lives in this chat group".to_owned(),
            personality: Vec::new(),
            speaking_style: Vec::new(),
            behavioral_rules: Vec::new(),
            examples: Vec::new(),
            suffix: Vec::new(),
        }
    }
}

/// Where the rendered suffix goes in the reply request.
#[derive(Debug, Clone, Copy, PartialEq, Eq, Structural)]
pub enum SuffixMode {
    /// A system message of its own, strictly last.
    System,
    /// Part of the trailing user message, under an authority directive in the
    /// preamble.
    Append,
}

impl Default for SuffixMode {
    fn default() -> (r: Self)
        ensures
            r == SuffixMode::System,
    {
        SuffixMode::System
    }
}

} // verus!
