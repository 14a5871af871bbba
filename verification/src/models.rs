//! The model registry: open-weight models as tagged equipment.
use vstd::prelude::*;
use crate::text;

verus! {

/// One model of the registry.
#[derive(Debug, PartialEq, Eq)]
pub struct ModelEntry {
    /// Registry tag.
    pub tag: String,
    /// Human-readable name.
    pub name: Option<String>,
    /// The serving stack.
    pub provider: String,
    /// The parameter count in billions as it is written, if known.
    pub params_b: Option<String>,
    /// The served context window.
    pub context_k: Option<u32>,
    /// Capability tags.
    pub capabilities: Vec<String>,
    /// Free-form notes.
    pub notes: String,
}

/// The model registry.
#[derive(Debug, PartialEq, Eq)]
pub struct ModelRegistry {
    /// All tracked models.
    pub models: Vec<ModelEntry>,
}

/// A model can use tools.
pub open spec fn uses_tools(m: ModelEntry) -> bool {
    text::texts(m.capabilities@).contains("tool-use"@)
}

/// The first model from the `i`-th on that can use tools.
pub open spec fn first_with_tools(models: Seq<ModelEntry>, i: nat) -> Option<ModelEntry>
    decreases models.len() - i,
{
    if i >= models.len() {
        None
    } else if uses_tools(models[i as int]) {
        Some(models[i as int])
    } else {
        first_with_tools(models, i + 1)
    }
}

/// The model that a launch starts from: the first that can use tools, else the
/// first tracked.
pub open spec fn default_entry(models: Seq<ModelEntry>) -> Option<ModelEntry> {
    match first_with_tools(models, 0) {
        Some(m) => Some(m),
        None => if models.len() > 0 {
            Some(models[0])
        } else {
            None
        },
    }
}

impl ModelRegistry {
    /// The model that a launch pre-fills, as `provider/tag`.
    pub fn launch_default(&self) -> (r: Option<String>)
        ensures
            text::opt_text(r) == (match default_entry(self.models@) {
                Some(m) => Some(m.provider@ + "/"@ + m.tag@),
                None => None,
            }),
    {
        let mut i: usize = 0;
        while i < self.models.len()
            invariant
                i <= self.models@.len(),
                first_with_tools(self.models@, 0) == first_with_tools(self.models@, i as nat),
            decreases self.models@.len() - i,
        {
            let m = &self.models[i];
            if text::listed(m.capabilities.as_slice(), "tool-use") {
                return Some(text::cat3(m.provider.as_str(), "/", m.tag.as_str()));
            }
            i = i + 1;
        }
        if self.models.len() > 0 {
            let m = &self.models[0];
            Some(text::cat3(m.provider.as_str(), "/", m.tag.as_str()))
        } else {
            None
        }
    }
}

} // verus!
