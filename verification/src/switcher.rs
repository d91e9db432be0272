//! What request handling reads of the model switcher: which models there are, and where each of
//! them listens.

use crate::config::ModelConfig;
use crate::hooks::HookRunner;
use std::sync::Arc;
use vstd::prelude::*;

verus! {

/// A shared handle on the configured models.
pub struct ModelSwitcher {
    hooks: Arc<HookRunner>,
}

impl View for ModelSwitcher {
    type V = Map<Seq<char>, ModelConfig>;

    closed spec fn view(&self) -> Map<Seq<char>, ModelConfig> {
        self.hooks@
    }
}

impl Clone for ModelSwitcher {
    fn clone(&self) -> (switcher: ModelSwitcher)
        ensures
            switcher@ == self@,
    {
        ModelSwitcher { hooks: self.hooks.clone() }
    }
}

impl ModelSwitcher {
    /// A switcher for the models of a hook runner.
    pub fn new(hooks: HookRunner) -> (switcher: ModelSwitcher)
        ensures
            switcher@ == hooks@,
    {
        ModelSwitcher { hooks: Arc::new(hooks) }
    }

    /// Whether a model is configured.
    pub fn is_registered(&self, model: &str) -> (registered: bool)
        ensures
            registered == self@.contains_key(model@),
    {
        self.hooks.is_registered(model)
    }

    /// The host and the port of a configured model.
    pub fn model_dest(&self, model: &str) -> (dest: Option<(String, u16)>)
        ensures
            (match dest {
                Some((host, port)) => Some((host@, port)),
                None => None,
            }) == crate::hooks::dest_of(self@, model@),
    {
        self.hooks.model_dest(model)
    }
}

} // verus!
