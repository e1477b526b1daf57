//! Models a provider offers, described uniformly across providers.

use vstd::prelude::*;
use vstd::string::StringExecFns;

verus! {

/// What a model will accept and produce.
#[derive(Debug, Clone, PartialEq, Eq, Structural)]
pub struct ModelLimits {
    pub max_context_window_tokens: Option<u64>,
    pub max_output_tokens: Option<u64>,
}

impl Default for ModelLimits {
    /// Neither limit known.
    fn default() -> (l: Self)
        ensures
            l.max_context_window_tokens is None,
            l.max_output_tokens is None,
    {
        ModelLimits { max_context_window_tokens: None, max_output_tokens: None }
    }
}

impl ModelLimits {
    /// Whether neither limit is known: such a value carries no information.
    pub fn is_empty(&self) -> (r: bool)
        ensures
            r == (self.max_context_window_tokens is None && self.max_output_tokens is None),
    {
        self.max_context_window_tokens.is_none() && self.max_output_tokens.is_none()
    }
}

/// A model a provider offers.
#[derive(Debug, Clone, PartialEq, Eq)]
pub struct Model {
    /// Id to send in completion requests.
    pub id: String,
    /// Human-facing name, when distinct from the id.
    pub display_name: Option<String>,
    /// Vendor or owning organisation.
    pub vendor: Option<String>,
    /// Whether the provider flags this model as a preview.
    pub preview: bool,
    /// Context/output limits, when known.
    pub limits: Option<ModelLimits>,
}

/// The label to show a user: the display name when there is one, else the id.
pub open spec fn model_label(m: Model) -> Seq<char> {
    match m.display_name {
        Some(name) => name@,
        None => m.id@,
    }
}

impl Model {
    /// A model known only by its id.
    pub fn new(id: &str) -> (m: Model)
        ensures
            m.id@ == id@,
            m.display_name is None,
            m.vendor is None,
            !m.preview,
            m.limits is None,
    {
        Model {
            id: String::from_str(id),
            display_name: None,
            vendor: None,
            preview: false,
            limits: None,
        }
    }

    /// Attach a display name.
    pub fn with_display_name(self, display_name: &str) -> (m: Model)
        ensures
            m.display_name matches Some(n) && n@ == display_name@,
            m.id == self.id,
            m.vendor == self.vendor,
            m.preview == self.preview,
            m.limits == self.limits,
    {
        Model { display_name: Some(String::from_str(display_name)), ..self }
    }

    /// Attach a vendor.
    pub fn with_vendor(self, vendor: &str) -> (m: Model)
        ensures
            m.vendor matches Some(v) && v@ == vendor@,
            m.id == self.id,
            m.display_name == self.display_name,
            m.preview == self.preview,
            m.limits == self.limits,
    {
        Model { vendor: Some(String::from_str(vendor)), ..self }
    }

    /// Set the preview flag.
    pub fn with_preview(self, preview: bool) -> (m: Model)
        ensures
            m == (Model { preview, ..self }),
    {
        Model { preview, ..self }
    }

    /// Attach limits, dropping an all-`None` value so "unknown" stays absent.
    pub fn with_limits(self, limits: ModelLimits) -> (m: Model)
        ensures
            m.limits == (if limits.max_context_window_tokens is None
                && limits.max_output_tokens is None {
                None
            } else {
                Some(limits)
            }),
            m.id == self.id,
            m.display_name == self.display_name,
            m.vendor == self.vendor,
            m.preview == self.preview,
    {
        let limits = if limits.is_empty() {
            None
        } else {
            Some(limits)
        };
        Model { limits, ..self }
    }

    /// The label to show a user: the display name when there is one, else the id.
    pub fn label(&self) -> (s: &str)
        ensures
            s@ == model_label(*self),
    {
        match &self.display_name {
            Some(name) => name.as_str(),
            None => self.id.as_str(),
        }
    }
}

} // verus!
