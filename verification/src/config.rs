//! Pipeline configuration: an ordered list of steps, each selecting a
//! detector by type tag and carrying the detector-specific parameters as
//! plain optional fields.

use vstd::prelude::*;
use vstd::utf8::encode_utf8;

verus! {

/// Detector-specific parameters of one step. A field that the selected
/// detector does not read is ignored; a required field that is absent is
/// the step's error or no-op case, as each detector defines.
pub struct StepParams {
    /// User-supplied pattern (`regex`).
    pub pattern: Option<String>,
    /// Exact literal to find (`replace`).
    pub search: Option<String>,
    /// Fixed substitute text; when non-empty it wins over every mode.
    pub replacement: Option<String>,
    /// Rendering mode: `mask`, `preserveLastN`, or the default placeholder.
    pub mode: Option<String>,
    /// Mask text repeated per original byte; `*` when absent.
    pub mask_char: Option<String>,
    /// How many trailing bytes `preserveLastN` keeps; 4 when absent.
    pub preserve_count: Option<u64>,
    /// JSON key names (`json_key`).
    pub keys: Option<Vec<String>>,
    /// Parameter or header names (`query_param`, `http_header`).
    pub names: Option<Vec<String>>,
    /// Literal key prefix (`api_key`).
    pub prefix: Option<String>,
    /// Start byte offset (`partial_mask`); 0 when absent.
    pub start: Option<u64>,
    /// End byte offset (`partial_mask`); the text length when absent.
    pub end: Option<u64>,
}

/// Mathematical image of the step parameters.
#[verifier::ext_equal]
pub struct ParamsModel {
    pub pattern: Option<Seq<char>>,
    pub search: Option<Seq<char>>,
    pub replacement: Option<Seq<char>>,
    pub mode: Option<Seq<char>>,
    pub mask_char: Option<Seq<char>>,
    pub preserve_count: Option<u64>,
    pub keys: Option<Seq<Seq<char>>>,
    pub names: Option<Seq<Seq<char>>>,
    pub prefix: Option<Seq<char>>,
    pub start: Option<u64>,
    pub end: Option<u64>,
}

impl View for StepParams {
    type V = ParamsModel;

    open spec fn view(&self) -> ParamsModel {
        ParamsModel {
            pattern: self.pattern.deep_view(),
            search: self.search.deep_view(),
            replacement: self.replacement.deep_view(),
            mode: self.mode.deep_view(),
            mask_char: self.mask_char.deep_view(),
            preserve_count: self.preserve_count,
            keys: self.keys.deep_view(),
            names: self.names.deep_view(),
            prefix: self.prefix.deep_view(),
            start: self.start,
            end: self.end,
        }
    }
}

impl StepParams {
    /// Parameters with every field absent.
    pub fn empty() -> (p: StepParams)
        ensures
            p@ == empty_params(),
    {
        StepParams {
            pattern: None,
            search: None,
            replacement: None,
            mode: None,
            mask_char: None,
            preserve_count: None,
            keys: None,
            names: None,
            prefix: None,
            start: None,
            end: None,
        }
    }
}

/// The model of parameters with every field absent.
pub open spec fn empty_params() -> ParamsModel {
    ParamsModel {
        pattern: None,
        search: None,
        replacement: None,
        mode: None,
        mask_char: None,
        preserve_count: None,
        keys: None,
        names: None,
        prefix: None,
        start: None,
        end: None,
    }
}

/// One configured detection/replacement unit within a pipeline.
pub struct StepConfig {
    /// Opaque step identifier; not interpreted by the engine.
    pub id: String,
    /// Selects the detector.
    pub step_type: String,
    /// A disabled step is skipped entirely.
    pub enabled: bool,
    /// Optional custom prefix for generated canonical identifiers.
    pub label: Option<String>,
    /// Detector-specific parameters.
    pub config: StepParams,
}

/// Mathematical image of one step.
#[verifier::ext_equal]
pub struct StepModel {
    pub id: Seq<char>,
    pub step_type: Seq<char>,
    pub enabled: bool,
    pub label: Option<Seq<char>>,
    pub config: ParamsModel,
}

impl View for StepConfig {
    type V = StepModel;

    open spec fn view(&self) -> StepModel {
        StepModel {
            id: self.id@,
            step_type: self.step_type@,
            enabled: self.enabled,
            label: self.label.deep_view(),
            config: self.config@,
        }
    }
}

/// An ordered pipeline of steps; order is significant.
pub struct PipelineConfig {
    /// Configuration format version; not interpreted by the engine.
    pub version: u64,
    /// The steps, executed in order.
    pub steps: Vec<StepConfig>,
}

/// Mathematical image of a pipeline.
#[verifier::ext_equal]
pub struct PipelineModel {
    pub version: u64,
    pub steps: Seq<StepModel>,
}

impl View for PipelineConfig {
    type V = PipelineModel;

    open spec fn view(&self) -> PipelineModel {
        PipelineModel {
            version: self.version,
            steps: self.steps@.map_values(|s: StepConfig| s@),
        }
    }
}

/// A step's fatal error: a required parameter is absent.
#[derive(Clone, Copy, Debug, PartialEq, Eq, Structural)]
pub enum EngineError {
    /// A `regex` step without a `pattern` parameter.
    MissingPattern,
    /// A `replace` step without a `search` parameter.
    MissingSearch,
}

impl EngineError {
    /// The error's text.
    pub fn message(&self) -> (m: &'static str)
        ensures
            *self is MissingPattern ==> m@ == "Regex pattern not provided in config"@,
            *self is MissingSearch ==> m@ == "Search string not provided"@,
    {
        match self {
            EngineError::MissingPattern => "Regex pattern not provided in config",
            EngineError::MissingSearch => "Search string not provided",
        }
    }
}

/// Two pieces of text are the same once UTF-8 encoded; how every tag and
/// mode word is compared.
pub open spec fn word_eq(a: Seq<char>, b: Seq<char>) -> bool {
    encode_utf8(a) == encode_utf8(b)
}

} // verus!
