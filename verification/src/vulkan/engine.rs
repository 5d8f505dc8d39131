//! What the renderer decides before it talks to the graphics API: which
//! layers and extensions an instance is created with, and at which level a
//! message of the validation layers is logged.

use vstd::prelude::*;
use vstd::slice::slice_to_vec;
use vstd::string::StringSliceAdditionalSpecFns;

verus! {

/// The layer that checks the use of the API.
pub const VALIDATION_LAYER: &'static str = "VK_LAYER_KHRONOS_validation";

/// The instance extension through which the validation layers report.
pub const DEBUG_UTILS_EXTENSION: &'static str = "VK_EXT_debug_utils";

/// The version of the API that the engine is written against: 1.3.0,
/// packed as `make_version` packs it.
pub const API_VERSION: u32 = 0x0040_3000;

/// Why an instance cannot be created.
#[derive(Debug, Clone, Copy, PartialEq, Eq, Structural)]
pub enum EngineError {
    /// Validation was asked for, and the validation layer is not installed.
    ValidationLayerMissing,
}

impl EngineError {
    /// The error in words.
    pub fn message(&self) -> (text: String)
        ensures
            text@ == "Validation layer requested but not supported."@,
    {
        match self {
            EngineError::ValidationLayerMissing => {
                "Validation layer requested but not supported.".to_owned()
            },
        }
    }
}

/// What an instance is created with. Names are byte strings without a
/// terminator.
#[derive(Debug, Clone, PartialEq, Eq)]
pub struct InstancePlan {
    /// The version of the API, of the application and of the engine.
    pub api_version: u32,
    /// The layers to enable.
    pub layers: Vec<Vec<u8>>,
    /// The instance extensions to enable, those of the window first.
    pub extensions: Vec<Vec<u8>>,
    /// Whether a debug messenger is created with the instance.
    pub debug_messenger: bool,
}

/// The mathematical content of an `InstancePlan`.
pub struct InstancePlanView {
    pub api_version: u32,
    pub layers: Seq<Seq<u8>>,
    pub extensions: Seq<Seq<u8>>,
    pub debug_messenger: bool,
}

/// A list of names as byte sequences.
pub open spec fn names(list: Seq<Vec<u8>>) -> Seq<Seq<u8>> {
    list.map_values(|name: Vec<u8>| name@)
}

impl View for InstancePlan {
    type V = InstancePlanView;

    open spec fn view(&self) -> InstancePlanView {
        InstancePlanView {
            api_version: self.api_version,
            layers: names(self.layers@),
            extensions: names(self.extensions@),
            debug_messenger: self.debug_messenger,
        }
    }
}

/// The plan for an instance whose window needs `window_extensions`.
///
/// With validation the validation layer is enabled, the debug extension
/// follows those of the window, and a messenger is created; without it the
/// window's extensions are all there is.
pub open spec fn planned(validation: bool, window_extensions: Seq<Seq<u8>>) -> InstancePlanView {
    InstancePlanView {
        api_version: API_VERSION,
        layers: if validation {
            seq![VALIDATION_LAYER.spec_bytes()]
        } else {
            seq![]
        },
        extensions: if validation {
            window_extensions.push(DEBUG_UTILS_EXTENSION.spec_bytes())
        } else {
            window_extensions
        },
        debug_messenger: validation,
    }
}

/// `vulkanalia::vk::make_version`: packs a version into one word, the major
/// number from bit 22 upwards, the minor number from bit 12, the patch
/// number from bit 0. Bits that are shifted out are lost.
pub assume_specification[ vulkanalia::vk::make_version ](
    major: u32,
    minor: u32,
    patch: u32,
) -> (version: u32)
    ensures
        version == (major << 22) | (minor << 12) | patch,
;

/// Whether two byte strings are the same.
fn same_bytes(left: &[u8], right: &[u8]) -> (same: bool)
    ensures
        same == (left@ == right@),
{
    if left.len() != right.len() {
        return false;
    }
    let mut at: usize = 0;
    while at < left.len()
        invariant
            left.len() == right.len(),
            at <= left.len(),
            forall|i: int| 0 <= i < at ==> left[i] == right[i],
        decreases left.len() - at,
    {
        if left[at] != right[at] {
            return false;
        }
        at += 1;
    }
    assert(left@ =~= right@);
    true
}

/// Whether `name` is among `list`.
fn has_name(list: &Vec<Vec<u8>>, name: &[u8]) -> (found: bool)
    ensures
        found == names(list@).contains(name@),
{
    let mut at: usize = 0;
    while at < list.len()
        invariant
            at <= list.len(),
            forall|i: int| 0 <= i < at ==> names(list@)[i] != name@,
        decreases list.len() - at,
    {
        if same_bytes(list[at].as_slice(), name) {
            assert(names(list@)[at as int] == name@);
            return true;
        }
        at += 1;
    }
    false
}

/// Decides what an instance is created with.
///
/// `available_layers` are the layers that the installation offers and
/// `window_extensions` the instance extensions that the window needs. The
/// only failure is validation without the validation layer.
pub fn plan_instance(
    validation: bool,
    available_layers: &Vec<Vec<u8>>,
    window_extensions: Vec<Vec<u8>>,
) -> (plan: Result<InstancePlan, EngineError>)
    ensures
        plan is Err <==> validation && !names(available_layers@).contains(
            VALIDATION_LAYER.spec_bytes(),
        ),
        plan matches Ok(p) ==> p@ == planned(validation, names(window_extensions@)),
        plan matches Err(e) ==> e == EngineError::ValidationLayerMissing,
{
    if validation && !has_name(available_layers, VALIDATION_LAYER.as_bytes()) {
        return Err(EngineError::ValidationLayerMissing);
    }
    let mut layers: Vec<Vec<u8>> = Vec::new();
    let mut extensions = window_extensions;
    if validation {
        layers.push(slice_to_vec(VALIDATION_LAYER.as_bytes()));
        extensions.push(slice_to_vec(DEBUG_UTILS_EXTENSION.as_bytes()));
    }
    let api_version: u32 = vulkanalia::vk::make_version(1, 3, 0);
    assert(api_version == API_VERSION) by {
        assert((1u32 << 22) | (3u32 << 12) | 0u32 == 0x0040_3000u32) by (bit_vector);
    }
    let plan = InstancePlan { api_version, layers, extensions, debug_messenger: validation };
    assert(plan@.layers =~= planned(validation, names(window_extensions@)).layers);
    assert(plan@.extensions =~= planned(validation, names(window_extensions@)).extensions);
    Ok(plan)
}

/// How loud a message of the validation layers is.
#[derive(Debug, Clone, Copy, PartialEq, Eq, Structural)]
pub enum Level {
    Error,
    Warn,
    Info,
    Trace,
}

/// The severity bit of an error message.
pub const SEVERITY_ERROR: u32 = 0x1000;

/// The severity bit of a warning.
pub const SEVERITY_WARNING: u32 = 0x0100;

/// The severity bit of an informational message.
pub const SEVERITY_INFO: u32 = 0x0010;

/// The level for a message of the given severity: the three named
/// severities have a level of their own, and everything else, a
/// combination of several bits too, is traced.
pub open spec fn level_of(severity: u32) -> Level {
    if severity == SEVERITY_ERROR {
        Level::Error
    } else if severity == SEVERITY_WARNING {
        Level::Warn
    } else if severity == SEVERITY_INFO {
        Level::Info
    } else {
        Level::Trace
    }
}

/// The level at which a message of the validation layers is logged.
pub fn message_level(severity: u32) -> (level: Level)
    ensures
        level == level_of(severity),
{
    if severity == SEVERITY_ERROR {
        Level::Error
    } else if severity == SEVERITY_WARNING {
        Level::Warn
    } else if severity == SEVERITY_INFO {
        Level::Info
    } else {
        Level::Trace
    }
}

} // verus!
