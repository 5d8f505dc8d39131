use learn_vk::vulkan::engine::{
    message_level, plan_instance, EngineError, InstancePlan, Level, API_VERSION,
    DEBUG_UTILS_EXTENSION, SEVERITY_ERROR, SEVERITY_INFO, SEVERITY_WARNING, VALIDATION_LAYER,
};
use vulkanalia::vk;

fn names(list: &[&str]) -> Vec<Vec<u8>> {
    list.iter().map(|name| name.as_bytes().to_vec()).collect()
}

#[test]
fn without_validation_the_window_decides() {
    let plan = plan_instance(false, &names(&[]), names(&["VK_KHR_surface", "VK_KHR_xcb_surface"]));
    assert_eq!(
        plan,
        Ok(InstancePlan {
            api_version: 4206592,
            layers: vec![],
            extensions: names(&["VK_KHR_surface", "VK_KHR_xcb_surface"]),
            debug_messenger: false,
        })
    );
}

#[test]
fn without_validation_the_installed_layers_do_not_matter() {
    let available = names(&["VK_LAYER_KHRONOS_validation"]);
    let plan = plan_instance(false, &available, names(&["VK_KHR_surface"])).unwrap();
    assert!(plan.layers.is_empty());
    assert_eq!(plan.extensions, names(&["VK_KHR_surface"]));
    assert!(!plan.debug_messenger);
}

#[test]
fn validation_adds_the_layer_the_extension_and_the_messenger() {
    let available = names(&["VK_LAYER_MESA_overlay", "VK_LAYER_KHRONOS_validation"]);
    let plan = plan_instance(true, &available, names(&["VK_KHR_surface", "VK_KHR_xlib_surface"]));
    assert_eq!(
        plan,
        Ok(InstancePlan {
            api_version: API_VERSION,
            layers: names(&["VK_LAYER_KHRONOS_validation"]),
            extensions: names(&["VK_KHR_surface", "VK_KHR_xlib_surface", "VK_EXT_debug_utils"]),
            debug_messenger: true,
        })
    );
}

#[test]
fn validation_without_the_layer_fails() {
    let available = names(&["VK_LAYER_MESA_overlay"]);
    let plan = plan_instance(true, &available, names(&["VK_KHR_surface"]));
    assert_eq!(plan, Err(EngineError::ValidationLayerMissing));
    let plan = plan_instance(true, &names(&[]), names(&[]));
    assert_eq!(plan, Err(EngineError::ValidationLayerMissing));
}

#[test]
fn a_layer_name_has_to_match_to_the_letter() {
    let near_misses = [
        "VK_LAYER_KHRONOS_validatio",
        "VK_LAYER_KHRONOS_validation2",
        "vk_layer_khronos_validation",
        "",
    ];
    for near in near_misses {
        let plan = plan_instance(true, &names(&[near]), names(&[]));
        assert_eq!(plan, Err(EngineError::ValidationLayerMissing));
    }
}

#[test]
fn the_error_says_what_is_missing() {
    assert_eq!(
        EngineError::ValidationLayerMissing.message(),
        "Validation layer requested but not supported."
    );
}

#[test]
fn the_api_version_is_one_three_zero() {
    assert_eq!(API_VERSION, vk::make_version(1, 3, 0));
    assert_eq!(API_VERSION, 4206592);
    assert_eq!(vk::version_major(API_VERSION), 1);
    assert_eq!(vk::version_minor(API_VERSION), 3);
    assert_eq!(vk::version_patch(API_VERSION), 0);
    let plan = plan_instance(false, &names(&[]), names(&[])).unwrap();
    assert_eq!(plan.api_version, 4206592);
}

#[test]
fn the_names_are_those_of_the_bindings() {
    assert_eq!(
        vk::EXT_DEBUG_UTILS_EXTENSION.name.as_cstr().to_bytes(),
        DEBUG_UTILS_EXTENSION.as_bytes()
    );
    assert_eq!(
        vk::ExtensionName::from_bytes(VALIDATION_LAYER.as_bytes()).as_cstr().to_bytes(),
        b"VK_LAYER_KHRONOS_validation"
    );
}

#[test]
fn the_severities_are_those_of_the_bindings() {
    assert_eq!(vk::DebugUtilsMessageSeverityFlagsEXT::ERROR.bits(), SEVERITY_ERROR);
    assert_eq!(vk::DebugUtilsMessageSeverityFlagsEXT::WARNING.bits(), SEVERITY_WARNING);
    assert_eq!(vk::DebugUtilsMessageSeverityFlagsEXT::INFO.bits(), SEVERITY_INFO);
}

#[test]
fn each_severity_has_its_level() {
    assert_eq!(message_level(0x1000), Level::Error);
    assert_eq!(message_level(0x0100), Level::Warn);
    assert_eq!(message_level(0x0010), Level::Info);
    assert_eq!(message_level(0x0001), Level::Trace);
}

#[test]
fn anything_else_is_traced() {
    assert_eq!(message_level(0), Level::Trace);
    assert_eq!(message_level(0x1100), Level::Trace);
    assert_eq!(message_level(0x1111), Level::Trace);
    assert_eq!(message_level(u32::MAX), Level::Trace);
}
