use broadcast_daw_studio::vst3_host::plugin::PluginInstance;
use broadcast_daw_studio::vst3_host::PluginParameter;

fn param(id: &str, default: f32) -> PluginParameter {
    PluginParameter::new(
        id.to_string(),
        id.to_uppercase(),
        0.0f32.to_bits(),
        1.0f32.to_bits(),
        default.to_bits(),
        String::new(),
    )
}

#[test]
fn fresh_instance_has_uuid_id_and_defaults() {
    let inst = PluginInstance::new("plug".to_string());
    assert_eq!(inst.instance_id.len(), 36);
    assert_eq!(inst.instance_id.matches('-').count(), 4);
    assert_eq!(inst.plugin_id, "plug");
    assert!(inst.parameters.is_empty());
    assert!(!inst.bypassed);
    assert!(inst.enabled);
    assert!(inst.preset.is_none());
}

#[test]
fn later_parameter_with_same_id_replaces_earlier() {
    let inst = PluginInstance::with_parameters(
        "plug".to_string(),
        vec![param("gain", 0.5), param("mix", 1.0), param("gain", 0.25)],
    );
    assert_eq!(inst.parameters.len(), 2);
    assert_eq!(inst.get_parameter("gain"), Some(0.25f32.to_bits()));
    assert_eq!(inst.get_parameter("mix"), Some(1.0f32.to_bits()));
    assert_eq!(inst.get_parameter("other"), None);
}

#[test]
fn add_then_remove_parameter() {
    let mut inst = PluginInstance::new("plug".to_string());
    inst.add_parameter(param("gain", 0.5));
    inst.add_parameter(param("mix", 0.1));
    assert_eq!(inst.get_parameter_info("mix").map(|p| p.name.clone()), Some("MIX".to_string()));
    let removed = inst.remove_parameter("gain");
    assert_eq!(removed.map(|p| p.id), Some("gain".to_string()));
    assert!(inst.get_parameter("gain").is_none());
    assert_eq!(inst.get_parameter("mix"), Some(0.1f32.to_bits()));
    assert!(inst.remove_parameter("gain").is_none());
}

#[test]
fn store_value_and_reset_all() {
    let mut inst = PluginInstance::with_parameters("plug".to_string(), vec![param("gain", 0.5)]);
    inst.store_parameter_value("gain", 0.75f32.to_bits());
    inst.store_parameter_value("missing", 0.75f32.to_bits());
    assert_eq!(inst.get_parameter("gain"), Some(0.75f32.to_bits()));
    assert_eq!(inst.parameters.len(), 1);
    inst.reset_all_parameters();
    assert_eq!(inst.get_parameter("gain"), Some(0.5f32.to_bits()));
    let values = inst.get_parameter_values();
    assert_eq!(values, vec![("gain".to_string(), 0.5f32.to_bits())]);
}

#[test]
fn switches_and_preset() {
    let mut inst = PluginInstance::new("plug".to_string());
    inst.toggle_bypass();
    inst.toggle_enabled();
    assert!(inst.bypassed);
    assert!(!inst.enabled);
    inst.toggle_bypass();
    assert!(!inst.bypassed);
    inst.set_preset("Warm".to_string());
    assert_eq!(inst.preset.as_deref(), Some("Warm"));
    inst.clear_preset();
    assert!(inst.preset.is_none());
}
