use broadcast_daw_studio::vst3_host::host::create_default_parameters;
use broadcast_daw_studio::vst3_host::PluginParameter;
use broadcast_daw_studio::vst3_host::scanner::{
    category_of_lowercase, contains_text, describe_plugin, plugin_info_from_stem,
};
use broadcast_daw_studio::vst3_host::{PluginCategory, PluginInfo, Vst3Scanner};

fn info(id: &str, name: &str) -> PluginInfo {
    plugin_info_from_stem(Some(name.to_string()), format!("/usr/lib/vst3/{}.so", id))
}

#[test]
fn categories_by_keyword_family() {
    assert_eq!(Vst3Scanner::detect_category("ProQ EQ"), PluginCategory::Eq);
    assert_eq!(Vst3Scanner::detect_category("Graphic Equalizer"), PluginCategory::Eq);
    assert_eq!(Vst3Scanner::detect_category("Bus COMP"), PluginCategory::Compressor);
    assert_eq!(Vst3Scanner::detect_category("Big Hall"), PluginCategory::Reverb);
    assert_eq!(Vst3Scanner::detect_category("Small Room"), PluginCategory::Reverb);
    assert_eq!(Vst3Scanner::detect_category("Tape Echo"), PluginCategory::Delay);
    assert_eq!(Vst3Scanner::detect_category("Tuner"), PluginCategory::Utility);
    // the first family that matches wins: "compressor" holds no "eq", but "frequency" does
    assert_eq!(Vst3Scanner::detect_category("Frequency Delay"), PluginCategory::Eq);
}

#[test]
fn lowercase_category_needs_lowercase_input() {
    assert_eq!(category_of_lowercase("reverb"), PluginCategory::Reverb);
    assert_eq!(category_of_lowercase("REVERB"), PluginCategory::Utility);
}

#[test]
fn substring_search() {
    assert!(contains_text("abcdef", "cde"));
    assert!(contains_text("abc", ""));
    assert!(!contains_text("ab", "abc"));
    assert!(!contains_text("abcdef", "ce"));
    assert!(contains_text("héllo wörld", "ö"));
}

#[test]
fn plugin_record_from_file_stem() {
    let p = describe_plugin("/usr/lib/vst3/Warm Comp.so".to_string());
    assert_eq!(p.id, "vst3_Warm Comp");
    assert_eq!(p.name, "Warm Comp");
    assert_eq!(p.category, PluginCategory::Compressor);
    assert_eq!(p.vendor, "Unknown");
    assert_eq!(p.version, "1.0.0");
    assert_eq!(p.plugin_format, "VST3");
    assert_eq!(p.path, "/usr/lib/vst3/Warm Comp.so");
    assert!(p.has_editor);
    assert_eq!((p.input_bus_count, p.output_bus_count), (1, 1));

    let q = plugin_info_from_stem(None, "/".to_string());
    assert_eq!(q.id, "vst3_unknown");
    assert_eq!(q.name, "Unknown Plugin");
    assert_eq!(q.category, PluginCategory::Utility);
}

#[test]
fn registry_replaces_by_id() {
    let mut s = Vst3Scanner::new();
    assert!(s.get_plugin("vst3_a").is_none());
    s.register(info("a", "a"));
    s.register(info("b", "b"));
    assert_eq!(s.get_plugin("vst3_a").unwrap().name, "a");
    let mut again = info("a", "a");
    again.version = "2.0.0".to_string();
    s.register(again);
    assert_eq!(s.plugins().len(), 2);
    assert_eq!(s.get_plugin("vst3_a").unwrap().version, "2.0.0");
    assert_eq!(s.get_plugin("vst3_b").unwrap().version, "1.0.0");
    assert!(Vst3Scanner::default().plugins().is_empty());
}

#[test]
fn default_parameters_by_category() {
    let names = |c: &str| -> Vec<String> {
        let p = plugin_info_from_stem(Some(c.to_string()), String::new());
        create_default_parameters(&p).into_iter().map(|x| x.id).collect()
    };
    assert_eq!(names("Plain"), vec!["bypass", "gain", "mix"]);
    assert_eq!(names("My EQ"), vec!["bypass", "gain", "low_gain", "mid_gain", "high_gain"]);
    assert_eq!(names("Comp"), vec!["bypass", "gain", "threshold", "ratio", "attack", "release"]);
    assert_eq!(names("Hall"), vec!["bypass", "gain", "mix", "decay", "pre_delay"]);
    assert_eq!(names("Echo"), vec!["bypass", "gain", "delay_time", "feedback", "mix"]);

    let comp = create_default_parameters(&plugin_info_from_stem(Some("Comp".to_string()), String::new()));
    let threshold = &comp[2];
    assert_eq!(threshold.name, "Threshold");
    assert_eq!(f32::from_bits(threshold.min), -60.0);
    assert_eq!(f32::from_bits(threshold.max), 0.0);
    assert_eq!(f32::from_bits(threshold.default_value), -20.0);
    assert_eq!(threshold.value, threshold.default_value);
    assert_eq!(threshold.unit, "dB");
    assert_eq!(f32::from_bits(comp[4].min), 0.1);
    assert_eq!(comp[3].unit, ":1");
    let gain = &comp[1];
    assert_eq!((f32::from_bits(gain.min), f32::from_bits(gain.max)), (-60.0, 12.0));
    assert!(!comp[0].is_bypass);
    assert_eq!(comp[0].steps, 0);
}

#[test]
fn parameter_reset_returns_to_default() {
    let mut p = PluginParameter::new("g".to_string(), "G".to_string(), 0, 10, 3, "dB".to_string());
    assert_eq!(p.value, 3);
    p.value = 9;
    p.reset_to_default();
    assert_eq!(p.value, 3);
}
