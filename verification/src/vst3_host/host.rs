use vstd::prelude::*;
use super::plugin::{PluginParameter, shape_of, is_fresh};
use super::scanner::{PluginCategory, PluginInfo};

verus! {

// Bit patterns of the `f32` quantities the default parameters use.
/// 0.0
pub const F_0: u32 = 0x0000_0000;
/// 0.1
pub const F_0_1: u32 = 0x3DCC_CCCD;
/// 1.0
pub const F_1: u32 = 0x3F80_0000;
/// 2.0
pub const F_2: u32 = 0x4000_0000;
/// 4.0
pub const F_4: u32 = 0x4080_0000;
/// 10.0
pub const F_10: u32 = 0x4120_0000;
/// 12.0
pub const F_12: u32 = 0x4140_0000;
/// 20.0
pub const F_20: u32 = 0x41A0_0000;
/// 30.0
pub const F_30: u32 = 0x41F0_0000;
/// 100.0
pub const F_100: u32 = 0x42C8_0000;
/// 250.0
pub const F_250: u32 = 0x437A_0000;
/// 1000.0
pub const F_1000: u32 = 0x447A_0000;
/// 2000.0
pub const F_2000: u32 = 0x44FA_0000;
/// -12.0
pub const F_MINUS_12: u32 = 0xC140_0000;
/// -20.0
pub const F_MINUS_20: u32 = 0xC1A0_0000;
/// -60.0
pub const F_MINUS_60: u32 = 0xC270_0000;

/// The parameters every hosted plugin gets, whatever its category: a bypass switch
/// (0 to 1) and a gain (-60 to +12 dB, at 0 dB).
pub open spec fn common_parameter_shapes() -> Seq<(Seq<char>, Seq<char>, u32, u32, u32, Seq<char>)> {
    seq![
        ("bypass"@, "Bypass"@, F_0, F_1, F_0, ""@),
        ("gain"@, "Gain"@, F_MINUS_60, F_12, F_0, "dB"@),
    ]
}

/// The parameters a category adds after the common ones.
pub open spec fn category_parameter_shapes(c: PluginCategory) -> Seq<(Seq<char>, Seq<char>, u32, u32, u32, Seq<char>)> {
    match c {
        PluginCategory::Eq => seq![
            ("low_gain"@, "Low Gain"@, F_MINUS_12, F_12, F_0, "dB"@),
            ("mid_gain"@, "Mid Gain"@, F_MINUS_12, F_12, F_0, "dB"@),
            ("high_gain"@, "High Gain"@, F_MINUS_12, F_12, F_0, "dB"@),
        ],
        PluginCategory::Compressor => seq![
            ("threshold"@, "Threshold"@, F_MINUS_60, F_0, F_MINUS_20, "dB"@),
            ("ratio"@, "Ratio"@, F_1, F_20, F_4, ":1"@),
            ("attack"@, "Attack"@, F_0_1, F_100, F_10, "ms"@),
            ("release"@, "Release"@, F_10, F_1000, F_100, "ms"@),
        ],
        PluginCategory::Reverb => seq![
            ("mix"@, "Mix"@, F_0, F_100, F_30, "%"@),
            ("decay"@, "Decay"@, F_0_1, F_10, F_2, "s"@),
            ("pre_delay"@, "Pre-Delay"@, F_0, F_100, F_10, "ms"@),
        ],
        PluginCategory::Delay => seq![
            ("delay_time"@, "Delay Time"@, F_1, F_2000, F_250, "ms"@),
            ("feedback"@, "Feedback"@, F_0, F_100, F_30, "%"@),
            ("mix"@, "Mix"@, F_0, F_100, F_30, "%"@),
        ],
        PluginCategory::Utility => seq![("mix"@, "Mix"@, F_0, F_100, F_100, "%"@)],
    }
}

fn push_param(
    params: &mut Vec<PluginParameter>,
    id: &str,
    name: &str,
    min: u32,
    max: u32,
    default_value: u32,
    unit: &str,
)
    ensures
        final(params)@.len() == old(params)@.len() + 1,
        final(params)@.drop_last() == old(params)@,
        shape_of(final(params)@.last()) == (id@, name@, min, max, default_value, unit@),
        is_fresh(final(params)@.last()),
{
    let p = PluginParameter::new(id.to_owned(), name.to_owned(), min, max, default_value, unit.to_owned());
    params.push(p);
    assert(params@.drop_last() =~= old(params)@);
}

/// The parameters a newly loaded plugin starts with: the common ones, then those of its
/// category, each at its default.
pub fn create_default_parameters(plugin_info: &PluginInfo) -> (params: Vec<PluginParameter>)
    ensures
        params@.map_values(|p: PluginParameter| shape_of(p)) == common_parameter_shapes()
            + category_parameter_shapes(plugin_info.category),
        forall|i: int| 0 <= i < params@.len() ==> is_fresh(#[trigger] params@[i]),
{
    let mut params: Vec<PluginParameter> = Vec::new();
    push_param(&mut params, "bypass", "Bypass", F_0, F_1, F_0, "");
    push_param(&mut params, "gain", "Gain", F_MINUS_60, F_12, F_0, "dB");
    match plugin_info.category {
        PluginCategory::Eq => {
            push_param(&mut params, "low_gain", "Low Gain", F_MINUS_12, F_12, F_0, "dB");
            push_param(&mut params, "mid_gain", "Mid Gain", F_MINUS_12, F_12, F_0, "dB");
            push_param(&mut params, "high_gain", "High Gain", F_MINUS_12, F_12, F_0, "dB");
        },
        PluginCategory::Compressor => {
            push_param(&mut params, "threshold", "Threshold", F_MINUS_60, F_0, F_MINUS_20, "dB");
            push_param(&mut params, "ratio", "Ratio", F_1, F_20, F_4, ":1");
            push_param(&mut params, "attack", "Attack", F_0_1, F_100, F_10, "ms");
            push_param(&mut params, "release", "Release", F_10, F_1000, F_100, "ms");
        },
        PluginCategory::Reverb => {
            push_param(&mut params, "mix", "Mix", F_0, F_100, F_30, "%");
            push_param(&mut params, "decay", "Decay", F_0_1, F_10, F_2, "s");
            push_param(&mut params, "pre_delay", "Pre-Delay", F_0, F_100, F_10, "ms");
        },
        PluginCategory::Delay => {
            push_param(&mut params, "delay_time", "Delay Time", F_1, F_2000, F_250, "ms");
            push_param(&mut params, "feedback", "Feedback", F_0, F_100, F_30, "%");
            push_param(&mut params, "mix", "Mix", F_0, F_100, F_30, "%");
        },
        PluginCategory::Utility => {
            push_param(&mut params, "mix", "Mix", F_0, F_100, F_100, "%");
        },
    }
    assert(params@.map_values(|p: PluginParameter| shape_of(p)) =~= common_parameter_shapes()
        + category_parameter_shapes(plugin_info.category));
    params
}

} // verus!
