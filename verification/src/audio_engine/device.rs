use vstd::prelude::*;
use crate::shared::types::AudioDeviceInfo;

verus! {

/// Which side of the audio interface a device serves.
#[derive(Debug, Clone, Copy, PartialEq, Eq, Structural)]
pub enum AudioDevice {
    Input,
    Output,
}

/// The channel count of the first configuration that has any channels.
pub open spec fn first_nonzero_channels(cfgs: Seq<(usize, u32, u32)>) -> usize
    decreases cfgs.len(),
{
    if cfgs.len() == 0 {
        0
    } else if cfgs[0].0 != 0 {
        cfgs[0].0
    } else {
        first_nonzero_channels(cfgs.drop_first())
    }
}

/// The channel count a device reports: that of its last input configuration, or, when
/// that is none or zero, that of its first output configuration with any channels.
pub open spec fn chosen_channels(inputs: Seq<(usize, u32, u32)>, outputs: Seq<(usize, u32, u32)>) -> usize {
    let c = if inputs.len() > 0 {
        inputs.last().0
    } else {
        0
    };
    if c != 0 {
        c
    } else {
        first_nonzero_channels(outputs)
    }
}

/// Whether some configuration has `x` as its lowest or highest sample rate.
pub open spec fn has_rate(cfgs: Seq<(usize, u32, u32)>, x: u32) -> bool {
    exists|i: int| 0 <= i < cfgs.len() && ((#[trigger] cfgs[i]).1 == x || cfgs[i].2 == x)
}

pub open spec fn strictly_increasing(s: Seq<u32>) -> bool {
    forall|i: int, j: int| 0 <= i < j < s.len() ==> s[i] < s[j]
}

/// Adds a rate to a strictly increasing list unless it is there already.
fn insert_rate(rates: &mut Vec<u32>, x: u32)
    requires
        strictly_increasing(old(rates)@),
    ensures
        strictly_increasing(final(rates)@),
        forall|y: u32| final(rates)@.contains(y) <==> (old(rates)@.contains(y) || y == x),
{
    let mut p: usize = 0;
    while p < rates.len() && rates[p] < x
        invariant
            p <= rates@.len(),
            forall|k: int| 0 <= k < p ==> rates@[k] < x,
        decreases rates@.len() - p,
    {
        p += 1;
    }
    if p < rates.len() && rates[p] == x {
        proof {
            assert(rates@[p as int] == x);
            assert(rates@.contains(x));
        }
        return;
    }
    let ghost before = rates@;
    rates.insert(p, x);
    proof {
        assert(forall|k: int| p <= k < before.len() ==> x < before[k]) by {
            assert forall|k: int| p <= k < before.len() implies x < before[k] by {
                if k > p {
                    assert(before[p as int] < before[k]);
                }
            }
        }
        assert forall|i: int, j: int| 0 <= i < j < rates@.len() implies rates@[i] < rates@[j] by {
            if j < p {
            } else if j == p {
            } else if i < p {
                assert(rates@[j] == before[j - 1]);
            } else if i == p {
                assert(rates@[j] == before[j - 1]);
            } else {
                assert(rates@[i] == before[i - 1] && rates@[j] == before[j - 1]);
            }
        }
        assert forall|y: u32| rates@.contains(y) <==> (before.contains(y) || y == x) by {
            if rates@.contains(y) {
                let k = choose|k: int| 0 <= k < rates@.len() && rates@[k] == y;
                if k < p {
                    assert(before[k] == y);
                } else if k > p {
                    assert(before[k - 1] == y);
                }
            }
            if before.contains(y) {
                let k = choose|k: int| 0 <= k < before.len() && before[k] == y;
                if k < p {
                    assert(rates@[k] == y);
                } else {
                    assert(rates@[k + 1] == y);
                }
            }
            if y == x {
                assert(rates@[p as int] == x);
            }
        }
        assert(before == old(rates)@);
        assert(forall|y: u32| #[trigger] rates@.contains(y) <==> (old(rates)@.contains(y) || y == x));
    }
}

/// Adds the lowest and highest rate of every configuration.
fn collect_rates(rates: &mut Vec<u32>, cfgs: &Vec<(usize, u32, u32)>)
    requires
        strictly_increasing(old(rates)@),
    ensures
        strictly_increasing(final(rates)@),
        forall|y: u32| #[trigger] final(rates)@.contains(y) <==> (old(rates)@.contains(y) || has_rate(cfgs@, y)),
{
    let ghost start = rates@;
    let mut i: usize = 0;
    while i < cfgs.len()
        invariant
            i <= cfgs@.len(),
            strictly_increasing(rates@),
            forall|y: u32| #[trigger] rates@.contains(y) <==> (start.contains(y) || has_rate(cfgs@.subrange(0, i as int), y)),
            start == old(rates)@,
        decreases cfgs@.len() - i,
    {
        let lo = cfgs[i].1;
        let hi = cfgs[i].2;
        let ghost r0 = rates@;
        insert_rate(rates, lo);
        let ghost r1 = rates@;
        insert_rate(rates, hi);
        proof {
            assert(lo == cfgs@[i as int].1 && hi == cfgs@[i as int].2);
            let sub = cfgs@.subrange(0, i + 1);
            let prev = cfgs@.subrange(0, i as int);
            assert forall|y: u32| has_rate(sub, y) <==> (has_rate(prev, y) || y == lo || y == hi) by {
                if has_rate(sub, y) {
                    let k = choose|k: int| 0 <= k < sub.len() && ((#[trigger] sub[k]).1 == y || sub[k].2 == y);
                    if k < i {
                        assert(prev[k] == sub[k]);
                    }
                }
                if has_rate(prev, y) {
                    let k = choose|k: int| 0 <= k < prev.len() && ((#[trigger] prev[k]).1 == y || prev[k].2 == y);
                    assert(sub[k] == prev[k]);
                }
                if y == lo || y == hi {
                    assert(sub[i as int] == cfgs@[i as int]);
                }
            }
            assert forall|y: u32| rates@.contains(y) <==> (start.contains(y) || has_rate(sub, y)) by {
                assert(rates@.contains(y) <==> (r1.contains(y) || y == hi));
                assert(r1.contains(y) <==> (r0.contains(y) || y == lo));
                assert(r0.contains(y) <==> (start.contains(y) || has_rate(prev, y)));
            }
        }
        i += 1;
    }
    assert(cfgs@.subrange(0, cfgs@.len() as int) =~= cfgs@);
}

/// What the device scan reports of a device, from the configurations it supports, each
/// given as (channels, lowest rate, highest rate): the channel count as
/// `chosen_channels` picks it, every rate bound once in increasing order, the buffer
/// sizes 64 to 2048, its side as `input` or `output`, and no exclusive mode.
pub fn device_info_from_configs(
    id: String,
    name: String,
    kind: AudioDevice,
    input_cfgs: Vec<(usize, u32, u32)>,
    output_cfgs: Vec<(usize, u32, u32)>,
) -> (info: AudioDeviceInfo)
    ensures
        info.id == id,
        info.name == name,
        info.device_type@ == (if kind == AudioDevice::Input {
            "input"@
        } else {
            "output"@
        }),
        info.channels == chosen_channels(input_cfgs@, output_cfgs@),
        strictly_increasing(info.sample_rates@),
        forall|y: u32| info.sample_rates@.contains(y) <==> (has_rate(input_cfgs@, y) || has_rate(output_cfgs@, y)),
        info.buffer_sizes@ == seq![64u32, 128, 256, 512, 1024, 2048],
        !info.is_exclusive,
{
    let mut channels: usize = 0;
    let mut i: usize = 0;
    while i < input_cfgs.len()
        invariant
            i <= input_cfgs@.len(),
            channels == (if i > 0 { input_cfgs@[i - 1].0 } else { 0 }),
        decreases input_cfgs@.len() - i,
    {
        channels = input_cfgs[i].0;
        i += 1;
    }
    let ghost c0 = channels;
    let mut j: usize = 0;
    assert(output_cfgs@.subrange(0, output_cfgs@.len() as int) =~= output_cfgs@);
    while j < output_cfgs.len()
        invariant
            j <= output_cfgs@.len(),
            (if c0 != 0 { c0 } else { first_nonzero_channels(output_cfgs@) }) == (if channels != 0 {
                channels
            } else {
                first_nonzero_channels(output_cfgs@.subrange(j as int, output_cfgs@.len() as int))
            }),
        decreases output_cfgs@.len() - j,
    {
        let ghost rest = output_cfgs@.subrange(j as int, output_cfgs@.len() as int);
        assert(rest.drop_first() =~= output_cfgs@.subrange(j + 1, output_cfgs@.len() as int));
        if channels == 0 {
            channels = output_cfgs[j].0;
        }
        j += 1;
    }
    proof {
        assert(output_cfgs@.subrange(output_cfgs@.len() as int, output_cfgs@.len() as int) =~= Seq::<(usize, u32, u32)>::empty());
        assert(output_cfgs@.subrange(0, output_cfgs@.len() as int) =~= output_cfgs@);
    }
    let mut sample_rates: Vec<u32> = Vec::new();
    let ghost r0 = sample_rates@;
    collect_rates(&mut sample_rates, &input_cfgs);
    let ghost r1 = sample_rates@;
    collect_rates(&mut sample_rates, &output_cfgs);
    let ghost r2 = sample_rates@;
    proof {
        assert forall|y: u32| #[trigger] sample_rates@.contains(y) <==> (has_rate(input_cfgs@, y) || has_rate(output_cfgs@, y)) by {
            assert(!r0.contains(y));
            assert(r1.contains(y) <==> (r0.contains(y) || has_rate(input_cfgs@, y)));
            assert(r2.contains(y) <==> (r1.contains(y) || has_rate(output_cfgs@, y)));
        }
    }
    let buffer_sizes: Vec<u32> = vec![64, 128, 256, 512, 1024, 2048];
    let device_type = match kind {
        AudioDevice::Input => "input".to_owned(),
        AudioDevice::Output => "output".to_owned(),
    };
    AudioDeviceInfo {
        id,
        name,
        device_type,
        channels,
        sample_rates,
        buffer_sizes,
        is_exclusive: false,
    }
}

} // verus!
