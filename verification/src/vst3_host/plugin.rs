use vstd::prelude::*;
use crate::shared::ids::{new_uuid, format_id_message, uuid_text};

verus! {

/// One automatable parameter of a hosted plugin. The value, range and default are `f32`
/// quantities held as their IEEE-754 bit patterns.
#[derive(Debug, Clone)]
pub struct PluginParameter {
    pub id: String,
    pub name: String,
    pub value: u32,
    pub min: u32,
    pub max: u32,
    pub default_value: u32,
    pub steps: u32,
    pub unit: String,
    pub is_bypass: bool,
    pub is_automated: bool,
}

/// What describes a parameter apart from its current value: id, name, range, default
/// and unit.
pub open spec fn shape_of(p: PluginParameter) -> (Seq<char>, Seq<char>, u32, u32, u32, Seq<char>) {
    (p.id@, p.name@, p.min, p.max, p.default_value, p.unit@)
}

/// A parameter as created: at its default, continuous, neither a bypass switch nor
/// automated.
pub open spec fn is_fresh(p: PluginParameter) -> bool {
    &&& p.value == p.default_value
    &&& p.steps == 0
    &&& !p.is_bypass
    &&& !p.is_automated
}

impl PluginParameter {
    pub fn new(id: String, name: String, min: u32, max: u32, default_value: u32, unit: String) -> (p: Self)
        ensures
            p.id == id,
            p.name == name,
            p.min == min,
            p.max == max,
            p.default_value == default_value,
            p.unit == unit,
            is_fresh(p),
    {
        Self {
            id,
            name,
            value: default_value,
            min,
            max,
            default_value,
            steps: 0,
            unit,
            is_bypass: false,
            is_automated: false,
        }
    }

    /// Puts the value back to the default.
    pub fn reset_to_default(&mut self)
        ensures
            *final(self) == (PluginParameter { value: old(self).default_value, ..*old(self) }),
    {
        self.value = self.default_value;
    }
}

/// No two parameters share an id.
pub open spec fn param_ids_distinct(s: Seq<PluginParameter>) -> bool {
    forall|i: int, j: int|
        0 <= i < s.len() && 0 <= j < s.len() && i != j ==> (#[trigger] s[i]).id@ != (
        #[trigger] s[j]).id@
}

pub open spec fn has_param(s: Seq<PluginParameter>, id: Seq<char>) -> bool {
    exists|i: int| 0 <= i < s.len() && (#[trigger] s[i]).id@ == id
}

pub open spec fn param_index(s: Seq<PluginParameter>, id: Seq<char>) -> int {
    choose|i: int| 0 <= i < s.len() && (#[trigger] s[i]).id@ == id
}

/// The parameter stored under an id, if any.
pub open spec fn param_lookup(s: Seq<PluginParameter>, id: Seq<char>) -> Option<PluginParameter> {
    if has_param(s, id) {
        Some(s[param_index(s, id)])
    } else {
        None
    }
}

/// The parameters after storing `p` under its id: it takes the place of a parameter with
/// that id, or joins at the end.
pub open spec fn with_param(s: Seq<PluginParameter>, p: PluginParameter) -> Seq<PluginParameter> {
    if has_param(s, p.id@) {
        s.update(param_index(s, p.id@), p)
    } else {
        s.push(p)
    }
}

/// The parameters after the one stored under `id` (if any) is taken out.
pub open spec fn without_param(s: Seq<PluginParameter>, id: Seq<char>) -> Seq<PluginParameter> {
    if has_param(s, id) {
        s.remove(param_index(s, id))
    } else {
        s
    }
}

/// The parameters stored one after the other, a later one replacing an earlier one with
/// the same id.
pub open spec fn params_from(s: Seq<PluginParameter>) -> Seq<PluginParameter>
    decreases s.len(),
{
    if s.len() == 0 {
        Seq::empty()
    } else {
        with_param(params_from(s.drop_last()), s.last())
    }
}

/// Every parameter put back to its default.
pub open spec fn all_reset(s: Seq<PluginParameter>) -> Seq<PluginParameter> {
    s.map_values(|p: PluginParameter| PluginParameter { value: p.default_value, ..p })
}

/// Storing a parameter keeps the ids distinct, and the stored one is what its id now
/// looks up.
proof fn lemma_with_param(s: Seq<PluginParameter>, p: PluginParameter)
    requires
        param_ids_distinct(s),
    ensures
        param_ids_distinct(with_param(s, p)),
        param_lookup(with_param(s, p), p.id@) == Some(p),
{
    let r = with_param(s, p);
    let j = if has_param(s, p.id@) { param_index(s, p.id@) } else { s.len() as int };
    assert(r[j].id@ == p.id@);
    assert(has_param(r, p.id@));
    let j2 = param_index(r, p.id@);
    assert(r[j2].id@ == p.id@);
}

/// After a parameter is added, its id looks it up, and every other id looks up what it
/// did before.
pub proof fn lemma_lookup_after_add(s: Seq<PluginParameter>, p: PluginParameter, k: Seq<char>)
    requires
        param_ids_distinct(s),
    ensures
        param_ids_distinct(with_param(s, p)),
        param_lookup(with_param(s, p), p.id@) == Some(p),
        k != p.id@ ==> param_lookup(with_param(s, p), k) == param_lookup(s, k),
{
    lemma_with_param(s, p);
    let r = with_param(s, p);
    if k != p.id@ {
        if has_param(s, k) {
            let i = param_index(s, k);
            assert(r[i].id@ == k);
            assert(has_param(r, k));
            let i2 = param_index(r, k);
            assert(r[i2].id@ == k);
        } else if has_param(r, k) {
            let i2 = param_index(r, k);
            assert(r[i2].id@ == k);
            assert(s[i2].id@ == k);
        }
    }
}

/// After a parameter is removed, its id looks up nothing, and every other id looks up
/// what it did before.
pub proof fn lemma_lookup_after_remove(s: Seq<PluginParameter>, id: Seq<char>, k: Seq<char>)
    requires
        param_ids_distinct(s),
    ensures
        param_ids_distinct(without_param(s, id)),
        param_lookup(without_param(s, id), id) is None,
        k != id ==> param_lookup(without_param(s, id), k) == param_lookup(s, k),
{
    let r = without_param(s, id);
    if has_param(s, id) {
        let j = param_index(s, id);
        assert(s[j].id@ == id);
        assert forall|a: int, b: int|
            0 <= a < r.len() && 0 <= b < r.len() && a != b implies (#[trigger] r[a]).id@ != (
            #[trigger] r[b]).id@ by {
            let a0 = if a < j { a } else { a + 1 };
            let b0 = if b < j { b } else { b + 1 };
            assert(r[a] == s[a0]);
            assert(r[b] == s[b0]);
        }
        if has_param(r, id) {
            let i = param_index(r, id);
            let i0 = if i < j { i } else { i + 1 };
            assert(r[i] == s[i0]);
        }
        if k != id {
            if has_param(s, k) {
                let i = param_index(s, k);
                assert(s[i].id@ == k);
                let i1 = if i < j { i } else { i - 1 };
                assert(r[i1] == s[i]);
                assert(has_param(r, k));
                let i2 = param_index(r, k);
                let i20 = if i2 < j { i2 } else { i2 + 1 };
                assert(r[i2] == s[i20]);
            } else if has_param(r, k) {
                let i2 = param_index(r, k);
                let i20 = if i2 < j { i2 } else { i2 + 1 };
                assert(r[i2] == s[i20]);
            }
        }
    }
}

/// A loaded instance of a plugin: its parameters keyed by id, its bypass and enabled
/// switches and the preset it was set to.
#[derive(Debug, Clone)]
pub struct PluginInstance {
    pub instance_id: String,
    pub plugin_id: String,
    pub parameters: Vec<PluginParameter>,
    pub bypassed: bool,
    pub enabled: bool,
    pub preset: Option<String>,
}

impl PluginInstance {
    /// Each parameter id is stored once.
    pub open spec fn well_formed(&self) -> bool {
        param_ids_distinct(self.parameters@)
    }

    /// A fresh instance of a plugin: a random instance id (a printed UUID), no parameters,
    /// not bypassed, enabled, no preset.
    pub fn new(plugin_id: String) -> (r: Self)
        ensures
            r.well_formed(),
            exists|u: u128| r.instance_id@ == uuid_text(u),
            r.plugin_id == plugin_id,
            r.parameters@.len() == 0,
            !r.bypassed,
            r.enabled,
            r.preset is None,
    {
        let u = new_uuid();
        let instance_id = format_id_message("", u, "");
        proof {
            reveal_strlit("");
            assert(instance_id@ =~= uuid_text(u));
        }
        Self { instance_id, plugin_id, parameters: Vec::new(), bypassed: false, enabled: true, preset: None }
    }

    /// A fresh instance holding the given parameters, a later one replacing an earlier
    /// one with the same id.
    pub fn with_parameters(plugin_id: String, parameters: Vec<PluginParameter>) -> (r: Self)
        ensures
            r.well_formed(),
            exists|u: u128| r.instance_id@ == uuid_text(u),
            r.plugin_id == plugin_id,
            r.parameters@ == params_from(parameters@),
            !r.bypassed,
            r.enabled,
            r.preset is None,
    {
        let mut r = Self::new(plugin_id);
        let mut rest = parameters;
        let ghost all = rest@;
        let ghost k: int = 0;
        while rest.len() > 0
            invariant
                r.well_formed(),
                exists|u: u128| r.instance_id@ == uuid_text(u),
                r.plugin_id == plugin_id,
                !r.bypassed,
                r.enabled,
                r.preset is None,
                0 <= k <= all.len(),
                rest@ == all.skip(k),
                r.parameters@ == params_from(all.take(k)),
            decreases rest@.len(),
        {
            let p = rest.remove(0);
            proof {
                assert(all.take(k + 1).drop_last() =~= all.take(k));
                assert(all.take(k + 1).last() == p);
                assert(all.skip(k + 1) =~= all.skip(k).drop_first());
                k = k + 1;
            }
            r.add_parameter(p);
        }
        proof {
            assert(all.take(k) =~= all);
        }
        r
    }

    fn find(&self, id: &str) -> (r: Option<usize>)
        requires
            self.well_formed(),
        ensures
            r matches Some(i) ==> i < self.parameters@.len() && self.parameters@[i as int].id@ == id@
                && param_index(self.parameters@, id@) == i,
            r is None ==> !has_param(self.parameters@, id@),
    {
        let key = id.to_owned();
        let mut i: usize = 0;
        while i < self.parameters.len()
            invariant
                key@ == id@,
                param_ids_distinct(self.parameters@),
                i <= self.parameters@.len(),
                forall|k: int| 0 <= k < i ==> (#[trigger] self.parameters@[k]).id@ != id@,
            decreases self.parameters@.len() - i,
        {
            if self.parameters[i].id == key {
                proof {
                    assert(self.parameters@[i as int].id@ == id@);
                    assert(has_param(self.parameters@, id@));
                    let j = param_index(self.parameters@, id@);
                    assert(self.parameters@[j].id@ == id@);
                }
                return Some(i);
            }
            i = i + 1;
        }
        None
    }

    /// The value (as `f32` bits) of the parameter stored under `id`.
    pub fn get_parameter(&self, id: &str) -> (r: Option<u32>)
        requires
            self.well_formed(),
        ensures
            r == (match param_lookup(self.parameters@, id@) {
                Some(p) => Some(p.value),
                None => None,
            }),
    {
        match self.find(id) {
            Some(i) => Some(self.parameters[i].value),
            None => None,
        }
    }

    /// The parameter stored under `id`.
    pub fn get_parameter_info(&self, id: &str) -> (r: Option<&PluginParameter>)
        requires
            self.well_formed(),
        ensures
            match r {
                Some(p) => param_lookup(self.parameters@, id@) == Some(*p),
                None => param_lookup(self.parameters@, id@) is None,
            },
    {
        match self.find(id) {
            Some(i) => Some(&self.parameters[i]),
            None => None,
        }
    }

    /// Sets the value (as `f32` bits) of the parameter stored under `id`, if there is
    /// one; the caller has already brought the value into the parameter's range.
    pub fn store_parameter_value(&mut self, id: &str, value: u32)
        requires
            old(self).well_formed(),
        ensures
            final(self).well_formed(),
            final(self).parameters@ == (match param_lookup(old(self).parameters@, id@) {
                Some(p) => old(self).parameters@.update(
                    param_index(old(self).parameters@, id@),
                    PluginParameter { value, ..p },
                ),
                None => old(self).parameters@,
            }),
            final(self).instance_id == old(self).instance_id,
            final(self).plugin_id == old(self).plugin_id,
            final(self).bypassed == old(self).bypassed,
            final(self).enabled == old(self).enabled,
            final(self).preset == old(self).preset,
    {
        match self.find(id) {
            Some(i) => {
                let mut p = self.parameters.remove(i);
                p.value = value;
                self.parameters.insert(i, p);
                proof {
                    let s0 = old(self).parameters@;
                    let s1 = self.parameters@;
                    assert(s1 =~= s0.update(i as int, PluginParameter { value, ..s0[i as int] }));
                    assert forall|a: int, b: int|
                        0 <= a < s1.len() && 0 <= b < s1.len() && a != b implies (#[trigger] s1[a]).id@
                        != (#[trigger] s1[b]).id@ by {
                        assert(s1[a].id@ == s0[a].id@);
                        assert(s1[b].id@ == s0[b].id@);
                    }
                }
            },
            None => {},
        }
    }

    /// Stores a parameter under its id, in place of one with the same id.
    pub fn add_parameter(&mut self, parameter: PluginParameter)
        requires
            old(self).well_formed(),
        ensures
            final(self).well_formed(),
            final(self).parameters@ == with_param(old(self).parameters@, parameter),
            final(self).instance_id == old(self).instance_id,
            final(self).plugin_id == old(self).plugin_id,
            final(self).bypassed == old(self).bypassed,
            final(self).enabled == old(self).enabled,
            final(self).preset == old(self).preset,
    {
        proof {
            lemma_with_param(self.parameters@, parameter);
        }
        let id = parameter.id.clone();
        match self.find(id.as_str()) {
            Some(i) => {
                self.parameters.set(i, parameter);
            },
            None => {
                self.parameters.push(parameter);
            },
        }
    }

    /// Takes out the parameter stored under `id` and returns it.
    pub fn remove_parameter(&mut self, id: &str) -> (r: Option<PluginParameter>)
        requires
            old(self).well_formed(),
        ensures
            final(self).well_formed(),
            r == param_lookup(old(self).parameters@, id@),
            final(self).parameters@ == without_param(old(self).parameters@, id@),
            final(self).instance_id == old(self).instance_id,
            final(self).plugin_id == old(self).plugin_id,
            final(self).bypassed == old(self).bypassed,
            final(self).enabled == old(self).enabled,
            final(self).preset == old(self).preset,
    {
        match self.find(id) {
            Some(i) => {
                let p = self.parameters.remove(i);
                proof {
                    let s0 = old(self).parameters@;
                    let s1 = self.parameters@;
                    assert forall|a: int, b: int|
                        0 <= a < s1.len() && 0 <= b < s1.len() && a != b implies (#[trigger] s1[a]).id@
                        != (#[trigger] s1[b]).id@ by {
                        let a0 = if a < i { a } else { a + 1 };
                        let b0 = if b < i { b } else { b + 1 };
                        assert(s1[a] == s0[a0]);
                        assert(s1[b] == s0[b0]);
                    }
                }
                Some(p)
            },
            None => None,
        }
    }

    /// Puts every parameter back to its default.
    pub fn reset_all_parameters(&mut self)
        requires
            old(self).well_formed(),
        ensures
            final(self).well_formed(),
            final(self).parameters@ == all_reset(old(self).parameters@),
            final(self).instance_id == old(self).instance_id,
            final(self).plugin_id == old(self).plugin_id,
            final(self).bypassed == old(self).bypassed,
            final(self).enabled == old(self).enabled,
            final(self).preset == old(self).preset,
    {
        let ghost s0 = self.parameters@;
        let mut i: usize = 0;
        while i < self.parameters.len()
            invariant
                s0 == old(self).parameters@,
                self.instance_id == old(self).instance_id,
                self.plugin_id == old(self).plugin_id,
                self.bypassed == old(self).bypassed,
                self.enabled == old(self).enabled,
                self.preset == old(self).preset,
                self.parameters@.len() == s0.len(),
                i <= s0.len(),
                forall|k: int| 0 <= k < i ==> #[trigger] self.parameters@[k] == (PluginParameter {
                    value: s0[k].default_value,
                    ..s0[k]
                }),
                forall|k: int| i <= k < s0.len() ==> #[trigger] self.parameters@[k] == s0[k],
            decreases s0.len() - i,
        {
            let mut p = self.parameters.remove(i);
            p.value = p.default_value;
            self.parameters.insert(i, p);
            i = i + 1;
        }
        proof {
            assert(self.parameters@ =~= all_reset(s0));
            assert forall|a: int, b: int|
                0 <= a < s0.len() && 0 <= b < s0.len() && a != b implies (#[trigger] self.parameters@[a]).id@
                != (#[trigger] self.parameters@[b]).id@ by {
                assert(self.parameters@[a].id@ == s0[a].id@);
                assert(self.parameters@[b].id@ == s0[b].id@);
            }
        }
    }

    pub fn toggle_bypass(&mut self)
        ensures
            *final(self) == (PluginInstance { bypassed: !old(self).bypassed, ..*old(self) }),
    {
        self.bypassed = !self.bypassed;
    }

    pub fn toggle_enabled(&mut self)
        ensures
            *final(self) == (PluginInstance { enabled: !old(self).enabled, ..*old(self) }),
    {
        self.enabled = !self.enabled;
    }

    pub fn set_preset(&mut self, preset: String)
        ensures
            *final(self) == (PluginInstance { preset: Some(preset), ..*old(self) }),
    {
        self.preset = Some(preset);
    }

    pub fn clear_preset(&mut self)
        ensures
            *final(self) == (PluginInstance { preset: None, ..*old(self) }),
    {
        self.preset = None;
    }

    /// Each parameter's id with its value (as `f32` bits), in storage order.
    pub fn get_parameter_values(&self) -> (r: Vec<(String, u32)>)
        ensures
            r@.len() == self.parameters@.len(),
            forall|k: int| 0 <= k < r@.len() ==> (#[trigger] r@[k]).0@ == self.parameters@[k].id@
                && r@[k].1 == self.parameters@[k].value,
    {
        let mut r: Vec<(String, u32)> = Vec::new();
        let mut i: usize = 0;
        while i < self.parameters.len()
            invariant
                i <= self.parameters@.len(),
                r@.len() == i,
                forall|k: int| 0 <= k < i ==> (#[trigger] r@[k]).0@ == self.parameters@[k].id@
                    && r@[k].1 == self.parameters@[k].value,
            decreases self.parameters@.len() - i,
        {
            let p = &self.parameters[i];
            r.push((p.id.clone(), p.value));
            i = i + 1;
        }
        r
    }
}

} // verus!
