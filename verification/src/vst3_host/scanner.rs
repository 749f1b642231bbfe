use vstd::prelude::*;
use vstd::string::*;

verus! {

#[derive(Debug, Clone, Copy, PartialEq, Eq, Structural)]
pub enum PluginCategory {
    Eq,
    Compressor,
    Reverb,
    Delay,
    Utility,
}

/// What the scanner knows of a plugin file. The path is kept as text.
#[derive(Debug, Clone)]
pub struct PluginInfo {
    pub id: String,
    pub name: String,
    pub vendor: String,
    pub category: PluginCategory,
    pub version: String,
    pub path: String,
    pub plugin_format: String,
    pub has_editor: bool,
    pub input_bus_count: u32,
    pub output_bus_count: u32,
}

/// A plugin library the host holds open, by its path and the plugin it provides.
#[derive(Debug, Clone)]
pub struct LoadedPluginLibrary {
    pub path: String,
    pub plugin_id: String,
}

/// Whether `needle` occurs in `hay` as a contiguous run of characters.
pub open spec fn has_substring(hay: Seq<char>, needle: Seq<char>) -> bool {
    exists|i: int|
        0 <= i && i + needle.len() <= hay.len() && #[trigger] hay.subrange(i, i + needle.len())
            == needle
}

/// The category a lowercased plugin name suggests, by the first keyword family it holds:
/// equalisers, then compressors, reverbs, delays; anything else is a utility.
pub open spec fn category_of_lower(n: Seq<char>) -> PluginCategory {
    if has_substring(n, "eq"@) || has_substring(n, "equalizer"@) {
        PluginCategory::Eq
    } else if has_substring(n, "comp"@) || has_substring(n, "compress"@) {
        PluginCategory::Compressor
    } else if has_substring(n, "reverb"@) || has_substring(n, "hall"@) || has_substring(
        n,
        "room"@,
    ) {
        PluginCategory::Reverb
    } else if has_substring(n, "delay"@) || has_substring(n, "echo"@) {
        PluginCategory::Delay
    } else {
        PluginCategory::Utility
    }
}

/// What `str::to_lowercase` gives for a text: its Unicode lowercase mapping.
pub uninterp spec fn lowercase_name(s: Seq<char>) -> Seq<char>;

/// What `Path::file_stem` gives for a path, when the stem is valid text: the final
/// component without its last extension.
pub uninterp spec fn file_stem_name(path: Seq<char>) -> Option<Seq<char>>;

/// `str::to_lowercase`. The contract only names the result: it is the Unicode lowercase
/// mapping of the text, a function of the text alone.
#[verifier::external_body]
fn lowercase(s: &str) -> (r: String)
    ensures
        r@ == lowercase_name(s@),
{
    s.to_lowercase()
}

/// `std::path::Path::file_stem`, read as text. The contract names the result and adds
/// that a stem, when there is one, is a run of characters of the path.
#[verifier::external_body]
fn path_file_stem(path: &str) -> (r: Option<String>)
    ensures
        r matches Some(s) ==> file_stem_name(path@) == Some(s@) && has_substring(path@, s@),
        r is None ==> file_stem_name(path@) is None,
{
    std::path::Path::new(path).file_stem().and_then(|s| s.to_str()).map(|s| s.to_string())
}

/// The two texts one after the other.
fn join_text(a: &str, b: &str) -> (r: String)
    ensures
        r@ == a@ + b@,
{
    let mut r = a.to_owned();
    r.append(b);
    r
}

/// Whether `needle` occurs in `hay`.
pub fn contains_text(hay: &str, needle: &str) -> (r: bool)
    ensures
        r == has_substring(hay@, needle@),
{
    let n: usize = hay.unicode_len();
    let m: usize = needle.unicode_len();
    if m > n {
        return false;
    }
    let mut i: usize = 0;
    while i <= n - m
        invariant
            n == hay@.len(),
            m == needle@.len(),
            m <= n,
            i <= n - m + 1,
            forall|k: int| 0 <= k < i ==> #[trigger] hay@.subrange(k, k + m) != needle@,
        decreases n - m + 1 - i,
    {
        let mut j: usize = 0;
        let mut same: bool = true;
        while j < m
            invariant
                n == hay@.len(),
                m == needle@.len(),
                i + m <= n,
                j <= m,
                same <==> forall|t: int| 0 <= t < j ==> hay@[i + t] == needle@[t],
            decreases m - j,
        {
            if hay.get_char(i + j) != needle.get_char(j) {
                same = false;
            }
            j = j + 1;
        }
        if same {
            assert(hay@.subrange(i as int, i + m) =~= needle@);
            return true;
        }
        assert(hay@.subrange(i as int, i + m) != needle@) by {
            let t = choose|t: int| 0 <= t < m && hay@[i + t] != needle@[t];
            assert(hay@.subrange(i as int, i + m)[t] == hay@[i + t]);
        }
        i = i + 1;
    }
    false
}

/// The category of a name that is already lowercase.
pub fn category_of_lowercase(name_lower: &str) -> (c: PluginCategory)
    ensures
        c == category_of_lower(name_lower@),
{
    if contains_text(name_lower, "eq") || contains_text(name_lower, "equalizer") {
        PluginCategory::Eq
    } else if contains_text(name_lower, "comp") || contains_text(name_lower, "compress") {
        PluginCategory::Compressor
    } else if contains_text(name_lower, "reverb") || contains_text(name_lower, "hall")
        || contains_text(name_lower, "room") {
        PluginCategory::Reverb
    } else if contains_text(name_lower, "delay") || contains_text(name_lower, "echo") {
        PluginCategory::Delay
    } else {
        PluginCategory::Utility
    }
}


/// The name a plugin file goes by: its stem, or a placeholder when it has none.
pub open spec fn plugin_name_of(stem: Option<Seq<char>>) -> Seq<char> {
    match stem {
        Some(s) => s,
        None => "Unknown Plugin"@,
    }
}

/// The id a plugin file is registered under: `vst3_` and its stem, or `vst3_unknown`.
pub open spec fn plugin_id_of(stem: Option<Seq<char>>) -> Seq<char> {
    "vst3_"@ + match stem {
        Some(s) => s,
        None => "unknown"@,
    }
}

/// What is recorded of a plugin file with the given stem and path: id and name from the
/// stem, the category its name suggests, an unknown vendor, version 1.0.0, the VST3 format,
/// an editor, and one input and one output bus.
pub open spec fn describes(info: PluginInfo, stem: Option<Seq<char>>, path: Seq<char>) -> bool {
    &&& info.id@ == plugin_id_of(stem)
    &&& info.name@ == plugin_name_of(stem)
    &&& info.category == category_of_lower(lowercase_name(plugin_name_of(stem)))
    &&& info.vendor@ == "Unknown"@
    &&& info.version@ == "1.0.0"@
    &&& info.path@ == path
    &&& info.plugin_format@ == "VST3"@
    &&& info.has_editor
    &&& info.input_bus_count == 1
    &&& info.output_bus_count == 1
}

/// The record of a plugin file whose stem is already known.
pub fn plugin_info_from_stem(stem: Option<String>, path: String) -> (info: PluginInfo)
    ensures
        describes(
            info,
            match stem {
                Some(s) => Some(s@),
                None => None,
            },
            path@,
        ),
{
    let (plugin_id, name) = match stem {
        Some(s) => (join_text("vst3_", s.as_str()), s),
        None => (join_text("vst3_", "unknown"), "Unknown Plugin".to_owned()),
    };
    let category = Vst3Scanner::detect_category(name.as_str());
    PluginInfo {
        id: plugin_id,
        name,
        vendor: "Unknown".to_owned(),
        category,
        version: "1.0.0".to_owned(),
        path,
        plugin_format: "VST3".to_owned(),
        has_editor: true,
        input_bus_count: 1,
        output_bus_count: 1,
    }
}

/// The record of the plugin file at `path`, its id and name taken from the file's stem.
/// Loading the library, which the caller does first, is not part of it.
pub fn describe_plugin(path: String) -> (info: PluginInfo)
    ensures
        describes(info, file_stem_name(path@), path@),
{
    let stem = path_file_stem(path.as_str());
    plugin_info_from_stem(stem, path)
}

/// The registry's contents as a map from id to plugin: each entry under its id.
pub open spec fn has_id(s: Seq<PluginInfo>, id: Seq<char>) -> bool {
    exists|i: int| 0 <= i < s.len() && (#[trigger] s[i]).id@ == id
}

/// The place of the entry with the given id.
pub open spec fn index_of_id(s: Seq<PluginInfo>, id: Seq<char>) -> int {
    choose|i: int| 0 <= i < s.len() && (#[trigger] s[i]).id@ == id
}

/// No two entries share an id.
pub open spec fn ids_distinct(s: Seq<PluginInfo>) -> bool {
    forall|i: int, j: int|
        0 <= i < s.len() && 0 <= j < s.len() && i != j ==> (#[trigger] s[i]).id@ != (
        #[trigger] s[j]).id@
}

/// The entry stored under an id, if any.
pub open spec fn lookup(s: Seq<PluginInfo>, id: Seq<char>) -> Option<PluginInfo> {
    if has_id(s, id) {
        Some(s[index_of_id(s, id)])
    } else {
        None
    }
}

/// The registry after storing `info` under its id: it takes the place of an entry with
/// that id, or joins at the end.
pub open spec fn registered(s: Seq<PluginInfo>, info: PluginInfo) -> Seq<PluginInfo> {
    if has_id(s, info.id@) {
        s.update(index_of_id(s, info.id@), info)
    } else {
        s.push(info)
    }
}

/// The registry of plugins found so far, keyed by plugin id.
pub struct Vst3Scanner {
    plugin_registry: Vec<PluginInfo>,
}

impl View for Vst3Scanner {
    type V = Seq<PluginInfo>;

    closed spec fn view(&self) -> Seq<PluginInfo> {
        self.plugin_registry@
    }
}

impl Vst3Scanner {
    /// Each plugin id is stored once.
    pub open spec fn well_formed(&self) -> bool {
        ids_distinct(self@)
    }

    pub fn new() -> (s: Self)
        ensures
            s@ == Seq::<PluginInfo>::empty(),
            s.well_formed(),
    {
        Vst3Scanner { plugin_registry: Vec::new() }
    }

    /// The category a plugin's name suggests, matched without regard to case.
    pub fn detect_category(name: &str) -> (c: PluginCategory)
        ensures
            c == category_of_lower(lowercase_name(name@)),
    {
        let name_lower = lowercase(name);
        category_of_lowercase(name_lower.as_str())
    }

    fn find(&self, id: &str) -> (r: Option<usize>)
        requires
            self.well_formed(),
        ensures
            r matches Some(i) ==> i < self@.len() && self@[i as int].id@ == id@ && index_of_id(
                self@,
                id@,
            ) == i,
            r is None ==> !has_id(self@, id@),
    {
        let key = id.to_owned();
        let mut i: usize = 0;
        while i < self.plugin_registry.len()
            invariant
                key@ == id@,
                ids_distinct(self@),
                i <= self.plugin_registry@.len(),
                forall|k: int| 0 <= k < i ==> (#[trigger] self.plugin_registry@[k]).id@ != id@,
            decreases self.plugin_registry@.len() - i,
        {
            if self.plugin_registry[i].id == key {
                proof {
                    assert(self@[i as int].id@ == id@);
                    assert(has_id(self@, id@));
                    let j = index_of_id(self@, id@);
                    assert(self@[j].id@ == id@);
                }
                return Some(i);
            }
            i = i + 1;
        }
        None
    }

    /// The plugin registered under `id`.
    pub fn get_plugin(&self, id: &str) -> (r: Option<&PluginInfo>)
        requires
            self.well_formed(),
        ensures
            match r {
                Some(p) => lookup(self@, id@) == Some(*p),
                None => lookup(self@, id@) is None,
            },
    {
        match self.find(id) {
            Some(i) => Some(&self.plugin_registry[i]),
            None => None,
        }
    }

    /// Stores a plugin under its id, in place of one registered with the same id.
    pub fn register(&mut self, info: PluginInfo)
        requires
            old(self).well_formed(),
        ensures
            final(self).well_formed(),
            final(self)@ == registered(old(self)@, info),
    {
        let id = info.id.clone();
        match self.find(id.as_str()) {
            Some(i) => {
                self.plugin_registry.set(i, info);
            },
            None => {
                self.plugin_registry.push(info);
            },
        }
    }

    /// All registered plugins, in the order they were first registered.
    pub fn plugins(&self) -> (r: &Vec<PluginInfo>)
        ensures
            r@ == self@,
    {
        &self.plugin_registry
    }
}

impl Default for Vst3Scanner {
    fn default() -> (s: Self)
        ensures
            s@ == Seq::<PluginInfo>::empty(),
    {
        Self::new()
    }
}

/// After a plugin is registered, looking up its id gives it back, and every other id
/// gives what it gave before.
pub proof fn lemma_lookup_after_register(s: Seq<PluginInfo>, info: PluginInfo, k: Seq<char>)
    requires
        ids_distinct(s),
    ensures
        ids_distinct(registered(s, info)),
        lookup(registered(s, info), info.id@) == Some(info),
        k != info.id@ ==> lookup(registered(s, info), k) == lookup(s, k),
{
    let r = registered(s, info);
    if has_id(s, info.id@) {
        let j = index_of_id(s, info.id@);
        assert(r[j].id@ == info.id@);
        assert(has_id(r, info.id@));
        let j2 = index_of_id(r, info.id@);
        assert(r[j2].id@ == info.id@);
    } else {
        let j = s.len() as int;
        assert(r[j].id@ == info.id@);
        assert(has_id(r, info.id@));
        let j2 = index_of_id(r, info.id@);
        assert(r[j2].id@ == info.id@);
    }
    if k != info.id@ {
        if has_id(s, k) {
            let i = index_of_id(s, k);
            assert(r[i].id@ == k);
            assert(has_id(r, k));
            let i2 = index_of_id(r, k);
            assert(r[i2].id@ == k);
        } else {
            if has_id(r, k) {
                let i2 = index_of_id(r, k);
                assert(r[i2].id@ == k);
                assert(s[i2].id@ == k);
            }
        }
    }
}

/// A text holding a longer keyword holds each of its prefixes too.
proof fn lemma_prefix_substring(n: Seq<char>, long: Seq<char>, short: Seq<char>)
    requires
        has_substring(n, long),
        short.len() <= long.len(),
        long.subrange(0, short.len() as int) == short,
    ensures
        has_substring(n, short),
{
    let i = choose|i: int|
        0 <= i && i + long.len() <= n.len() && #[trigger] n.subrange(i, i + long.len()) == long;
    assert(n.subrange(i, i + short.len()) =~= long.subrange(0, short.len() as int));
}

/// A plugin's category follows the first keyword family its lowercased name holds:
/// "eq" makes an equaliser; else "comp" a compressor; else "reverb", "hall" or "room" a
/// reverb; else "delay" or "echo" a delay; a name with none of them is a utility.
pub proof fn lemma_category_by_keyword(n: Seq<char>)
    ensures
        has_substring(n, "eq"@) ==> category_of_lower(n) == PluginCategory::Eq,
        !has_substring(n, "eq"@) && has_substring(n, "comp"@) ==> category_of_lower(n)
            == PluginCategory::Compressor,
        !has_substring(n, "eq"@) && !has_substring(n, "comp"@) && (has_substring(n, "reverb"@)
            || has_substring(n, "hall"@) || has_substring(n, "room"@)) ==> category_of_lower(n)
            == PluginCategory::Reverb,
        !has_substring(n, "eq"@) && !has_substring(n, "comp"@) && !has_substring(n, "reverb"@)
            && !has_substring(n, "hall"@) && !has_substring(n, "room"@) && (has_substring(n, "delay"@)
            || has_substring(n, "echo"@)) ==> category_of_lower(n) == PluginCategory::Delay,
        !has_substring(n, "eq"@) && !has_substring(n, "comp"@) && !has_substring(n, "reverb"@)
            && !has_substring(n, "hall"@) && !has_substring(n, "room"@) && !has_substring(n, "delay"@)
            && !has_substring(n, "echo"@) ==> category_of_lower(n) == PluginCategory::Utility,
{
    reveal_strlit("eq");
    reveal_strlit("equalizer");
    reveal_strlit("comp");
    reveal_strlit("compress");
    if has_substring(n, "equalizer"@) {
        assert("equalizer"@.subrange(0, 2) =~= "eq"@);
        lemma_prefix_substring(n, "equalizer"@, "eq"@);
    }
    if has_substring(n, "compress"@) {
        assert("compress"@.subrange(0, 4) =~= "comp"@);
        lemma_prefix_substring(n, "compress"@, "comp"@);
    }
}

} // verus!
