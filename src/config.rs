//! Configuration as the daemon sees it once parsed: profiles of per-output
//! settings and the global transition settings.
use crate::transition::{Direction, TransitionTypeEnum};
use rand::seq::IndexedRandom;
use vstd::prelude::*;

verus! {

/// Default transition length in milliseconds.
pub fn default_duration() -> (r: u32)
    ensures
        r == 2000,
{
    2000
}

/// Default transition frame rate.
pub fn default_fps() -> (r: u16)
    ensures
        r == 30,
{
    30
}

/// Name of the profile used when none is given.
pub fn default_profile() -> (r: String)
    ensures
        r@ == default_profile_name(),
{
    proof {
        reveal_strlit("default");
    }
    String::from_str("default")
}

pub open spec fn default_profile_name() -> Seq<char> {
    seq!['d', 'e', 'f', 'a', 'u', 'l', 't']
}

/// Relies on rand's `IndexedRandom::choose` with the thread-local generator:
/// `None` exactly for an empty list, otherwise one of its elements.
#[verifier::external_body]
fn choose_kind(kinds: &Vec<TransitionTypeEnum>) -> (r: Option<TransitionTypeEnum>)
    ensures
        r is None <==> kinds@.len() == 0,
        r is Some ==> kinds@.contains(r->0),
{
    kinds.as_slice().choose(&mut rand::rng()).copied()
}

/// One kind, or a list to pick from at random for each transition.
#[derive(Clone, Debug, PartialEq, Eq)]
pub enum TransitionSelection {
    Single(TransitionTypeEnum),
    Random(Vec<TransitionTypeEnum>),
}

/// Mathematical value of a [`TransitionSelection`].
pub enum SelectionModel {
    Single(TransitionTypeEnum),
    Random(Seq<TransitionTypeEnum>),
}

impl View for TransitionSelection {
    type V = SelectionModel;

    open spec fn view(&self) -> SelectionModel {
        match self {
            TransitionSelection::Single(t) => SelectionModel::Single(*t),
            TransitionSelection::Random(v) => SelectionModel::Random(v@),
        }
    }
}

fn copy_kinds(v: &Vec<TransitionTypeEnum>) -> (r: Vec<TransitionTypeEnum>)
    ensures
        r@ == v@,
{
    let mut r: Vec<TransitionTypeEnum> = Vec::new();
    let mut i: usize = 0;
    while i < v.len()
        invariant
            i <= v@.len(),
            r@ == v@.subrange(0, i as int),
        decreases v@.len() - i,
    {
        r.push(v[i]);
        i = i + 1;
    }
    assert(r@ =~= v@);
    r
}

impl TransitionSelection {
    pub fn duplicate(&self) -> (r: Self)
        ensures
            r@ == self@,
    {
        match self {
            TransitionSelection::Single(t) => TransitionSelection::Single(*t),
            TransitionSelection::Random(v) => TransitionSelection::Random(copy_kinds(v)),
        }
    }
}

/// Settings of the sweep transition.
#[derive(Clone, Copy, Debug, PartialEq, Eq, Structural)]
pub struct SweepConfig {
    pub direction: Direction,
    /// Width of the soft edge, in thousandths of the screen.
    pub edge_width_milli: u32,
}

impl SweepConfig {
    pub fn new() -> (r: Self)
        ensures
            r.direction == Direction::LeftToRight,
            r.edge_width_milli == 50,
    {
        SweepConfig { direction: Direction::LeftToRight, edge_width_milli: 50 }
    }
}

#[derive(Clone, Debug, PartialEq, Eq)]
pub struct TransitionConfig {
    pub transition_type: TransitionSelection,
    pub duration_ms: u32,
    pub fps: u16,
    pub sweep: SweepConfig,
}

/// Mathematical value of a [`TransitionConfig`].
pub struct TransitionConfigModel {
    pub transition_type: SelectionModel,
    pub duration_ms: u32,
    pub fps: u16,
    pub sweep: SweepConfig,
}

impl View for TransitionConfig {
    type V = TransitionConfigModel;

    open spec fn view(&self) -> TransitionConfigModel {
        TransitionConfigModel {
            transition_type: self.transition_type@,
            duration_ms: self.duration_ms,
            fps: self.fps,
            sweep: self.sweep,
        }
    }
}

pub open spec fn picked_from(sel: SelectionModel, r: TransitionTypeEnum) -> bool {
    match sel {
        SelectionModel::Single(t) => r == t,
        SelectionModel::Random(v) => if v.len() == 0 {
            r == TransitionTypeEnum::Crossfade
        } else {
            v.contains(r)
        },
    }
}

impl TransitionConfig {
    pub fn duplicate(&self) -> (r: Self)
        ensures
            r@ == self@,
    {
        TransitionConfig {
            transition_type: self.transition_type.duplicate(),
            duration_ms: self.duration_ms,
            fps: self.fps,
            sweep: self.sweep,
        }
    }

    /// The kind to run now: the single one, or one drawn from the list
    /// (crossfade when the list is empty).
    pub fn pick_random_type(&self) -> (r: TransitionTypeEnum)
        ensures
            picked_from(self.transition_type@, r),
    {
        match &self.transition_type {
            TransitionSelection::Single(t) => *t,
            TransitionSelection::Random(types) => match choose_kind(types) {
                Some(t) => t,
                None => TransitionTypeEnum::Crossfade,
            },
        }
    }
}

/// Settings of one output within a profile.
#[derive(Clone, Debug, PartialEq, Eq)]
pub struct OutputConfig {
    /// Seconds between two images.
    pub duration: Option<u64>,
    /// An image file or a directory of images.
    pub path: String,
    /// Run after each switch, with `{image}` replaced by the image path.
    pub run_command: Option<String>,
    pub transition: Option<TransitionConfig>,
    pub transitions_enabled: Option<bool>,
}

/// Mathematical value of an [`OutputConfig`].
pub struct OutputConfigModel {
    pub duration: Option<u64>,
    pub path: Seq<char>,
    pub run_command: Option<Seq<char>>,
    pub transition: Option<TransitionConfigModel>,
    pub transitions_enabled: Option<bool>,
}

pub open spec fn opt_string_view(o: Option<String>) -> Option<Seq<char>> {
    match o {
        Some(s) => Some(s@),
        None => None,
    }
}

pub open spec fn opt_transition_view(o: Option<TransitionConfig>) -> Option<TransitionConfigModel> {
    match o {
        Some(t) => Some(t@),
        None => None,
    }
}

pub open spec fn opt_output_view(o: Option<OutputConfig>) -> Option<OutputConfigModel> {
    match o {
        Some(c) => Some(c@),
        None => None,
    }
}

impl View for OutputConfig {
    type V = OutputConfigModel;

    open spec fn view(&self) -> OutputConfigModel {
        OutputConfigModel {
            duration: self.duration,
            path: self.path@,
            run_command: opt_string_view(self.run_command),
            transition: opt_transition_view(self.transition),
            transitions_enabled: self.transitions_enabled,
        }
    }
}

pub open spec fn transition_config_of(o: OutputConfig, g: Config) -> Option<TransitionConfigModel> {
    match o.transition {
        Some(t) => Some(t@),
        None => opt_transition_view(g.transition),
    }
}

pub open spec fn transitions_enabled_spec(o: OutputConfig, g: Config) -> bool {
    match o.transitions_enabled {
        Some(b) => b,
        None => match g.transitions_enabled {
            Some(b) => b,
            None => true,
        },
    }
}

impl OutputConfig {
    pub fn duplicate(&self) -> (r: Self)
        ensures
            r@ == self@,
    {
        OutputConfig {
            duration: self.duration,
            path: self.path.clone(),
            run_command: match &self.run_command {
                Some(c) => Some(c.clone()),
                None => None,
            },
            transition: match &self.transition {
                Some(t) => Some(t.duplicate()),
                None => None,
            },
            transitions_enabled: self.transitions_enabled,
        }
    }

    /// The output's own transition settings, else the global ones.
    pub fn get_transition_config<'a>(&'a self, global_config: &'a Config) -> (r: Option<
        &'a TransitionConfig,
    >)
        ensures
            match r {
                Some(t) => transition_config_of(*self, *global_config) == Some(t@),
                None => transition_config_of(*self, *global_config) is None,
            },
    {
        match &self.transition {
            Some(t) => Some(t),
            None => global_config.transition.as_ref(),
        }
    }

    /// The output's switch, else the global one, else enabled.
    pub fn is_transitions_enabled(&self, global_config: &Config) -> (r: bool)
        ensures
            r == transitions_enabled_spec(*self, *global_config),
    {
        match self.transitions_enabled {
            Some(b) => b,
            None => match global_config.transitions_enabled {
                Some(b) => b,
                None => true,
            },
        }
    }

    /// Transition length: from the effective transition settings, else the default.
    pub fn get_transition_duration(&self, global_config: &Config) -> (r: u32)
        ensures
            r == match transition_config_of(*self, *global_config) {
                Some(t) => t.duration_ms,
                None => 2000,
            },
    {
        match self.get_transition_config(global_config) {
            Some(t) => t.duration_ms,
            None => default_duration(),
        }
    }

    /// Transition frame rate: from the effective transition settings, else the default.
    pub fn get_transition_fps(&self, global_config: &Config) -> (r: u16)
        ensures
            r == match transition_config_of(*self, *global_config) {
                Some(t) => t.fps,
                None => 30,
            },
    {
        match self.get_transition_config(global_config) {
            Some(t) => t.fps,
            None => default_fps(),
        }
    }

    /// Transition kind: picked from the effective settings, else crossfade.
    pub fn get_transition_type(&self, global_config: &Config) -> (r: TransitionTypeEnum)
        ensures
            match transition_config_of(*self, *global_config) {
                Some(t) => picked_from(t.transition_type, r),
                None => r == TransitionTypeEnum::Crossfade,
            },
    {
        match self.get_transition_config(global_config) {
            Some(t) => t.pick_random_type(),
            None => TransitionTypeEnum::Crossfade,
        }
    }

    /// Sweep direction: from the effective settings, else left to right.
    pub fn get_transition_direction(&self, global_config: &Config) -> (r: Direction)
        ensures
            r == match transition_config_of(*self, *global_config) {
                Some(t) => t.sweep.direction,
                None => Direction::LeftToRight,
            },
    {
        match self.get_transition_config(global_config) {
            Some(t) => t.sweep.direction,
            None => Direction::LeftToRight,
        }
    }
}

/// The output settings of one (profile, output) pair.
#[derive(Clone, Debug, PartialEq, Eq)]
pub struct ProfileEntry {
    pub profile: String,
    pub output: String,
    pub config: OutputConfig,
}

pub open spec fn entry_is(e: ProfileEntry, p: Seq<char>, o: Seq<char>) -> bool {
    e.profile@ == p && e.output@ == o
}

/// Output settings keyed by profile and output name, and the set of profile names.
#[derive(Clone, Debug)]
pub struct Profiles {
    pub entries: Vec<ProfileEntry>,
    pub names: Vec<String>,
}

impl Profiles {
    /// Each (profile, output) pair appears once, each name once, and the names
    /// are exactly the profiles of the entries.
    pub open spec fn wf(&self) -> bool {
        &&& forall|i: int, j: int|
            0 <= i < j < self.entries@.len() ==> !entry_is(
                #[trigger] self.entries@[i],
                #[trigger] self.entries@[j].profile@,
                self.entries@[j].output@,
            )
        &&& forall|i: int, j: int|
            0 <= i < j < self.names@.len() ==> #[trigger] self.names@[i]@ != #[trigger] self.names@[j]@
        &&& forall|i: int|
            0 <= i < self.entries@.len() ==> self.has_name(#[trigger] self.entries@[i].profile@)
        &&& forall|i: int|
            0 <= i < self.names@.len() ==> exists|j: int|
                0 <= j < self.entries@.len() && #[trigger] self.entries@[j].profile@
                    == #[trigger] self.names@[i]@
    }

    pub open spec fn has_name(&self, p: Seq<char>) -> bool {
        exists|i: int| 0 <= i < self.names@.len() && #[trigger] self.names@[i]@ == p
    }

    pub open spec fn has_key(&self, p: Seq<char>, o: Seq<char>) -> bool {
        exists|i: int| 0 <= i < self.entries@.len() && entry_is(#[trigger] self.entries@[i], p, o)
    }

    /// The settings stored for output `o` in profile `p`.
    pub open spec fn lookup(&self, p: Seq<char>, o: Seq<char>) -> Option<OutputConfigModel> {
        if self.has_key(p, o) {
            let i = choose|i: int|
                0 <= i < self.entries@.len() && entry_is(#[trigger] self.entries@[i], p, o);
            Some(self.entries@[i].config@)
        } else {
            None
        }
    }

    pub fn new() -> (r: Self)
        ensures
            r.wf(),
            r.entries@.len() == 0,
            r.names@.len() == 0,
    {
        Profiles { entries: Vec::new(), names: Vec::new() }
    }

    proof fn lemma_lookup_at(&self, i: int)
        requires
            self.wf(),
            0 <= i < self.entries@.len(),
        ensures
            self.lookup(self.entries@[i].profile@, self.entries@[i].output@) == Some(
                self.entries@[i].config@,
            ),
    {
        let p = self.entries@[i].profile@;
        let o = self.entries@[i].output@;
        assert(entry_is(self.entries@[i], p, o));
        let k = choose|k: int| 0 <= k < self.entries@.len() && entry_is(#[trigger] self.entries@[k], p, o);
        if k < i {
            assert(!entry_is(self.entries@[k], self.entries@[i].profile@, self.entries@[i].output@));
        } else if i < k {
            assert(!entry_is(self.entries@[i], self.entries@[k].profile@, self.entries@[k].output@));
        }
    }

    fn find(&self, profile: &str, output_name: &str) -> (r: Option<usize>)
        requires
            self.wf(),
        ensures
            match r {
                Some(i) => i < self.entries@.len() && entry_is(self.entries@[i as int], profile@, output_name@),
                None => !self.has_key(profile@, output_name@),
            },
    {
        let p = String::from_str(profile);
        let o = String::from_str(output_name);
        let mut i: usize = 0;
        while i < self.entries.len()
            invariant
                p@ == profile@,
                o@ == output_name@,
                i <= self.entries@.len(),
                forall|j: int| 0 <= j < i ==> !entry_is(#[trigger] self.entries@[j], profile@, output_name@),
            decreases self.entries@.len() - i,
        {
            let e = &self.entries[i];
            if e.profile == p && e.output == o {
                return Some(i);
            }
            i = i + 1;
        }
        None
    }

    /// Settings for `output_name` in `profile`, the default profile when `None`.
    pub fn get_config(&self, profile: Option<&str>, output_name: &str) -> (r: Option<&OutputConfig>)
        requires
            self.wf(),
        ensures
            match r {
                Some(c) => self.lookup(
                    match profile {
                        Some(p) => p@,
                        None => default_profile_name(),
                    },
                    output_name@,
                ) == Some(c@),
                None => self.lookup(
                    match profile {
                        Some(p) => p@,
                        None => default_profile_name(),
                    },
                    output_name@,
                ) is None,
            },
    {
        let p = match profile {
            Some(p) => p,
            None => "default",
        };
        proof {
            reveal_strlit("default");
        }
        assert(p@ == match profile {
            Some(q) => q@,
            None => default_profile_name(),
        });
        match self.find(p, output_name) {
            Some(i) => {
                proof {
                    self.lemma_lookup_at(i as int);
                }
                Some(&self.entries[i].config)
            },
            None => None,
        }
    }

    /// The names of all profiles, each once.
    pub fn profiles(&self) -> (r: Vec<String>)
        ensures
            r@ == self.names@,
    {
        self.names.clone()
    }

    /// Whether a profile of this name exists.
    pub fn has_profile_name(&self, profile: &str) -> (r: bool)
        ensures
            r == self.has_name(profile@),
    {
        let p = String::from_str(profile);
        let mut i: usize = 0;
        while i < self.names.len()
            invariant
                p@ == profile@,
                i <= self.names@.len(),
                forall|j: int| 0 <= j < i ==> #[trigger] self.names@[j]@ != profile@,
            decreases self.names@.len() - i,
        {
            if self.names[i] == p {
                return true;
            }
            i = i + 1;
        }
        false
    }

    /// Store `output_config` for `output_name` in `profile` (the default profile
    /// when `None`), replacing what was stored for that pair.
    pub fn insert(&mut self, profile: Option<&str>, output_name: &str, output_config: OutputConfig)
        requires
            old(self).wf(),
        ensures
            final(self).wf(),
            forall|p: Seq<char>, o: Seq<char>|
                #[trigger] final(self).lookup(p, o) == if p == (match profile {
                    Some(q) => q@,
                    None => default_profile_name(),
                }) && o == output_name@ {
                    Some(output_config@)
                } else {
                    old(self).lookup(p, o)
                },
            forall|p: Seq<char>|
                #[trigger] final(self).has_name(p) == (old(self).has_name(p) || p == (match profile {
                    Some(q) => q@,
                    None => default_profile_name(),
                })),
    {
        let ghost pre = *self;
        let ghost new_cfg = output_config@;
        let pname: &str = match profile {
            Some(p) => p,
            None => "default",
        };
        proof {
            reveal_strlit("default");
        }
        let ghost pk = pname@;
        assert(pk == match profile {
            Some(q) => q@,
            None => default_profile_name(),
        });
        let ghost ok = output_name@;
        match self.find(pname, output_name) {
            Some(i) => {
                let e = ProfileEntry {
                    profile: self.entries[i].profile.clone(),
                    output: self.entries[i].output.clone(),
                    config: output_config,
                };
                self.entries.set(i, e);
                assert forall|a: int, b: int|
                    0 <= a < b < self.entries@.len() implies !entry_is(
                    #[trigger] self.entries@[a],
                    #[trigger] self.entries@[b].profile@,
                    self.entries@[b].output@,
                ) by {
                    assert(!entry_is(pre.entries@[a], pre.entries@[b].profile@, pre.entries@[b].output@));
                }
                assert forall|a: int| 0 <= a < self.entries@.len() implies self.has_name(
                    #[trigger] self.entries@[a].profile@,
                ) by {
                    assert(pre.has_name(pre.entries@[a].profile@));
                }
                assert forall|a: int| 0 <= a < self.names@.len() implies exists|j: int|
                    0 <= j < self.entries@.len() && #[trigger] self.entries@[j].profile@
                        == #[trigger] self.names@[a]@ by {
                    let j = choose|j: int|
                        0 <= j < pre.entries@.len() && #[trigger] pre.entries@[j].profile@
                            == #[trigger] pre.names@[a]@;
                    assert(self.entries@[j].profile@ == self.names@[a]@);
                }
                assert forall|p: Seq<char>, o: Seq<char>|
                    #[trigger] self.lookup(p, o) == if p == pk && o == ok {
                        Some(new_cfg)
                    } else {
                        pre.lookup(p, o)
                    } by {
                    if p == pk && o == ok {
                        self.lemma_lookup_at(i as int);
                    } else if pre.has_key(p, o) {
                        let k = choose|k: int|
                            0 <= k < pre.entries@.len() && entry_is(#[trigger] pre.entries@[k], p, o);
                        pre.lemma_lookup_at(k);
                        assert(k != i);
                        assert(self.entries@[k] == pre.entries@[k]);
                        self.lemma_lookup_at(k);
                    } else {
                        assert forall|k: int| 0 <= k < self.entries@.len() implies !entry_is(
                            #[trigger] self.entries@[k],
                            p,
                            o,
                        ) by {
                            if k != i {
                                assert(self.entries@[k] == pre.entries@[k]);
                            }
                        }
                    }
                }
                assert forall|p: Seq<char>| #[trigger] self.has_name(p) == (pre.has_name(p) || p == pk) by {
                    assert(self.names@ == pre.names@);
                    if p == pk {
                        assert(pre.entries@[i as int].profile@ == pk);
                        assert(pre.has_name(pre.entries@[i as int].profile@));
                    }
                }
            },
            None => {
                let e = ProfileEntry {
                    profile: String::from_str(pname),
                    output: String::from_str(output_name),
                    config: output_config,
                };
                let known = self.has_profile_name(pname);
                if !known {
                    self.names.push(String::from_str(pname));
                }
                self.entries.push(e);
                let n = self.entries.len() - 1;
                assert forall|a: int, b: int|
                    0 <= a < b < self.entries@.len() implies !entry_is(
                    #[trigger] self.entries@[a],
                    #[trigger] self.entries@[b].profile@,
                    self.entries@[b].output@,
                ) by {
                    if b < n {
                        assert(!entry_is(pre.entries@[a], pre.entries@[b].profile@, pre.entries@[b].output@));
                    } else {
                        assert(!entry_is(pre.entries@[a], pk, ok));
                    }
                }
                assert forall|a: int, b: int|
                    0 <= a < b < self.names@.len() implies #[trigger] self.names@[a]@
                    != #[trigger] self.names@[b]@ by {
                    if b >= pre.names@.len() {
                        assert(pre.names@[a]@ != pk);
                    }
                }
                assert forall|a: int| 0 <= a < self.entries@.len() implies self.has_name(
                    #[trigger] self.entries@[a].profile@,
                ) by {
                    if a < n {
                        assert(pre.has_name(pre.entries@[a].profile@));
                        let j = choose|j: int| 0 <= j < pre.names@.len() && #[trigger] pre.names@[j]@ == pre.entries@[a].profile@;
                        assert(self.names@[j] == pre.names@[j]);
                    } else if known {
                        let j = choose|j: int| 0 <= j < pre.names@.len() && #[trigger] pre.names@[j]@ == pk;
                        assert(self.names@[j] == pre.names@[j]);
                    } else {
                        assert(self.names@[pre.names@.len() as int]@ == pk);
                    }
                }
                assert forall|a: int| 0 <= a < self.names@.len() implies exists|j: int|
                    0 <= j < self.entries@.len() && #[trigger] self.entries@[j].profile@
                        == #[trigger] self.names@[a]@ by {
                    if a < pre.names@.len() {
                        let j = choose|j: int|
                            0 <= j < pre.entries@.len() && #[trigger] pre.entries@[j].profile@
                                == #[trigger] pre.names@[a]@;
                        assert(self.entries@[j] == pre.entries@[j]);
                        assert(self.names@[a] == pre.names@[a]);
                    } else {
                        assert(self.entries@[n as int].profile@ == self.names@[a]@);
                    }
                }
                assert forall|p: Seq<char>, o: Seq<char>|
                    #[trigger] self.lookup(p, o) == if p == pk && o == ok {
                        Some(new_cfg)
                    } else {
                        pre.lookup(p, o)
                    } by {
                    if p == pk && o == ok {
                        self.lemma_lookup_at(n as int);
                    } else if pre.has_key(p, o) {
                        let k = choose|k: int|
                            0 <= k < pre.entries@.len() && entry_is(#[trigger] pre.entries@[k], p, o);
                        pre.lemma_lookup_at(k);
                        assert(self.entries@[k] == pre.entries@[k]);
                        self.lemma_lookup_at(k);
                    } else {
                        assert forall|k: int| 0 <= k < self.entries@.len() implies !entry_is(
                            #[trigger] self.entries@[k],
                            p,
                            o,
                        ) by {
                            if k < n {
                                assert(self.entries@[k] == pre.entries@[k]);
                            }
                        }
                    }
                }
                assert forall|p: Seq<char>| #[trigger] self.has_name(p) == (pre.has_name(p) || p == pk) by {
                    if pre.has_name(p) {
                        let j = choose|j: int| 0 <= j < pre.names@.len() && #[trigger] pre.names@[j]@ == p;
                        assert(self.names@[j] == pre.names@[j]);
                    }
                    if p == pk && !known {
                        assert(self.names@[pre.names@.len() as int]@ == pk);
                    }
                    if self.has_name(p) && !pre.has_name(p) {
                        let j = choose|j: int| 0 <= j < self.names@.len() && #[trigger] self.names@[j]@ == p;
                        if j < pre.names@.len() {
                            assert(self.names@[j] == pre.names@[j]);
                        }
                    }
                }
            },
        }
    }
}

/// The daemon's configuration.
#[derive(Clone, Debug)]
pub struct Config {
    pub default_profile: String,
    pub profiles: Profiles,
    pub reloaded: bool,
    pub path: Option<String>,
    pub transition: Option<TransitionConfig>,
    pub transitions_enabled: Option<bool>,
}

/// One top-level table of the configuration file: either a profile holding
/// per-output tables, or an output's table in the default profile.
#[derive(Debug)]
pub enum ProfileReader {
    Profile(Vec<(String, OutputConfig)>),
    Default(OutputConfig),
}

/// The configuration file as parsed, tables in file order.
#[derive(Debug)]
pub struct ConfigReader {
    pub default_profile: String,
    pub transition: Option<TransitionConfig>,
    pub transitions_enabled: Option<bool>,
    pub outputs: Vec<(String, ProfileReader)>,
}

/// The (profile, output, settings) triples a table stands for.
pub open spec fn table_entries(t: (String, ProfileReader), default: Seq<char>) -> Seq<(Seq<char>, Seq<char>, OutputConfigModel)> {
    match t.1 {
        ProfileReader::Profile(v) => v@.map_values(|e: (String, OutputConfig)| (t.0@, e.0@, e.1@)),
        ProfileReader::Default(c) => seq![(default, t.0@, c@)],
    }
}

/// The triples of all tables, in file order.
pub open spec fn reader_entries(tables: Seq<(String, ProfileReader)>, default: Seq<char>) -> Seq<(Seq<char>, Seq<char>, OutputConfigModel)>
    decreases tables.len(),
{
    if tables.len() == 0 {
        seq![]
    } else {
        reader_entries(tables.drop_last(), default) + table_entries(tables.last(), default)
    }
}

/// The settings of the last triple for (p, o): later tables override earlier ones.
pub open spec fn last_match(s: Seq<(Seq<char>, Seq<char>, OutputConfigModel)>, p: Seq<char>, o: Seq<char>) -> Option<OutputConfigModel>
    decreases s.len(),
{
    if s.len() == 0 {
        None
    } else if s.last().0 == p && s.last().1 == o {
        Some(s.last().2)
    } else {
        last_match(s.drop_last(), p, o)
    }
}

/// Some triple belongs to profile `p`.
pub open spec fn names_profile(s: Seq<(Seq<char>, Seq<char>, OutputConfigModel)>, p: Seq<char>) -> bool
    decreases s.len(),
{
    if s.len() == 0 {
        false
    } else {
        s.last().0 == p || names_profile(s.drop_last(), p)
    }
}

impl ConfigReader {
    /// Install the parsed file into `config`: the profiles rebuilt from the
    /// tables, later ones overriding earlier ones, and the global settings.
    pub fn merge_config(self, config: &mut Config)
        ensures
            final(config).wf(),
            forall|p: Seq<char>, o: Seq<char>| #[trigger] final(config).profiles.lookup(p, o)
                == last_match(reader_entries(self.outputs@, self.default_profile@), p, o),
            forall|p: Seq<char>| #[trigger] final(config).profiles.has_name(p)
                == names_profile(reader_entries(self.outputs@, self.default_profile@), p),
            final(config).default_profile@ == self.default_profile@,
            opt_transition_view(final(config).transition) == opt_transition_view(self.transition),
            final(config).transitions_enabled == self.transitions_enabled,
            final(config).reloaded == old(config).reloaded,
            final(config).path == old(config).path,
    {
        let ghost default = self.default_profile@;
        let ghost tables = self.outputs@;
        let mut profiles = Profiles::new();
        let mut i: usize = 0;
        while i < self.outputs.len()
            invariant
                profiles.wf(),
                i <= tables.len(),
                tables == self.outputs@,
                default == self.default_profile@,
                forall|p: Seq<char>, o: Seq<char>| #[trigger] profiles.lookup(p, o)
                    == last_match(reader_entries(tables.subrange(0, i as int), default), p, o),
                forall|p: Seq<char>| #[trigger] profiles.has_name(p)
                    == names_profile(reader_entries(tables.subrange(0, i as int), default), p),
            decreases tables.len() - i,
        {
            let ghost done = reader_entries(tables.subrange(0, i as int), default);
            proof {
                assert(tables.subrange(0, i as int + 1).drop_last() =~= tables.subrange(0, i as int));
                assert(tables.subrange(0, i as int + 1).last() == tables[i as int]);
            }
            let iden = &self.outputs[i].0;
            assert(tables[i as int].0@ == iden@);
            match &self.outputs[i].1 {
                ProfileReader::Profile(v) => {
                    let mut j: usize = 0;
                    while j < v.len()
                        invariant
                            profiles.wf(),
                            j <= v@.len(),
                            i < tables.len(),
                            tables[i as int].0@ == iden@,
                            (tables[i as int].1 matches ProfileReader::Profile(w) && w@ == v@),
                            forall|p: Seq<char>, o: Seq<char>| #[trigger] profiles.lookup(p, o)
                                == last_match(done + table_entries(tables[i as int], default).subrange(0, j as int), p, o),
                            forall|p: Seq<char>| #[trigger] profiles.has_name(p)
                                == names_profile(done + table_entries(tables[i as int], default).subrange(0, j as int), p),
                        decreases v@.len() - j,
                    {
                        let ghost te = table_entries(tables[i as int], default);
                        let ghost pre = done + te.subrange(0, j as int);
                        let ghost post = done + te.subrange(0, j as int + 1);
                        proof {
                            assert(post.drop_last() =~= pre);
                            assert(te[j as int] == (iden@, v@[j as int].0@, v@[j as int].1@));
                            assert(post.last() == te[j as int]);
                        }
                        profiles.insert(Some(iden.as_str()), v[j].0.as_str(), v[j].1.duplicate());
                        j = j + 1;
                    }
                    proof {
                        let te = table_entries(tables[i as int], default);
                        assert(te.subrange(0, v@.len() as int) =~= te);
                    }
                },
                ProfileReader::Default(c) => {
                    let ghost te = table_entries(tables[i as int], default);
                    proof {
                        assert((done + te).drop_last() =~= done);
                        assert((done + te).last() == (default, iden@, c@));
                    }
                    profiles.insert(Some(self.default_profile.as_str()), iden.as_str(), c.duplicate());
                },
            }
            i = i + 1;
        }
        assert(tables.subrange(0, tables.len() as int) =~= tables);
        config.profiles = profiles;
        config.default_profile = self.default_profile;
        config.transition = self.transition;
        config.transitions_enabled = self.transitions_enabled;
    }
}

impl Config {
    /// The configuration described by the parsed file.
    pub fn new(reader: ConfigReader) -> (r: Config)
        ensures
            r.wf(),
            forall|p: Seq<char>, o: Seq<char>| #[trigger] r.profiles.lookup(p, o)
                == last_match(reader_entries(reader.outputs@, reader.default_profile@), p, o),
            forall|p: Seq<char>| #[trigger] r.profiles.has_name(p)
                == names_profile(reader_entries(reader.outputs@, reader.default_profile@), p),
            r.default_profile@ == reader.default_profile@,
            opt_transition_view(r.transition) == opt_transition_view(reader.transition),
            r.transitions_enabled == reader.transitions_enabled,
            !r.reloaded,
            r.path is None,
    {
        let mut config = Config {
            default_profile: String::new(),
            profiles: Profiles::new(),
            reloaded: false,
            path: None,
            transition: None,
            transitions_enabled: None,
        };
        reader.merge_config(&mut config);
        config
    }

    pub open spec fn wf(&self) -> bool {
        self.profiles.wf()
    }

    /// A copy of the settings of `output_name` in `profile` (the default profile
    /// when `None`); `None` when there are none.
    pub fn get_output_config(&self, profile: Option<&str>, output_name: &str) -> (r: Option<OutputConfig>)
        requires
            self.wf(),
        ensures
            opt_output_view(r) == self.profiles.lookup(
                match profile {
                    Some(p) => p@,
                    None => default_profile_name(),
                },
                output_name@,
            ),
    {
        match self.profiles.get_config(profile, output_name) {
            Some(c) => Some(c.duplicate()),
            None => None,
        }
    }
}

} // verus!
