//! The daemon's state across outputs: adding and removing outputs, the first
//! configure, the frame callback, the periodic wake-up, profile switches and
//! the control commands.
use crate::config::{picked_from, transition_config_of, transitions_enabled_spec, opt_output_view, Config};
use crate::engine::{image_key_of, previous_key_of, GpuBackend, GpuCall, MetricsReport, RenderEngine, RenderError, TextureKeyModel, TextureLoadResult};
use crate::files::{command_line, get_img_list, is_image_path, ImageSource};
use crate::schedule::{next_index_spec, OutputRepr};
use crate::socket::{command_name_spec, OutputWallpaper, SocketCommand, SocketError, SocketOutput};
use crate::transition::{direction_vec, eased_spec, elapsed_ms, frame_due, kind_code, Fraction, TransitionData, TransitionTypeEnum};
use vstd::prelude::*;

verus! {

/// How often the cache counters go to the log, in completed frames.
pub const METRICS_EVERY: u64 = 100;

pub open spec fn changed_prefix() -> Seq<char> {
    "Changed profile to: "@
}

pub open spec fn toggled_one_prefix() -> Seq<char> {
    "Toggled visibility for output "@
}

pub open spec fn toggled_all_prefix() -> Seq<char> {
    "Toggled visibility for outputs "@
}

/// The texture of `key` is requested, decoded in the background, or being decoded.
pub open spec fn queued<G: GpuBackend>(e: RenderEngine<G>, key: (Seq<char>, u32, u32)) -> bool {
    e.image_keys().contains(key) || e.preloaded_keys().contains(key) || e.in_flight_keys().contains(key)
}

/// The outputs' names, separated by a comma and a space.
pub open spec fn joined_names(outs: Seq<OutputRepr>) -> Seq<char>
    decreases outs.len(),
{
    if outs.len() == 0 {
        seq![]
    } else if outs.len() == 1 {
        outs[0].output_name@
    } else {
        joined_names(outs.drop_last()) + seq![',', ' '] + outs.last().output_name@
    }
}

/// (name, image) of each output that shows an image, in order.
pub open spec fn wallpapers_of(outs: Seq<OutputRepr>) -> Seq<(Seq<char>, Seq<char>)>
    decreases outs.len(),
{
    if outs.len() == 0 {
        seq![]
    } else {
        match outs.last().current_spec() {
            Some(p) => wallpapers_of(outs.drop_last()).push((outs.last().output_name@, p)),
            None => wallpapers_of(outs.drop_last()),
        }
    }
}

/// Names of the outputs that show no image, in order.
pub open spec fn missing_of(outs: Seq<OutputRepr>) -> Seq<Seq<char>>
    decreases outs.len(),
{
    if outs.len() == 0 {
        seq![]
    } else {
        match outs.last().current_spec() {
            Some(p) => missing_of(outs.drop_last()),
            None => missing_of(outs.drop_last()).push(outs.last().output_name@),
        }
    }
}

pub open spec fn wall_views(v: Seq<OutputWallpaper>) -> Seq<(Seq<char>, Seq<char>)> {
    v.map_values(|w: OutputWallpaper| (w.output_name@, w.wallpaper@))
}

/// The outputs named by `NoCurrentImage` errors (anything else maps to an empty name).
pub open spec fn missing_views(v: Seq<SocketError>) -> Seq<Seq<char>> {
    v.map_values(|e: SocketError| match e {
        SocketError::NoCurrentImage { output } => output@,
        _ => seq!['?'],
    })
}

/// The daemon.
pub struct Wayper<G: GpuBackend, F: ImageSource> {
    pub current_profile: String,
    pub outputs: Vec<OutputRepr>,
    pub config: Config,
    pub socket_counter: u64,
    pub wgpu: RenderEngine<G>,
    pub files: F,
}

pub open spec fn names_unique(outputs: Seq<OutputRepr>) -> bool {
    forall|i: int, j: int|
        0 <= i < j < outputs.len() ==> #[trigger] outputs[i].output_name@ != #[trigger] outputs[j].output_name@
}

/// What the windowing layer does after a configure event.
#[derive(Debug, PartialEq, Eq)]
pub enum ConfigureOutcome {
    /// No output owns the surface.
    UnknownOutput,
    /// The output has no settings in the current profile; nothing is shown.
    NoConfig,
    /// The surface or the pipeline could not be set up.
    Failed(RenderError),
    /// First configure handled: request a frame, commit, and arm the periodic
    /// wake-up with this period.
    FirstConfigured { period_ms: u64 },
    /// The size changed.
    Resized,
    /// Nothing to do.
    Unchanged,
}

/// What the windowing layer does after a frame callback.
#[derive(Debug)]
pub struct FrameOutcome {
    /// An output owns the surface.
    pub found: bool,
    /// Ask for another frame callback.
    pub request_frame: bool,
    /// Commit the surface.
    pub commit: bool,
    /// The result of the draw, when one was attempted.
    pub rendered: Option<Result<(), RenderError>>,
    /// Command to run after the switch, already split and substituted.
    pub run_command: Option<Vec<String>>,
    /// Counters to log, every so many frames.
    pub metrics: Option<MetricsReport>,
    /// There was no image to show.
    pub missing_image: bool,
}

impl FrameOutcome {
    fn idle(found: bool) -> (r: Self)
        ensures
            r.found == found,
            r.request_frame == found,
            r.commit == found,
            r.rendered is None,
            r.run_command is None,
            r.metrics is None,
            !r.missing_image,
    {
        FrameOutcome {
            found,
            request_frame: found,
            commit: found,
            rendered: None,
            run_command: None,
            metrics: None,
            missing_image: false,
        }
    }
}

impl<G: GpuBackend, F: ImageSource> Wayper<G, F> {
    pub open spec fn wf(&self) -> bool {
        &&& self.config.wf()
        &&& self.wgpu.wf()
        &&& self.wgpu.surfaces_wf()
        &&& names_unique(self.outputs@)
        &&& forall|i: int| 0 <= i < self.outputs@.len() ==> (#[trigger] self.outputs@[i]).wf()
    }

    /// Position of the output called `name`.
    pub open spec fn output_index(&self, name: Seq<char>) -> Option<int> {
        if exists|i: int| 0 <= i < self.outputs@.len() && #[trigger] self.outputs@[i].output_name@ == name {
            Some(choose|i: int| 0 <= i < self.outputs@.len() && #[trigger] self.outputs@[i].output_name@ == name)
        } else {
            None
        }
    }

    /// A daemon with no outputs yet, on the configuration's default profile.
    pub fn new(config: Config, gpu: G, files: F) -> (r: Self)
        requires
            config.wf(),
        ensures
            r.wf(),
            r.outputs@.len() == 0,
            r.current_profile@ == config.default_profile@,
            r.wgpu.metrics == crate::engine::GpuMetrics::new_spec(),
            r.socket_counter == 0,
    {
        let current_profile = config.default_profile.clone();
        Wayper {
            current_profile,
            outputs: Vec::new(),
            config,
            socket_counter: 0,
            wgpu: RenderEngine::new(gpu),
            files,
        }
    }

    fn find_output(&self, name: &String) -> (r: Option<usize>)
        requires
            names_unique(self.outputs@),
        ensures
            match r {
                Some(i) => i < self.outputs@.len() && self.outputs@[i as int].output_name@ == name@
                    && self.output_index(name@) == Some(i as int),
                None => self.output_index(name@) is None,
            },
    {
        let mut i: usize = 0;
        while i < self.outputs.len()
            invariant
                names_unique(self.outputs@),
                i <= self.outputs@.len(),
                forall|j: int| 0 <= j < i ==> #[trigger] self.outputs@[j].output_name@ != name@,
            decreases self.outputs@.len() - i,
        {
            if self.outputs[i].output_name == *name {
                proof {
                    let k = choose|k: int| 0 <= k < self.outputs@.len() && #[trigger] self.outputs@[k].output_name@ == name@;
                    if k > i as int {
                        assert(self.outputs@[i as int].output_name@ != self.outputs@[k].output_name@);
                    }
                }
                return Some(i);
            }
            i = i + 1;
        }
        None
    }

    /// Whether an output of this name is known.
    pub fn contains_output(&self, name: &String) -> (r: bool)
        requires
            self.wf(),
        ensures
            r == (self.output_index(name@) is Some),
    {
        self.find_output(name).is_some()
    }

    /// Register a new output with its settings from the current profile and its
    /// image list; an output already known is left alone. Answers whether it
    /// was added.
    pub fn add_output(&mut self, output_name: String, now_ms: u64) -> (r: bool)
        requires
            old(self).wf(),
        ensures
            final(self).wf(),
            r == (old(self).output_index(output_name@) is None),
            !r ==> final(self).outputs@ == old(self).outputs@,
            r ==> final(self).outputs@.len() == old(self).outputs@.len() + 1
                && final(self).outputs@.drop_last() == old(self).outputs@
                && final(self).outputs@.last().output_name@ == output_name@
                && final(self).outputs@.last().index == 0
                && final(self).outputs@.last().first_configure
                && opt_output_view(final(self).outputs@.last().output_config)
                    == old(self).config.profiles.lookup(old(self).current_profile@, output_name@)
                && (final(self).outputs@.last().output_config is None ==> final(self).outputs@.last().img_list@.len() == 0)
                && (final(self).outputs@.last().output_config matches Some(c) ==> forall|k: int|
                    0 <= k < final(self).outputs@.last().img_list@.len() ==> #[trigger] final(self).outputs@.last().img_list@[k]@
                        == c.path@ || is_image_path(final(self).outputs@.last().img_list@[k]@)),
            final(self).config == old(self).config,
            final(self).current_profile == old(self).current_profile,
            final(self).wgpu == old(self).wgpu,
    {
        if self.find_output(&output_name).is_some() {
            return false;
        }
        let config = self.config.get_output_config(Some(self.current_profile.as_str()), output_name.as_str());
        let img_list = get_img_list(config.as_ref(), &mut self.files);
        let ghost before = self.outputs@;
        let ghost name = output_name@;
        let out = OutputRepr::new(output_name, config, img_list, now_ms);
        self.outputs.push(out);
        proof {
            assert(self.outputs@.drop_last() =~= before);
            assert forall|a: int, b: int| 0 <= a < b < self.outputs@.len() implies #[trigger] self.outputs@[a].output_name@ != #[trigger] self.outputs@[b].output_name@ by {
                if b == before.len() {
                    assert(before[a].output_name@ != name);
                }
            }
            assert forall|i: int| 0 <= i < self.outputs@.len() implies (#[trigger] self.outputs@[i]).wf() by {
                if i < before.len() {
                    assert(self.outputs@[i] == before[i]);
                }
            }
        }
        true
    }

    /// Forget an output; answers its state if it was known.
    pub fn remove_output(&mut self, output_name: &String) -> (r: Option<OutputRepr>)
        requires
            old(self).wf(),
        ensures
            final(self).wf(),
            r is Some == (old(self).output_index(output_name@) is Some),
            r is Some ==> final(self).outputs@ == old(self).outputs@.remove(old(self).output_index(output_name@)->0),
            r is None ==> final(self).outputs@ == old(self).outputs@,
            final(self).output_index(output_name@) is None,
            final(self).config == old(self).config,
            final(self).wgpu == old(self).wgpu,
    {
        match self.find_output(output_name) {
            None => None,
            Some(i) => {
                let ghost before = self.outputs@;
                let o = self.outputs.remove(i);
                proof {
                    assert forall|a: int, b: int| 0 <= a < b < self.outputs@.len() implies #[trigger] self.outputs@[a].output_name@ != #[trigger] self.outputs@[b].output_name@ by {
                        let a0 = if a < i { a } else { a + 1 };
                        let b0 = if b < i { b } else { b + 1 };
                        assert(self.outputs@[a] == before[a0]);
                        assert(self.outputs@[b] == before[b0]);
                    }
                    assert forall|k: int| 0 <= k < self.outputs@.len() implies (#[trigger] self.outputs@[k]).wf() by {
                        let k0 = if k < i { k } else { k + 1 };
                        assert(self.outputs@[k] == before[k0]);
                    }
                    if exists|k: int| 0 <= k < self.outputs@.len() && #[trigger] self.outputs@[k].output_name@ == output_name@ {
                        let k = choose|k: int| 0 <= k < self.outputs@.len() && #[trigger] self.outputs@[k].output_name@ == output_name@;
                        let k0 = if k < i { k } else { k + 1 };
                        assert(self.outputs@[k] == before[k0]);
                        if k0 < i {
                            assert(before[k0].output_name@ != before[i as int].output_name@);
                        } else {
                            assert(before[i as int].output_name@ != before[k0].output_name@);
                        }
                    }
                }
                Some(o)
            },
        }
    }

    /// Take the output at `i` out of the list; `put_output` puts it back.
    fn take_output(&mut self, i: usize) -> (r: OutputRepr)
        requires
            i < old(self).outputs@.len(),
        ensures
            r == old(self).outputs@[i as int],
            final(self).outputs@ == old(self).outputs@.remove(i as int),
            final(self).config == old(self).config,
            final(self).current_profile == old(self).current_profile,
            final(self).wgpu == old(self).wgpu,
            final(self).socket_counter == old(self).socket_counter,
    {
        self.outputs.remove(i)
    }

    fn put_output(&mut self, i: usize, o: OutputRepr)
        requires
            i <= old(self).outputs@.len(),
        ensures
            final(self).outputs@ == old(self).outputs@.insert(i as int, o),
            final(self).config == old(self).config,
            final(self).current_profile == old(self).current_profile,
            final(self).wgpu == old(self).wgpu,
            final(self).socket_counter == old(self).socket_counter,
    {
        self.outputs.insert(i, o);
    }

    /// The periodic wake-up (or a ping) of an output: the next frame callback
    /// advances to the next image. Answers whether the output is known.
    pub fn on_timer(&mut self, output_name: &String) -> (r: bool)
        requires
            old(self).wf(),
        ensures
            final(self).wf(),
            r == (old(self).output_index(output_name@) is Some),
            r ==> {
                let i = old(self).output_index(output_name@)->0;
                &&& final(self).outputs@.len() == old(self).outputs@.len()
                &&& final(self).outputs@[i].should_next
                &&& final(self).outputs@[i].index == old(self).outputs@[i].index
                &&& final(self).outputs@[i].img_list@ == old(self).outputs@[i].img_list@
                &&& final(self).outputs@[i].first_configure == old(self).outputs@[i].first_configure
                &&& forall|j: int| 0 <= j < old(self).outputs@.len() && j != i ==> final(self).outputs@[j] == old(self).outputs@[j]
            },
            !r ==> final(self).outputs@ == old(self).outputs@,
            final(self).config == old(self).config,
            final(self).wgpu == old(self).wgpu,
    {
        match self.find_output(output_name) {
            None => false,
            Some(i) => {
                let ghost before = self.outputs@;
                let mut o = self.take_output(i);
                o.should_next = true;
                self.put_output(i, o);
                proof {
                    assert(self.outputs@ =~= before.update(i as int, o));
                    self.lemma_update_keeps_wf(before, i as int);
                }
                true
            },
        }
    }

    /// Switch every output to `profile` (the default profile when `None`):
    /// each output takes its settings in that profile, a fresh image list and
    /// the first image, and advances on the next frame once its wake-up is
    /// armed. An output without settings there gets none and an empty list, so
    /// it shows nothing new; the others switch all the same. An unknown profile
    /// is refused with `NoProfile` and changes nothing; the active one changes
    /// nothing either.
    pub fn change_profile(&mut self, profile: Option<String>) -> (r: Result<String, SocketError>)
        requires
            old(self).wf(),
        ensures
            final(self).wf(),
            final(self).config == old(self).config,
            final(self).wgpu == old(self).wgpu,
            final(self).socket_counter == old(self).socket_counter,
            ({
                let name = match profile {
                    Some(p) => p@,
                    None => old(self).config.default_profile@,
                };
                &&& !old(self).config.profiles.has_name(name) ==> {
                    &&& r matches Err(SocketError::NoProfile(p)) && p@ == name
                    &&& final(self).outputs@ == old(self).outputs@
                    &&& final(self).current_profile == old(self).current_profile
                }
                &&& old(self).config.profiles.has_name(name) ==> {
                    &&& r matches Ok(p) && p@ == name
                    &&& final(self).current_profile@ == name
                }
                &&& old(self).config.profiles.has_name(name) && name == old(self).current_profile@
                    ==> final(self).outputs@ == old(self).outputs@
                &&& old(self).config.profiles.has_name(name) && name != old(self).current_profile@ ==> {
                    &&& final(self).outputs@.len() == old(self).outputs@.len()
                    &&& forall|i: int| 0 <= i < final(self).outputs@.len() ==> {
                        let o = old(self).outputs@[i];
                        let o2 = #[trigger] final(self).outputs@[i];
                        &&& o2.output_name == o.output_name
                        &&& o2.index == 0
                        &&& opt_output_view(o2.output_config) == old(self).config.profiles.lookup(name, o.output_name@)
                        &&& o2.output_config is None ==> o2.img_list@.len() == 0
                        &&& o2.output_config matches Some(c) ==> forall|k: int|
                            0 <= k < o2.img_list@.len() ==> #[trigger] o2.img_list@[k]@ == c.path@ || is_image_path(o2.img_list@[k]@)
                        &&& o2.should_next == (o.should_next || o.timer_armed)
                        &&& o2.first_configure == o.first_configure
                        &&& o2.timer_armed == o.timer_armed
                        &&& o2.transition == o.transition
                    }
                }
            }),
    {
        let ghost wanted = match &profile {
            Some(p) => p@,
            None => self.config.default_profile@,
        };
        let target = match profile {
            Some(p) => p,
            None => self.config.default_profile.clone(),
        };
        assert(target@ == wanted);
        if !self.config.profiles.has_profile_name(target.as_str()) {
            return Err(SocketError::NoProfile(target));
        }
        if target == self.current_profile {
            return Ok(target);
        }
        self.current_profile = target.clone();
        let n = self.outputs.len();
        let mut i: usize = 0;
        while i < n
            invariant
                self.wf(),
                n == self.outputs@.len(),
                n == old(self).outputs@.len(),
                i <= n,
                self.config == old(self).config,
                self.wgpu == old(self).wgpu,
                self.current_profile@ == target@,
                target@ == wanted,
                self.socket_counter == old(self).socket_counter,
                forall|k: int| i <= k < n ==> #[trigger] self.outputs@[k] == old(self).outputs@[k],
                forall|k: int| 0 <= k < i ==> {
                    let o = old(self).outputs@[k];
                    let o2 = #[trigger] self.outputs@[k];
                    &&& o2.output_name == o.output_name
                    &&& o2.index == 0
                    &&& opt_output_view(o2.output_config) == old(self).config.profiles.lookup(wanted, o.output_name@)
                    &&& o2.output_config is None ==> o2.img_list@.len() == 0
                    &&& o2.output_config matches Some(c) ==> forall|m: int|
                        0 <= m < o2.img_list@.len() ==> #[trigger] o2.img_list@[m]@ == c.path@ || is_image_path(o2.img_list@[m]@)
                    &&& o2.should_next == (o.should_next || o.timer_armed)
                    &&& o2.first_configure == o.first_configure
                    &&& o2.timer_armed == o.timer_armed
                    &&& o2.transition == o.transition
                },
            decreases n - i,
        {
            let cfg = self.config.get_output_config(Some(target.as_str()), self.outputs[i].output_name.as_str());
            let ghost before = self.outputs@;
            let mut o = self.take_output(i);
            o.img_list = get_img_list(cfg.as_ref(), &mut self.files);
            o.index = 0;
            o.output_config = cfg;
            if o.timer_armed {
                o.should_next = true;
            }
            self.put_output(i, o);
            proof {
                assert(self.outputs@ =~= before.update(i as int, o));
                self.lemma_update_keeps_wf(before, i as int);
                assert forall|k: int| i + 1 <= k < n implies #[trigger] self.outputs@[k] == old(self).outputs@[k] by {
                    assert(self.outputs@[k] == before[k]);
                }
            }
            i = i + 1;
        }
        Ok(target)
    }

    /// Answer one control command. The reply ends with `End` naming the
    /// command, and no earlier record is an `End`.
    pub fn handle_command(&mut self, socket_command: SocketCommand) -> (r: Vec<SocketOutput>)
        requires
            old(self).wf(),
        ensures
            final(self).wf(),
            r@.len() >= 2,
            r@.last() matches SocketOutput::End(n) && n@ == command_name_spec(socket_command),
            forall|j: int| 0 <= j < r@.len() - 1 ==> !(#[trigger] r@[j] is End),
            final(self).socket_counter == crate::engine::bump(old(self).socket_counter),
            final(self).wgpu == old(self).wgpu,
            socket_command is Ping ==> r@.len() == 2 && (r@[0] matches SocketOutput::Message(m)
                && m@ == seq!['p', 'o', 'n', 'g']),
            socket_command is GpuMetrics ==> r@.len() == 2 && r@[0] == SocketOutput::GpuMetrics(
                old(self).wgpu.get_metrics_data_spec(),
            ),
            socket_command is Profiles ==> r@.len() == 2 && (r@[0] matches SocketOutput::Profiles(v)
                && v@ == old(self).config.profiles.names@),
            (socket_command is Hide || socket_command is Show) ==> r@.len() == 2
                && (r@[0] matches SocketOutput::SingleError(SocketError::CommandUnimplemented { command })
                && command@ == command_name_spec(socket_command)),
            socket_command matches SocketCommand::ChangeProfile { profile_name } ==> {
                let name = match profile_name {
                    Some(p) => p@,
                    None => old(self).config.default_profile@,
                };
                &&& r@.len() == 2
                &&& !old(self).config.profiles.has_name(name) ==> {
                    &&& r@[0] matches SocketOutput::SingleError(SocketError::NoProfile(p)) && p@ == name
                    &&& final(self).outputs@ == old(self).outputs@
                    &&& final(self).current_profile == old(self).current_profile
                }
                &&& old(self).config.profiles.has_name(name) ==> {
                    &&& r@[0] matches SocketOutput::Message(m) && m@ == changed_prefix() + name
                    &&& final(self).current_profile@ == name
                }
            },
            socket_command matches SocketCommand::Current { output_name: Some(n) } ==> r@.len() == 2 && match old(self).output_index(n@) {
                None => r@[0] matches SocketOutput::SingleError(SocketError::UnindentifiedOutput { output_name }) && output_name@ == n@,
                Some(i) => match old(self).outputs@[i].current_spec() {
                    Some(p) => r@[0] matches SocketOutput::CurrentWallpaper(w) && w.output_name@ == n@ && w.wallpaper@ == p,
                    None => r@[0] matches SocketOutput::SingleError(SocketError::NoCurrentImage { output }) && output@ == n@,
                },
            },
            socket_command matches SocketCommand::Current { output_name: None } ==> r@.len() == 3
                && (r@[0] matches SocketOutput::Wallpapers(w) && wall_views(w@) == wallpapers_of(old(self).outputs@))
                && (r@[1] matches SocketOutput::MultipleErrors(e) && missing_views(e@) == missing_of(old(self).outputs@)),
            socket_command matches SocketCommand::Toggle { output_name: Some(n) } ==> r@.len() == 2 && match old(self).output_index(n@) {
                None => r@[0] matches SocketOutput::SingleError(SocketError::UnindentifiedOutput { output_name }) && output_name@ == n@,
                Some(i) => r@[0] matches SocketOutput::Message(m) && m@ == toggled_one_prefix() + n@,
            },
            socket_command matches SocketCommand::Toggle { output_name: None } ==> r@.len() == 2
                && (r@[0] matches SocketOutput::Message(m) && m@ == toggled_all_prefix() + joined_names(old(self).outputs@)),
            !(socket_command is ChangeProfile || socket_command is Toggle) ==> final(self).outputs@ == old(self).outputs@,
            socket_command is Toggle ==> final(self).outputs@.len() == old(self).outputs@.len()
                && forall|j: int| 0 <= j < old(self).outputs@.len() ==> {
                    &&& (#[trigger] final(self).outputs@[j]).index == old(self).outputs@[j].index
                    &&& final(self).outputs@[j].output_name == old(self).outputs@[j].output_name
                    &&& final(self).outputs@[j].img_list@ == old(self).outputs@[j].img_list@
                    &&& final(self).outputs@[j].visible == (if (match socket_command {
                        SocketCommand::Toggle { output_name: Some(n) } => old(self).output_index(n@) == Some(j),
                        _ => true,
                    }) {
                        !old(self).outputs@[j].visible
                    } else {
                        old(self).outputs@[j].visible
                    })
                },
    {
        self.socket_counter = crate::engine::inc_counter(self.socket_counter);
        let command_name = socket_command.name();
        let mut replies: Vec<SocketOutput> = Vec::new();
        match socket_command {
            SocketCommand::Ping => {
                proof {
                    reveal_strlit("pong");
                }
                replies.push(SocketOutput::Message(String::from_str("pong")));
            },
            SocketCommand::Current { output_name } => {
                match output_name {
                    Some(name) => {
                        match self.find_output(&name) {
                            Some(i) => {
                                match self.outputs[i].current_img() {
                                    Some(p) => replies.push(SocketOutput::CurrentWallpaper(OutputWallpaper { output_name: name, wallpaper: p })),
                                    None => replies.push(SocketOutput::SingleError(SocketError::NoCurrentImage { output: name })),
                                }
                            },
                            None => replies.push(SocketOutput::SingleError(SocketError::UnindentifiedOutput { output_name: name })),
                        }
                    },
                    None => {
                        let (walls, errors) = self.current_all();
                        replies.push(SocketOutput::Wallpapers(walls));
                        replies.push(SocketOutput::MultipleErrors(errors));
                    },
                }
            },
            SocketCommand::Toggle { output_name } => {
                match output_name {
                    Some(name) => {
                        match self.find_output(&name) {
                            Some(i) => {
                                let ghost before = self.outputs@;
                                let mut o = self.take_output(i);
                                o.toggle_visible();
                                proof {
                                    reveal_strlit("Toggled visibility for output ");
                                }
                                let msg = String::from_str("Toggled visibility for output ").concat(o.output_name.as_str());
                                self.put_output(i, o);
                                proof {
                                    assert(self.outputs@ =~= before.update(i as int, o));
                                    self.lemma_update_keeps_wf(before, i as int);
                                }
                                replies.push(SocketOutput::Message(msg));
                            },
                            None => replies.push(SocketOutput::SingleError(SocketError::UnindentifiedOutput { output_name: name })),
                        }
                    },
                    None => {
                        let names = self.toggle_all();
                        proof {
                            reveal_strlit("Toggled visibility for outputs ");
                        }
                        let msg = String::from_str("Toggled visibility for outputs ").concat(names.as_str());
                        replies.push(SocketOutput::Message(msg));
                    },
                }
            },
            SocketCommand::ChangeProfile { profile_name } => {
                let fallback = match &profile_name {
                    Some(p) => p.clone(),
                    None => self.config.default_profile.clone(),
                };
                match self.change_profile(profile_name) {
                    Ok(p) => {
                        proof {
                            reveal_strlit("Changed profile to: ");
                        }
                        let msg = String::from_str("Changed profile to: ").concat(p.as_str());
                        replies.push(SocketOutput::Message(msg));
                    },
                    Err(_) => replies.push(SocketOutput::SingleError(SocketError::NoProfile(fallback))),
                }
            },
            SocketCommand::Profiles => {
                replies.push(SocketOutput::Profiles(self.config.profiles.profiles()));
            },
            SocketCommand::GpuMetrics => {
                replies.push(SocketOutput::GpuMetrics(self.wgpu.get_metrics_data()));
            },
            SocketCommand::Hide { .. } => {
                let c = command_name.clone();
                replies.push(SocketOutput::SingleError(SocketError::CommandUnimplemented { command: c }));
            },
            SocketCommand::Show { .. } => {
                let c = command_name.clone();
                replies.push(SocketOutput::SingleError(SocketError::CommandUnimplemented { command: c }));
            },
        }
        let ghost body = replies@;
        replies.push(SocketOutput::End(command_name));
        assert(replies@.drop_last() =~= body);
        replies
    }

    /// Milliseconds in `secs` seconds, saturating.
    fn secs_to_ms(secs: u64) -> (r: u64)
        ensures
            r == if secs * 1000 <= u64::MAX { (secs * 1000) as u64 } else { u64::MAX },
    {
        if secs <= u64::MAX / 1000 {
            secs * 1000
        } else {
            u64::MAX
        }
    }

    /// Ask the decode worker for the image `offset` places after the one on
    /// screen, wrapping around the list.
    fn preload(&mut self, o: &OutputRepr, offset: usize, size: (u32, u32))
        requires
            old(self).wgpu.wf(),
            o.wf(),
        ensures
            final(self).wgpu.wf(),
            o.img_list@.len() > 0 ==> queued(
                final(self).wgpu,
                image_key_of(o.img_list@[(o.current_index_spec() + offset) % (o.img_list@.len() as int)]@, size),
            ),
            old(self).wgpu.in_flight_keys().subset_of(final(self).wgpu.in_flight_keys()),
            final(self).wgpu.texture_cache@ == old(self).wgpu.texture_cache@,
            final(self).wgpu.preloaded@ == old(self).wgpu.preloaded@,
            final(self).wgpu.blank_cache@ == old(self).wgpu.blank_cache@,
            final(self).wgpu.bind_group_cache@ == old(self).wgpu.bind_group_cache@,
            final(self).wgpu.metrics == old(self).wgpu.metrics,
            final(self).wgpu.gpu_log == old(self).wgpu.gpu_log,
            final(self).wgpu.surfaces@ == old(self).wgpu.surfaces@,
            final(self).wgpu.pipeline_ready == old(self).wgpu.pipeline_ready,
            final(self).outputs@ == old(self).outputs@,
            final(self).config == old(self).config,
            final(self).current_profile == old(self).current_profile,
            final(self).socket_counter == old(self).socket_counter,
    {
        let n = o.img_list.len();
        if n > 0 {
            let start: usize = if o.first_configure {
                0
            } else {
                o.index
            };
            let k = ((start as u128 + offset as u128) % (n as u128)) as usize;
            self.wgpu.request_texture_load(&o.img_list[k], size, o.output_name.clone());
        }
    }

    /// A configure event for the output's surface with its new size. The
    /// first one sizes the surface, builds the pipeline, queues decodes of the
    /// current image and the two after it, and starts the first transition
    /// (instant when transitions are disabled); the caller then arms the
    /// periodic wake-up. Later ones record a size change.
    pub fn configure(&mut self, output_name: &String, size: (u32, u32), now_ms: u64) -> (r: ConfigureOutcome)
        requires
            old(self).wf(),
        ensures
            final(self).wf(),
            final(self).config == old(self).config,
            final(self).outputs@.len() == old(self).outputs@.len(),
            old(self).output_index(output_name@) is None ==> r == ConfigureOutcome::UnknownOutput
                && final(self).outputs@ == old(self).outputs@,
            old(self).output_index(output_name@) matches Some(i) ==> {
                let o = old(self).outputs@[i];
                let o2 = final(self).outputs@[i];
                &&& forall|j: int| 0 <= j < old(self).outputs@.len() && j != i ==> final(self).outputs@[j] == old(self).outputs@[j]
                &&& o2.index == o.index
                &&& o2.img_list@ == o.img_list@
                &&& o2.first_configure == o.first_configure
                &&& o.output_config is None ==> r == ConfigureOutcome::NoConfig && o2 == o
                &&& o.output_config is Some && o.first_configure ==> {
                    let c = o.output_config->0;
                    &&& o2.dimensions == Some(size)
                    &&& (r is FirstConfigured || r is Failed)
                    &&& r matches ConfigureOutcome::FirstConfigured { period_ms } ==> {
                        &&& period_ms == if c.duration.unwrap_or(60) * 1000 <= u64::MAX {
                            (c.duration.unwrap_or(60) * 1000) as u64
                        } else {
                            u64::MAX
                        }
                        &&& o2.timer_armed
                        &&& final(self).wgpu.surface_size(output_name@) == Some(size)
                        &&& final(self).wgpu.pipeline_ready
                        &&& o2.transition is Some
                        &&& o2.transition->0.start_time is None
                        &&& o2.transition->0.last_frame_time == now_ms
                        &&& transitions_enabled_spec(c, old(self).config) ==> {
                            let t = o2.transition->0;
                            match transition_config_of(c, old(self).config) {
                                Some(tc) => t.duration_ms == tc.duration_ms && t.target_fps == tc.fps
                                    && picked_from(tc.transition_type, t.transition_type)
                                    && (t.direction.0 as int, t.direction.1 as int) == direction_vec(tc.sweep.direction),
                                None => t.duration_ms == 2000 && t.target_fps == 30
                                    && t.transition_type == TransitionTypeEnum::Crossfade
                                    && (t.direction.0 as int, t.direction.1 as int) == direction_vec(crate::transition::Direction::LeftToRight),
                            }
                        }
                        &&& !transitions_enabled_spec(c, old(self).config) ==> {
                            let t = o2.transition->0;
                            t.duration_ms == 1 && t.target_fps == 60 && t.transition_type == TransitionTypeEnum::Crossfade
                                && t.direction == (0i32, 0i32)
                        }
                        &&& o.img_list@.len() > 0 ==> forall|k: int| 0 <= k < 3 ==> #[trigger] queued(
                            final(self).wgpu,
                            image_key_of(o.img_list@[(o.current_index_spec() + k) % (o.img_list@.len() as int)]@, size),
                        )
                    }
                }
                &&& o.output_config is Some && !o.first_configure && o.dimensions != Some(size) ==> r == ConfigureOutcome::Resized
                    && o2.dimensions == Some(size)
                &&& o.output_config is Some && !o.first_configure && o.dimensions == Some(size) ==> r == ConfigureOutcome::Unchanged
                    && o2 == o
            },
    {
        let i = match self.find_output(output_name) {
            Some(i) => i,
            None => {
                return ConfigureOutcome::UnknownOutput;
            },
        };
        let ghost before = self.outputs@;
        let mut o = self.take_output(i);
        let outcome = match &o.output_config {
            None => ConfigureOutcome::NoConfig,
            Some(c) => {
                if o.first_configure {
                    let duration_secs = match c.duration {
                        Some(d) => d,
                        None => 60,
                    };
                    let enabled = c.is_transitions_enabled(&self.config);
                    let (duration_ms, fps, kind, direction) = if enabled {
                        (
                            c.get_transition_duration(&self.config),
                            c.get_transition_fps(&self.config),
                            c.get_transition_type(&self.config),
                            c.get_transition_direction(&self.config).as_vec2(),
                        )
                    } else {
                        (1, 60, TransitionTypeEnum::Crossfade, (0, 0))
                    };
                    o.dimensions = Some(size);
                    match self.wgpu.configure_surface(output_name, size) {
                        Err(e) => ConfigureOutcome::Failed(e),
                        Ok(format) => match self.wgpu.init_image_pipeline(format) {
                            Err(e) => ConfigureOutcome::Failed(e),
                            Ok(()) => {
                                let ghost w0 = self.wgpu;
                                self.preload(&o, 0, size);
                                let ghost w1 = self.wgpu;
                                self.preload(&o, 1, size);
                                let ghost w2 = self.wgpu;
                                self.preload(&o, 2, size);
                                proof {
                                    let n = o.img_list@.len() as int;
                                    if n > 0 {
                                        let k0 = image_key_of(o.img_list@[(o.current_index_spec() + 0) % n]@, size);
                                        let k1 = image_key_of(o.img_list@[(o.current_index_spec() + 1) % n]@, size);
                                        assert(queued(w1, k0));
                                        assert(w1.in_flight_keys().contains(k0) ==> w2.in_flight_keys().contains(k0));
                                        assert(queued(w2, k0));
                                        assert(queued(w2, k1));
                                        assert forall|k: int| 0 <= k < 3 implies #[trigger] queued(
                                            self.wgpu,
                                            image_key_of(o.img_list@[(o.current_index_spec() + k) % n]@, size),
                                        ) by {
                                            let kk = image_key_of(o.img_list@[(o.current_index_spec() + k) % n]@, size);
                                            assert(w2.in_flight_keys().contains(kk) ==> self.wgpu.in_flight_keys().contains(kk));
                                        }
                                    }
                                }
                                o.transition = Some(TransitionData::new(kind, duration_ms, fps, direction, now_ms));
                                o.timer_armed = true;
                                ConfigureOutcome::FirstConfigured { period_ms: Self::secs_to_ms(duration_secs) }
                            },
                        },
                    }
                } else if o.dimensions != Some(size) {
                    o.dimensions = Some(size);
                    ConfigureOutcome::Resized
                } else {
                    ConfigureOutcome::Unchanged
                }
            },
        };
        self.put_output(i, o);
        proof {
            assert(self.outputs@ =~= before.update(i as int, o));
            self.lemma_update_keeps_wf(before, i as int);
        }
        outcome
    }

    /// A frame callback for the output's surface, after taking what the
    /// decode worker finished. A running transition is started on its first
    /// frame, throttled to its frame rate, drawn at its eased progress from the
    /// previous to the current image, and dropped once complete. Otherwise,
    /// when an advance is due, the output moves to its next image: with
    /// transitions enabled a transition starts, else the image is drawn at
    /// once and the post-switch command, if any, is prepared; the image after
    /// it is queued for decoding. Another frame is asked for while a
    /// transition runs or a decode is in flight.
    #[verifier::rlimit(100)]
    pub fn frame(&mut self, output_name: &String, loaded: Vec<TextureLoadResult>, now_ms: u64) -> (r: FrameOutcome)
        requires
            old(self).wf(),
        ensures
            final(self).wf(),
            final(self).config == old(self).config,
            final(self).outputs@.len() == old(self).outputs@.len(),
            old(self).wgpu.image_keys().subset_of(final(self).wgpu.image_keys()),
            old(self).output_index(output_name@) is None ==> !r.found && final(self).outputs@ == old(self).outputs@,
            old(self).output_index(output_name@) matches Some(i) ==> {
                let o = old(self).outputs@[i];
                let o2 = final(self).outputs@[i];
                let size = old(self).wgpu.surface_size(output_name@)->0;
                let log = final(self).wgpu.gpu_log@;
                &&& r.found
                &&& forall|j: int| 0 <= j < old(self).outputs@.len() && j != i ==> final(self).outputs@[j] == old(self).outputs@[j]
                &&& o2.img_list@ == o.img_list@
                &&& o2.output_name == o.output_name
                &&& opt_output_view(o2.output_config) == opt_output_view(o.output_config)
                // a running transition
                &&& o.transition matches Some(t) ==> {
                    let start = Some(match t.start_time {
                        Some(x) => x,
                        None => now_ms,
                    });
                    &&& o2.index == o.index
                    &&& o2.should_next == o.should_next
                    &&& !frame_due(t.last_frame_time, t.target_fps, now_ms) ==> {
                        &&& r.request_frame && r.commit && r.rendered is None
                        &&& o2.frame_count == o.frame_count
                        &&& o2.first_configure == o.first_configure
                        &&& o2.transition is Some
                        &&& o2.transition->0.start_time == start
                        &&& o2.transition->0.last_frame_time == t.last_frame_time
                    }
                    &&& frame_due(t.last_frame_time, t.target_fps, now_ms) && o.current_spec() is None ==> {
                        &&& r.missing_image && !r.request_frame && !r.commit && r.rendered is None
                        &&& o2.transition is Some
                    }
                    &&& frame_due(t.last_frame_time, t.target_fps, now_ms) && o.current_spec() is Some ==> {
                        &&& r.rendered is Some && r.request_frame && r.commit
                        &&& r.rendered == Some(Ok::<(), RenderError>(())) ==> {
                            &&& log.len() >= 2
                            &&& log[log.len() - 2] == GpuCall::WriteParams(
                                eased_spec(start, t.duration_ms, now_ms),
                                kind_code(t.transition_type),
                                t.direction,
                            )
                            &&& log[log.len() - 1] == GpuCall::Draw(
                                output_name@,
                                previous_key_of(o.previous_spec(), size),
                                TextureKeyModel::Image(image_key_of(o.current_spec()->0, size)),
                            )
                        }
                        &&& elapsed_ms(start->0, now_ms) >= t.duration_ms ==> {
                            &&& o2.transition is None
                            &&& !o2.first_configure
                            &&& o2.frame_count == crate::engine::bump(o.frame_count)
                            &&& o2.last_render_instant == now_ms
                        }
                        &&& elapsed_ms(start->0, now_ms) < t.duration_ms ==> {
                            &&& o2.transition is Some
                            &&& o2.transition->0.start_time == start
                            &&& o2.transition->0.last_frame_time == now_ms
                            &&& o2.first_configure == o.first_configure
                            &&& o2.frame_count == o.frame_count
                        }
                    }
                }
                // an advance
                &&& o.transition is None && o.should_next && o.img_list@.len() > 0 ==> {
                    let enabled = o.output_config is Some && transitions_enabled_spec(o.output_config->0, old(self).config);
                    &&& o2.index == next_index_spec(o.first_configure, o.index as int, o.img_list@.len() as int)
                    &&& !o2.should_next
                    &&& o2.first_configure == o.first_configure
                    &&& r.commit
                    &&& enabled ==> o2.transition is Some && o2.transition->0.start_time is None
                        && o2.transition->0.last_frame_time == now_ms
                        && r.request_frame && r.rendered is None && r.run_command is None
                    &&& !enabled ==> {
                        &&& o2.transition is None
                        &&& r.rendered is Some
                        &&& o2.frame_count == crate::engine::bump(o.frame_count)
                        &&& o2.last_render_instant == now_ms
                        &&& r.request_frame == (final(self).wgpu.in_flight@.len() > 0)
                        &&& r.run_command is Some ==> (r.rendered is Some && r.rendered->0 is Ok)
                        &&& r.rendered == Some(Ok::<(), RenderError>(())) ==> {
                            &&& log.len() >= 2
                            &&& log[log.len() - 2] == GpuCall::WriteParams(Fraction { num: 1, den: 1 }, 0, (0i32, 0i32))
                            &&& log[log.len() - 1] == GpuCall::Draw(
                                output_name@,
                                previous_key_of(o2.previous_spec(), size),
                                TextureKeyModel::Image(image_key_of(o2.current_spec()->0, size)),
                            )
                        }
                    }
                    &&& o.dimensions matches Some(d) ==> queued(
                        final(self).wgpu,
                        image_key_of(
                            o.img_list@[next_index_spec(o2.first_configure, o2.index as int, o.img_list@.len() as int)]@,
                            d,
                        ),
                    )
                }
                // nothing to do
                &&& o.transition is None && !o.should_next ==> o2 == o && r.rendered is None && r.commit
                    && r.request_frame == (final(self).wgpu.in_flight@.len() > 0)
            },
    {
        self.wgpu.process_loaded_textures(loaded);
        let i = match self.find_output(output_name) {
            Some(i) => i,
            None => {
                return FrameOutcome::idle(false);
            },
        };
        let ghost before = self.outputs@;
        let ghost keys0 = self.wgpu.image_keys();
        let mut o = self.take_output(i);
        let mut outcome = FrameOutcome::idle(true);
        outcome.request_frame = self.wgpu.in_flight.len() > 0;
        let mut slot: Option<TransitionData> = None;
        std::mem::swap(&mut slot, &mut o.transition);
        match slot {
            Some(mut t) => {
                t.start(now_ms);
                outcome.request_frame = true;
                if !t.should_render_frame(now_ms) {
                    o.transition = Some(t);
                } else {
                    let eased = t.eased_progress(now_ms);
                    let kind = t.transition_type.to_u32();
                    let complete = t.is_complete(now_ms);
                    let previous = o.previous_img();
                    match o.current_img() {
                        None => {
                            o.transition = Some(t);
                            outcome.request_frame = false;
                            outcome.commit = false;
                            outcome.missing_image = true;
                        },
                        Some(current) => {
                            let res = self.wgpu.render_frame(&o.output_name, previous.as_ref(), &current, eased, kind, t.direction);
                            outcome.rendered = Some(res);
                            if complete {
                                o.last_render_instant = now_ms;
                                o.frame_count = crate::engine::inc_counter(o.frame_count);
                                if o.frame_count % METRICS_EVERY == 0 {
                                    outcome.metrics = Some(self.wgpu.log_gpu_metrics());
                                }
                                o.first_configure = false;
                            } else {
                                o.transition = Some(t);
                            }
                        },
                    }
                }
            },
            None => {
                if o.should_next {
                    if o.img_list.len() == 0 {
                        outcome.request_frame = false;
                        outcome.missing_image = true;
                    } else {
                        o.next();
                        let animate = match &o.output_config {
                            Some(c) => c.is_transitions_enabled(&self.config),
                            None => false,
                        };
                        match o.current_img() {
                            None => {
                                outcome.missing_image = true;
                                outcome.request_frame = false;
                                outcome.commit = false;
                            },
                            Some(image) => {
                                if animate {
                                    match &o.output_config {
                                        Some(c) => {
                                            let duration_ms = c.get_transition_duration(&self.config);
                                            let fps = c.get_transition_fps(&self.config);
                                            let kind = c.get_transition_type(&self.config);
                                            let direction = c.get_transition_direction(&self.config).as_vec2();
                                            o.transition = Some(TransitionData::new(kind, duration_ms, fps, direction, now_ms));
                                        },
                                        None => {},
                                    }
                                    outcome.request_frame = true;
                                } else {
                                    let previous = o.previous_img();
                                    let res = self.wgpu.render_frame(
                                        &o.output_name,
                                        previous.as_ref(),
                                        &image,
                                        Fraction { num: 1, den: 1 },
                                        0,
                                        (0, 0),
                                    );
                                    let ok = res.is_ok();
                                    outcome.rendered = Some(res);
                                    o.last_render_instant = now_ms;
                                    o.frame_count = crate::engine::inc_counter(o.frame_count);
                                    if o.frame_count % METRICS_EVERY == 0 {
                                        outcome.metrics = Some(self.wgpu.log_gpu_metrics());
                                    }
                                    if ok {
                                        match &o.output_config {
                                            Some(c) => match &c.run_command {
                                                Some(cmd) => {
                                                    outcome.run_command = Some(command_line(cmd, &image));
                                                },
                                                None => {},
                                            },
                                            None => {},
                                        }
                                    }
                                }
                            },
                        }
                        o.should_next = false;
                        match o.dimensions {
                            Some(dims) => {
                                let next_image = o.peek_next_img();
                                self.wgpu.request_texture_load(&next_image, dims, o.output_name.clone());
                            },
                            None => {},
                        }
                        if !animate && !outcome.missing_image {
                            outcome.request_frame = self.wgpu.in_flight.len() > 0;
                        }
                    }
                }
            },
        }
        self.put_output(i, o);
        proof {
            assert(self.outputs@ =~= before.update(i as int, o));
            self.lemma_update_keeps_wf(before, i as int);
        }
        outcome
    }

    /// The image each output shows, and a `NoCurrentImage` for each that shows none.
    fn current_all(&self) -> (r: (Vec<OutputWallpaper>, Vec<SocketError>))
        ensures
            wall_views(r.0@) == wallpapers_of(self.outputs@),
            missing_views(r.1@) == missing_of(self.outputs@),
    {
        let mut walls: Vec<OutputWallpaper> = Vec::new();
        let mut errors: Vec<SocketError> = Vec::new();
        let mut i: usize = 0;
        while i < self.outputs.len()
            invariant
                i <= self.outputs@.len(),
                wall_views(walls@) == wallpapers_of(self.outputs@.subrange(0, i as int)),
                missing_views(errors@) == missing_of(self.outputs@.subrange(0, i as int)),
            decreases self.outputs@.len() - i,
        {
            let ghost pre = self.outputs@.subrange(0, i as int);
            let ghost post = self.outputs@.subrange(0, i as int + 1);
            assert(post.drop_last() =~= pre);
            let name = self.outputs[i].output_name.clone();
            match self.outputs[i].current_img() {
                Some(p) => walls.push(OutputWallpaper { output_name: name, wallpaper: p }),
                None => errors.push(SocketError::NoCurrentImage { output: name }),
            }
            assert(wall_views(walls@) =~= wallpapers_of(post));
            assert(missing_views(errors@) =~= missing_of(post));
            i = i + 1;
        }
        assert(self.outputs@.subrange(0, self.outputs@.len() as int) =~= self.outputs@);
        (walls, errors)
    }

    /// Toggle every output; answers their names, comma separated.
    fn toggle_all(&mut self) -> (r: String)
        requires
            old(self).wf(),
        ensures
            final(self).wf(),
            r@ == joined_names(old(self).outputs@),
            final(self).config == old(self).config,
            final(self).wgpu == old(self).wgpu,
            final(self).current_profile == old(self).current_profile,
            final(self).socket_counter == old(self).socket_counter,
            final(self).outputs@.len() == old(self).outputs@.len(),
            forall|j: int| 0 <= j < old(self).outputs@.len() ==> {
                &&& (#[trigger] final(self).outputs@[j]).index == old(self).outputs@[j].index
                &&& final(self).outputs@[j].output_name == old(self).outputs@[j].output_name
                &&& final(self).outputs@[j].img_list@ == old(self).outputs@[j].img_list@
                &&& final(self).outputs@[j].visible == !old(self).outputs@[j].visible
            },
    {
        let mut names = String::new();
        let n = self.outputs.len();
        let mut i: usize = 0;
        while i < n
            invariant
                self.wf(),
                n == self.outputs@.len(),
                i <= n,
                self.config == old(self).config,
                self.wgpu == old(self).wgpu,
                self.current_profile == old(self).current_profile,
                self.socket_counter == old(self).socket_counter,
                n == old(self).outputs@.len(),
                names@ == joined_names(old(self).outputs@.subrange(0, i as int)),
                forall|j: int| 0 <= j < n ==> {
                    &&& (#[trigger] self.outputs@[j]).index == old(self).outputs@[j].index
                    &&& self.outputs@[j].output_name == old(self).outputs@[j].output_name
                    &&& self.outputs@[j].img_list@ == old(self).outputs@[j].img_list@
                    &&& self.outputs@[j].visible == (if j < i {
                        !old(self).outputs@[j].visible
                    } else {
                        old(self).outputs@[j].visible
                    })
                },
            decreases n - i,
        {
            let ghost before = self.outputs@;
            let ghost pre = old(self).outputs@.subrange(0, i as int);
            let ghost post = old(self).outputs@.subrange(0, i as int + 1);
            assert(post.drop_last() =~= pre);
            let mut o = self.take_output(i);
            o.toggle_visible();
            if i > 0 {
                names.append(", ");
            }
            names.append(o.output_name.as_str());
            proof {
                assert(post.last() == old(self).outputs@[i as int]);
                assert(o.output_name@ == before[i as int].output_name@);
                assert(before[i as int].output_name == old(self).outputs@[i as int].output_name);
                reveal_strlit(", ");
                assert(", "@ == seq![',', ' ']);
                assert(names@ =~= joined_names(post));
            }
            self.put_output(i, o);
            proof {
                assert(self.outputs@ =~= before.update(i as int, o));
                self.lemma_update_keeps_wf(before, i as int);
            }
            i = i + 1;
        }
        assert(old(self).outputs@.subrange(0, n as int) =~= old(self).outputs@);
        names
    }

    proof fn lemma_update_keeps_wf(&self, before: Seq<OutputRepr>, i: int)
        requires
            0 <= i < before.len(),
            self.outputs@ == before.update(i, self.outputs@[i]),
            names_unique(before),
            self.outputs@[i].output_name@ == before[i].output_name@,
            self.outputs@[i].wf(),
            forall|k: int| 0 <= k < before.len() ==> (#[trigger] before[k]).wf(),
        ensures
            names_unique(self.outputs@),
            forall|k: int| 0 <= k < self.outputs@.len() ==> (#[trigger] self.outputs@[k]).wf(),
            forall|n: Seq<char>| #[trigger] self.output_index(n) == (if exists|k: int| 0 <= k < before.len() && #[trigger] before[k].output_name@ == n {
                Some(choose|k: int| 0 <= k < before.len() && #[trigger] before[k].output_name@ == n)
            } else {
                None
            }),
    {
        assert forall|a: int, b: int| 0 <= a < b < self.outputs@.len() implies #[trigger] self.outputs@[a].output_name@ != #[trigger] self.outputs@[b].output_name@ by {
            assert(before[a].output_name@ != before[b].output_name@);
        }
        assert forall|k: int| 0 <= k < self.outputs@.len() implies (#[trigger] self.outputs@[k]).wf() by {
            if k != i {
                assert(self.outputs@[k] == before[k]);
            }
        }
        assert forall|n: Seq<char>| #[trigger] self.output_index(n) == (if exists|k: int| 0 <= k < before.len() && #[trigger] before[k].output_name@ == n {
            Some(choose|k: int| 0 <= k < before.len() && #[trigger] before[k].output_name@ == n)
        } else {
            None
        }) by {
            assert forall|k: int| 0 <= k < before.len() implies (#[trigger] self.outputs@[k].output_name@ == n) == (before[k].output_name@ == n) by {
                if k != i {
                    assert(self.outputs@[k] == before[k]);
                }
            }
            if exists|k: int| 0 <= k < before.len() && #[trigger] before[k].output_name@ == n {
                let k = choose|k: int| 0 <= k < before.len() && #[trigger] before[k].output_name@ == n;
                assert(self.outputs@[k].output_name@ == n);
                let k2 = choose|k: int| 0 <= k < self.outputs@.len() && #[trigger] self.outputs@[k].output_name@ == n;
                assert(before[k2].output_name@ == n);
                if k < k2 {
                    assert(before[k].output_name@ != before[k2].output_name@);
                } else if k2 < k {
                    assert(before[k2].output_name@ != before[k].output_name@);
                }
            } else {
                if exists|k: int| 0 <= k < self.outputs@.len() && #[trigger] self.outputs@[k].output_name@ == n {
                    let k2 = choose|k: int| 0 <= k < self.outputs@.len() && #[trigger] self.outputs@[k].output_name@ == n;
                    assert(before[k2].output_name@ == n);
                }
            }
        }
    }
}

} // verus!
