//! The render engine: texture and bind-group caches with their counters, the
//! decode requests in flight, and the per-frame draw sequence. The GPU itself
//! is reached through [`GpuBackend`].
use crate::transition::Fraction;
use vstd::prelude::*;

verus! {

/// Cache key of an image texture: the image path and the target size.
#[derive(Debug)]
pub struct ImageKey {
    pub path: String,
    pub width: u32,
    pub height: u32,
}

impl View for ImageKey {
    type V = (Seq<char>, u32, u32);

    open spec fn view(&self) -> (Seq<char>, u32, u32) {
        (self.path@, self.width, self.height)
    }
}

impl ImageKey {
    pub fn new(path: &String, size: (u32, u32)) -> (r: Self)
        ensures
            r@ == (path@, size.0, size.1),
    {
        ImageKey { path: path.clone(), width: size.0, height: size.1 }
    }

    pub fn duplicate(&self) -> (r: Self)
        ensures
            r@ == self@,
    {
        ImageKey { path: self.path.clone(), width: self.width, height: self.height }
    }

    pub fn same(&self, other: &ImageKey) -> (r: bool)
        ensures
            r == (self@ == other@),
    {
        self.width == other.width && self.height == other.height && self.path == other.path
    }
}

/// Key of a texture slot: an image, or the black placeholder of a given size.
#[derive(Debug)]
pub enum TextureKey {
    Image(ImageKey),
    Blank(u32, u32),
}

pub enum TextureKeyModel {
    Image((Seq<char>, u32, u32)),
    Blank(u32, u32),
}

impl View for TextureKey {
    type V = TextureKeyModel;

    open spec fn view(&self) -> TextureKeyModel {
        match self {
            TextureKey::Image(k) => TextureKeyModel::Image(k@),
            TextureKey::Blank(w, h) => TextureKeyModel::Blank(*w, *h),
        }
    }
}

impl TextureKey {
    pub fn duplicate(&self) -> (r: Self)
        ensures
            r@ == self@,
    {
        match self {
            TextureKey::Image(k) => TextureKey::Image(k.duplicate()),
            TextureKey::Blank(w, h) => TextureKey::Blank(*w, *h),
        }
    }

    pub fn same(&self, other: &TextureKey) -> (r: bool)
        ensures
            r == (self@ == other@),
    {
        match (self, other) {
            (TextureKey::Image(a), TextureKey::Image(b)) => a.same(b),
            (TextureKey::Blank(w1, h1), TextureKey::Blank(w2, h2)) => *w1 == *w2 && *h1 == *h2,
            _ => false,
        }
    }
}

/// What the engine asks of the GPU. Implementations live with the windowing
/// and GPU code; nothing is assumed about what they return.
pub trait GpuBackend {
    type Texture;
    type BindGroup;

    /// Decode the image at `path`, fill-crop it to `width` x `height`, upload it.
    fn load_image(&mut self, path: &String, width: u32, height: u32) -> Result<Self::Texture, String>;

    /// Upload already decoded RGBA pixels.
    fn upload_pixels(&mut self, pixels: &Vec<u8>, width: u32, height: u32) -> Result<
        Self::Texture,
        String,
    >;

    /// An all-black texture of the given size.
    fn create_blank(&mut self, width: u32, height: u32) -> Result<Self::Texture, String>;

    /// Bind the sampler, the two textures and the parameter buffer together.
    fn create_bind_group(&mut self, previous: &Self::Texture, current: &Self::Texture) -> Result<
        Self::BindGroup,
        String,
    >;

    /// Write the transition parameters into the uniform buffer.
    fn write_params(&mut self, progress: Fraction, kind: u32, direction: (i32, i32)) -> Result<
        (),
        String,
    >;

    /// Draw the full-screen quad with `bind_group` into the output's next
    /// frame and present it.
    fn draw(&mut self, output_name: &String, bind_group: &Self::BindGroup) -> Result<(), String>;

    /// Configure the output's surface; answers the chosen format's code.
    fn configure_surface(&mut self, output_name: &String, width: u32, height: u32) -> Result<
        u32,
        String,
    >;

    /// Build the shared pipeline for the given surface format.
    fn init_pipeline(&mut self, format: u32) -> Result<(), String>;
}

/// Why a frame could not be drawn.
#[derive(Debug, PartialEq, Eq)]
pub enum RenderError {
    /// The shared pipeline is not built yet.
    PipelineNotReady,
    /// The output's surface was never configured.
    SurfaceNotConfigured,
    /// A bind group was asked for a texture that is not cached.
    MissingTexture,
    /// The GPU layer failed.
    Gpu(String),
}

/// Counters of the caches and the renderer.
#[derive(Debug, Clone, Copy, PartialEq, Eq, Structural)]
pub struct GpuMetrics {
    pub texture_cache_hits: u64,
    pub texture_cache_misses: u64,
    pub bind_group_cache_hits: u64,
    pub bind_group_cache_misses: u64,
    pub total_textures_loaded: u64,
    pub total_frames_rendered: u64,
}

/// One more, saturating at the top of the range.
pub open spec fn bump(x: u64) -> u64 {
    if x < u64::MAX {
        (x + 1) as u64
    } else {
        x
    }
}

fn inc(x: u64) -> (r: u64)
    ensures
        r == bump(x),
{
    inc_counter(x)
}

/// Increment a counter, saturating at the top of the range.
pub fn inc_counter(x: u64) -> (r: u64)
    ensures
        r == bump(x),
{
    if x < u64::MAX {
        x + 1
    } else {
        x
    }
}

/// Hit rate in tenths of a percent, zero when nothing was asked.
pub open spec fn hit_rate_spec(hits: u64, misses: u64) -> int {
    if hits + misses == 0 {
        0
    } else {
        (hits * 1000) / (hits + misses)
    }
}

fn hit_rate(hits: u64, misses: u64) -> (r: u64)
    ensures
        r == hit_rate_spec(hits, misses),
{
    let total = hits as u128 + misses as u128;
    if total == 0 {
        0
    } else {
        let h = hits as u128;
        let q = h * 1000 / total;
        proof {
            let hi = h as int;
            let ti = total as int;
            vstd::arithmetic::div_mod::lemma_div_is_ordered(hi * 1000, ti * 1000, ti);
            vstd::arithmetic::div_mod::lemma_div_by_multiple(1000, ti);
            assert(ti * 1000 == 1000 * ti) by (nonlinear_arith);
            assert(hi * 1000 <= ti * 1000) by (nonlinear_arith)
                requires
                    hi <= ti,
            ;
        }
        q as u64
    }
}

/// A summary of the counters for the log, with hit rates in tenths of a percent.
#[derive(Debug, Clone, Copy, PartialEq, Eq, Structural)]
pub struct MetricsReport {
    pub texture_cache_size: usize,
    pub bind_group_cache_size: usize,
    pub texture_hit_rate_permille: u64,
    pub bind_group_hit_rate_permille: u64,
    pub metrics: GpuMetrics,
}

impl GpuMetrics {
    pub fn new() -> (r: Self)
        ensures
            r == (GpuMetrics {
                texture_cache_hits: 0,
                texture_cache_misses: 0,
                bind_group_cache_hits: 0,
                bind_group_cache_misses: 0,
                total_textures_loaded: 0,
                total_frames_rendered: 0,
            }),
    {
        GpuMetrics {
            texture_cache_hits: 0,
            texture_cache_misses: 0,
            bind_group_cache_hits: 0,
            bind_group_cache_misses: 0,
            total_textures_loaded: 0,
            total_frames_rendered: 0,
        }
    }

    /// The figures that go into the periodic metrics log line.
    pub fn log_metrics(&self, texture_cache_size: usize, bind_group_cache_size: usize) -> (r:
        MetricsReport)
        ensures
            r.texture_cache_size == texture_cache_size,
            r.bind_group_cache_size == bind_group_cache_size,
            r.texture_hit_rate_permille == hit_rate_spec(
                self.texture_cache_hits,
                self.texture_cache_misses,
            ),
            r.bind_group_hit_rate_permille == hit_rate_spec(
                self.bind_group_cache_hits,
                self.bind_group_cache_misses,
            ),
            r.metrics == *self,
    {
        MetricsReport {
            texture_cache_size,
            bind_group_cache_size,
            texture_hit_rate_permille: hit_rate(self.texture_cache_hits, self.texture_cache_misses),
            bind_group_hit_rate_permille: hit_rate(
                self.bind_group_cache_hits,
                self.bind_group_cache_misses,
            ),
            metrics: *self,
        }
    }
}

/// A decode request for the background worker.
#[derive(Debug)]
pub struct TextureLoadRequest {
    pub image_path: String,
    pub target_size: (u32, u32),
    pub output_name: String,
}

/// What the background worker produced for a request: RGBA pixels and their
/// size, or `None` when the image could not be read or decoded.
#[derive(Debug)]
pub struct TextureLoadResult {
    pub key: ImageKey,
    pub decoded: Option<(Vec<u8>, (u32, u32))>,
}

/// Size an output's surface was configured with.
#[derive(Debug)]
pub struct SurfaceSize {
    pub output_name: String,
    pub width: u32,
    pub height: u32,
}

/// Counters as the control socket reports them.
#[derive(Debug, Clone, Copy, PartialEq, Eq, Structural)]
pub struct GpuMetricsData {
    pub texture_cache_size: usize,
    pub texture_cache_hits: u64,
    pub texture_cache_misses: u64,
    pub bind_group_cache_size: usize,
    pub bind_group_cache_hits: u64,
    pub bind_group_cache_misses: u64,
    pub total_textures_loaded: u64,
    pub total_frames_rendered: u64,
}

pub open spec fn keys_of<T>(s: Seq<(ImageKey, T)>) -> Seq<(Seq<char>, u32, u32)> {
    s.map_values(|e: (ImageKey, T)| e.0@)
}

pub open spec fn pair_keys_of<B>(s: Seq<(TextureKey, TextureKey, B)>) -> Seq<(TextureKeyModel, TextureKeyModel)> {
    s.map_values(|e: (TextureKey, TextureKey, B)| (e.0@, e.1@))
}

pub open spec fn blank_keys_of<T>(s: Seq<((u32, u32), T)>) -> Seq<(u32, u32)> {
    s.map_values(|e: ((u32, u32), T)| e.0)
}

pub open spec fn image_keys_of(s: Seq<ImageKey>) -> Seq<(Seq<char>, u32, u32)> {
    s.map_values(|k: ImageKey| k@)
}

pub open spec fn texture_present(images: Set<(Seq<char>, u32, u32)>, blanks: Set<(u32, u32)>, k: TextureKeyModel) -> bool {
    match k {
        TextureKeyModel::Image(i) => images.contains(i),
        TextureKeyModel::Blank(w, h) => blanks.contains((w, h)),
    }
}


/// Appending a new element keeps a sequence free of repeats and adds it to its set.
pub proof fn lemma_push_unique<K>(s: Seq<K>, x: K)
    requires
        s.no_duplicates(),
        !s.to_set().contains(x),
    ensures
        s.push(x).no_duplicates(),
        s.push(x).to_set() == s.to_set().insert(x),
{
    assert forall|y| #[trigger] s.push(x).to_set().contains(y) <==> s.to_set().insert(x).contains(y) by {
        if s.push(x).contains(y) {
            let j = choose|j: int| 0 <= j < s.push(x).len() && s.push(x)[j] == y;
            if j < s.len() {
                assert(s[j] == y);
            }
        }
        if s.contains(y) {
            let j = choose|j: int| 0 <= j < s.len() && s[j] == y;
            assert(s.push(x)[j] == y);
        }
        if y == x {
            assert(s.push(x)[s.len() as int] == y);
        }
    }
    assert(s.push(x).to_set() =~= s.to_set().insert(x));
    assert forall|a: int, b: int|
        0 <= a < s.push(x).len() && 0 <= b < s.push(x).len() && a != b implies s.push(x)[a]
        != s.push(x)[b] by {
        if a == s.len() as int {
            assert(s.contains(s[b]));
        } else if b == s.len() as int {
            assert(s.contains(s[a]));
        }
    }
}

/// Cache key of an image at a target size.
pub open spec fn image_key_of(path: Seq<char>, size: (u32, u32)) -> (Seq<char>, u32, u32) {
    (path, size.0, size.1)
}

/// Key of the texture a frame blends from: the previous image, or the black
/// placeholder of the target size.
pub open spec fn previous_key_of(previous: Option<Seq<char>>, size: (u32, u32)) -> TextureKeyModel {
    match previous {
        Some(p) => TextureKeyModel::Image(image_key_of(p, size)),
        None => TextureKeyModel::Blank(size.0, size.1),
    }
}

pub open spec fn opt_str_view(o: Option<&String>) -> Option<Seq<char>> {
    match o {
        Some(s) => Some(s@),
        None => None,
    }
}


/// One call made to the GPU layer, as the engine made it.
pub enum GpuCall {
    LoadImage(Seq<char>, u32, u32),
    UploadPixels((Seq<char>, u32, u32), (u32, u32)),
    CreateBlank(u32, u32),
    CreateBindGroup(TextureKeyModel, TextureKeyModel),
    WriteParams(Fraction, u32, (i32, i32)),
    Draw(Seq<char>, TextureKeyModel, TextureKeyModel),
    ConfigureSurface(Seq<char>, u32, u32),
    InitPipeline(u32),
}

/// One request for an image texture, from the requested keys `keys`, the
/// background-decoded keys `pre` and the counters before it to those after it.
/// A cached key is a hit. A background-decoded key is a hit too; it joins the
/// requested keys and counts as loaded. Otherwise it is a miss and, when the
/// upload succeeds, the key joins the requested keys.
pub open spec fn texture_request(
    keys: Set<(Seq<char>, u32, u32)>,
    pre: Set<(Seq<char>, u32, u32)>,
    m: GpuMetrics,
    key: (Seq<char>, u32, u32),
    keys2: Set<(Seq<char>, u32, u32)>,
    pre2: Set<(Seq<char>, u32, u32)>,
    m2: GpuMetrics,
    ok: bool,
) -> bool {
    if keys.contains(key) {
        &&& ok
        &&& keys2 == keys
        &&& pre2 == pre
        &&& m2 == (GpuMetrics { texture_cache_hits: bump(m.texture_cache_hits), ..m })
    } else if pre.contains(key) {
        &&& ok
        &&& keys2 == keys.insert(key)
        &&& pre2 == pre.remove(key)
        &&& m2 == (GpuMetrics {
            texture_cache_hits: bump(m.texture_cache_hits),
            total_textures_loaded: m2.total_textures_loaded,
            ..m
        })
    } else {
        &&& m2 == (GpuMetrics {
            texture_cache_misses: bump(m.texture_cache_misses),
            total_textures_loaded: m2.total_textures_loaded,
            ..m
        })
        &&& pre2 == pre
        &&& keys2 == (if ok { keys.insert(key) } else { keys })
    }
}

/// Asking for the same texture twice, the first time successfully, leaves the
/// cache as the first request left it and counts exactly one more hit.
pub proof fn lemma_cache_idempotence(
    keys0: Set<(Seq<char>, u32, u32)>,
    pre0: Set<(Seq<char>, u32, u32)>,
    m0: GpuMetrics,
    key: (Seq<char>, u32, u32),
    keys1: Set<(Seq<char>, u32, u32)>,
    pre1: Set<(Seq<char>, u32, u32)>,
    m1: GpuMetrics,
    keys2: Set<(Seq<char>, u32, u32)>,
    pre2: Set<(Seq<char>, u32, u32)>,
    m2: GpuMetrics,
    ok2: bool,
)
    requires
        texture_request(keys0, pre0, m0, key, keys1, pre1, m1, true),
        texture_request(keys1, pre1, m1, key, keys2, pre2, m2, ok2),
    ensures
        ok2,
        keys2 == keys1,
        pre2 == pre1,
        keys1.contains(key),
        m2.texture_cache_hits == bump(m1.texture_cache_hits),
        m2.texture_cache_misses == m1.texture_cache_misses,
        m2.total_textures_loaded == m1.total_textures_loaded,
{
}

/// Removing one element keeps a sequence free of repeats and takes it out of its set.
pub proof fn lemma_remove_unique<K>(s: Seq<K>, j: int)
    requires
        s.no_duplicates(),
        0 <= j < s.len(),
    ensures
        s.remove(j).no_duplicates(),
        s.remove(j).to_set() == s.to_set().remove(s[j]),
{
    let r = s.remove(j);
    assert forall|a: int, b: int| 0 <= a < r.len() && 0 <= b < r.len() && a != b implies r[a] != r[b] by {
        let a0 = if a < j { a } else { a + 1 };
        let b0 = if b < j { b } else { b + 1 };
        assert(r[a] == s[a0] && r[b] == s[b0]);
    }
    assert forall|y| #[trigger] r.to_set().contains(y) <==> s.to_set().remove(s[j]).contains(y) by {
        if r.contains(y) {
            let a = choose|a: int| 0 <= a < r.len() && r[a] == y;
            let a0 = if a < j { a } else { a + 1 };
            assert(s[a0] == y);
            assert(a0 != j);
        }
        if s.contains(y) && y != s[j] {
            let a0 = choose|a0: int| 0 <= a0 < s.len() && s[a0] == y;
            assert(a0 != j);
            let a = if a0 < j { a0 } else { a0 - 1 };
            assert(r[a] == y);
        }
    }
    assert(r.to_set() =~= s.to_set().remove(s[j]));
}

/// The GPU-side state shared by all outputs.
pub struct RenderEngine<G: GpuBackend> {
    pub gpu: G,
    pub pipeline_ready: bool,
    pub surfaces: Vec<SurfaceSize>,
    pub texture_cache: Vec<(ImageKey, G::Texture)>,
    pub blank_cache: Vec<((u32, u32), G::Texture)>,
    pub bind_group_cache: Vec<(TextureKey, TextureKey, G::BindGroup)>,
    /// Keys handed to the decode worker and not yet back.
    pub in_flight: Vec<ImageKey>,
    /// Requests waiting to be handed to the decode worker.
    pub outbox: Vec<TextureLoadRequest>,
    pub metrics: GpuMetrics,
    /// Textures decoded in the background that rendering has not asked for yet.
    pub preloaded: Vec<(ImageKey, G::Texture)>,
    /// Every call made to the GPU layer, oldest first.
    pub gpu_log: Ghost<Seq<GpuCall>>,
}

impl<G: GpuBackend> RenderEngine<G> {
    /// Keys of the cached image textures.
    pub open spec fn image_keys(&self) -> Set<(Seq<char>, u32, u32)> {
        keys_of(self.texture_cache@).to_set()
    }

    pub open spec fn blank_keys(&self) -> Set<(u32, u32)> {
        blank_keys_of(self.blank_cache@).to_set()
    }

    pub open spec fn pair_keys(&self) -> Set<(TextureKeyModel, TextureKeyModel)> {
        pair_keys_of(self.bind_group_cache@).to_set()
    }

    /// Keys of the textures decoded in the background and not asked for yet.
    pub open spec fn preloaded_keys(&self) -> Set<(Seq<char>, u32, u32)> {
        keys_of(self.preloaded@).to_set()
    }

    pub open spec fn in_flight_keys(&self) -> Set<(Seq<char>, u32, u32)> {
        image_keys_of(self.in_flight@).to_set()
    }

    /// Each cache holds a key once, a key is requested or background-decoded
    /// but not both, and every texture rendering asked for counts once as loaded.
    pub open spec fn wf(&self) -> bool {
        &&& keys_of(self.texture_cache@).no_duplicates()
        &&& keys_of(self.preloaded@).no_duplicates()
        &&& self.image_keys().disjoint(self.preloaded_keys())
        &&& blank_keys_of(self.blank_cache@).no_duplicates()
        &&& pair_keys_of(self.bind_group_cache@).no_duplicates()
        &&& self.metrics.total_textures_loaded == self.texture_cache@.len()
    }

    pub open spec fn surface_size(&self, name: Seq<char>) -> Option<(u32, u32)> {
        if exists|i: int| 0 <= i < self.surfaces@.len() && #[trigger] self.surfaces@[i].output_name@ == name {
            let i = choose|i: int| 0 <= i < self.surfaces@.len() && #[trigger] self.surfaces@[i].output_name@ == name;
            Some((self.surfaces@[i].width, self.surfaces@[i].height))
        } else {
            None
        }
    }

    pub open spec fn surfaces_wf(&self) -> bool {
        forall|i: int, j: int| 0 <= i < j < self.surfaces@.len() ==> #[trigger] self.surfaces@[i].output_name@ != #[trigger] self.surfaces@[j].output_name@
    }

    pub fn new(gpu: G) -> (r: Self)
        ensures
            r.wf(),
            r.surfaces_wf(),
            r.gpu == gpu,
            !r.pipeline_ready,
            r.image_keys() == Set::<(Seq<char>, u32, u32)>::empty(),
            r.pair_keys() == Set::<(TextureKeyModel, TextureKeyModel)>::empty(),
            r.in_flight@.len() == 0,
            r.outbox@.len() == 0,
            r.surfaces@.len() == 0,
            r.metrics == GpuMetrics::new_spec(),
            r.preloaded_keys() == Set::<(Seq<char>, u32, u32)>::empty(),
            r.gpu_log@ == Seq::<GpuCall>::empty(),
    {
        let r = RenderEngine {
            gpu,
            pipeline_ready: false,
            surfaces: Vec::new(),
            texture_cache: Vec::new(),
            blank_cache: Vec::new(),
            bind_group_cache: Vec::new(),
            in_flight: Vec::new(),
            outbox: Vec::new(),
            metrics: GpuMetrics::new(),
            preloaded: Vec::new(),
            gpu_log: Ghost(Seq::empty()),
        };
        assert(keys_of(r.preloaded@) =~= Seq::empty());
        assert(r.preloaded_keys() =~= Set::empty());
        assert(keys_of(r.texture_cache@) =~= Seq::empty());
        assert(blank_keys_of(r.blank_cache@) =~= Seq::empty());
        assert(pair_keys_of(r.bind_group_cache@) =~= Seq::empty());
        assert(r.image_keys() =~= Set::empty());
        assert(r.pair_keys() =~= Set::empty());
        r
    }

    fn find_texture(&self, key: &ImageKey) -> (r: Option<usize>)
        ensures
            match r {
                Some(i) => i < self.texture_cache@.len() && self.texture_cache@[i as int].0@ == key@
                    && self.image_keys().contains(key@),
                None => !self.image_keys().contains(key@),
            },
    {
        let mut i: usize = 0;
        while i < self.texture_cache.len()
            invariant
                i <= self.texture_cache@.len(),
                forall|j: int| 0 <= j < i ==> #[trigger] self.texture_cache@[j].0@ != key@,
            decreases self.texture_cache@.len() - i,
        {
            if self.texture_cache[i].0.same(key) {
                assert(keys_of(self.texture_cache@)[i as int] == key@);
                return Some(i);
            }
            i = i + 1;
        }
        proof {
            if keys_of(self.texture_cache@).contains(key@) {
                let j = choose|j: int| 0 <= j < keys_of(self.texture_cache@).len() && keys_of(self.texture_cache@)[j] == key@;
                assert(self.texture_cache@[j].0@ == key@);
            }
        }
        None
    }

    fn find_blank(&self, size: (u32, u32)) -> (r: Option<usize>)
        ensures
            match r {
                Some(i) => i < self.blank_cache@.len() && self.blank_cache@[i as int].0 == size
                    && self.blank_keys().contains(size),
                None => !self.blank_keys().contains(size),
            },
    {
        let mut i: usize = 0;
        while i < self.blank_cache.len()
            invariant
                i <= self.blank_cache@.len(),
                forall|j: int| 0 <= j < i ==> #[trigger] self.blank_cache@[j].0 != size,
            decreases self.blank_cache@.len() - i,
        {
            if self.blank_cache[i].0.0 == size.0 && self.blank_cache[i].0.1 == size.1 {
                assert(blank_keys_of(self.blank_cache@)[i as int] == size);
                return Some(i);
            }
            i = i + 1;
        }
        proof {
            if blank_keys_of(self.blank_cache@).contains(size) {
                let j = choose|j: int| 0 <= j < blank_keys_of(self.blank_cache@).len() && blank_keys_of(self.blank_cache@)[j] == size;
                assert(self.blank_cache@[j].0 == size);
            }
        }
        None
    }

    fn find_bind_group(&self, previous: &TextureKey, current: &TextureKey) -> (r: Option<usize>)
        ensures
            match r {
                Some(i) => i < self.bind_group_cache@.len() && self.bind_group_cache@[i as int].0@ == previous@
                    && self.bind_group_cache@[i as int].1@ == current@
                    && self.pair_keys().contains((previous@, current@)),
                None => !self.pair_keys().contains((previous@, current@)),
            },
    {
        let mut i: usize = 0;
        while i < self.bind_group_cache.len()
            invariant
                i <= self.bind_group_cache@.len(),
                forall|j: int| 0 <= j < i ==> (#[trigger] self.bind_group_cache@[j]).0@ != previous@ || self.bind_group_cache@[j].1@ != current@,
            decreases self.bind_group_cache@.len() - i,
        {
            if self.bind_group_cache[i].0.same(previous) && self.bind_group_cache[i].1.same(current) {
                assert(pair_keys_of(self.bind_group_cache@)[i as int] == (previous@, current@));
                return Some(i);
            }
            i = i + 1;
        }
        proof {
            if pair_keys_of(self.bind_group_cache@).contains((previous@, current@)) {
                let j = choose|j: int| 0 <= j < pair_keys_of(self.bind_group_cache@).len() && pair_keys_of(self.bind_group_cache@)[j] == (previous@, current@);
                assert(self.bind_group_cache@[j].0@ == previous@);
            }
        }
        None
    }

    /// The image is in the texture cache.
    pub fn contains_texture(&self, key: &ImageKey) -> (r: bool)
        ensures
            r == self.image_keys().contains(key@),
    {
        self.find_texture(key).is_some()
    }

    fn find_preloaded(&self, key: &ImageKey) -> (r: Option<usize>)
        ensures
            match r {
                Some(i) => i < self.preloaded@.len() && self.preloaded@[i as int].0@ == key@
                    && self.preloaded_keys().contains(key@),
                None => !self.preloaded_keys().contains(key@),
            },
    {
        let mut i: usize = 0;
        while i < self.preloaded.len()
            invariant
                i <= self.preloaded@.len(),
                forall|j: int| 0 <= j < i ==> #[trigger] self.preloaded@[j].0@ != key@,
            decreases self.preloaded@.len() - i,
        {
            if self.preloaded[i].0.same(key) {
                assert(keys_of(self.preloaded@)[i as int] == key@);
                return Some(i);
            }
            i = i + 1;
        }
        proof {
            if keys_of(self.preloaded@).contains(key@) {
                let j = choose|j: int| 0 <= j < keys_of(self.preloaded@).len() && keys_of(self.preloaded@)[j] == key@;
                assert(self.preloaded@[j].0@ == key@);
            }
        }
        None
    }

    /// Add a requested texture under a key held by neither store.
    fn add_requested(&mut self, key: ImageKey, t: G::Texture)
        requires
            old(self).wf(),
            !old(self).image_keys().contains(key@),
            !old(self).preloaded_keys().contains(key@),
        ensures
            final(self).wf(),
            final(self).image_keys() == old(self).image_keys().insert(key@),
            final(self).texture_cache@ == old(self).texture_cache@.push((key, t)),
            final(self).metrics == (GpuMetrics { total_textures_loaded: final(self).metrics.total_textures_loaded, ..old(self).metrics }),
            final(self).preloaded@ == old(self).preloaded@,
            final(self).blank_cache@ == old(self).blank_cache@,
            final(self).bind_group_cache@ == old(self).bind_group_cache@,
            final(self).gpu_log == old(self).gpu_log,
            final(self).pipeline_ready == old(self).pipeline_ready,
            final(self).surfaces@ == old(self).surfaces@,
            final(self).in_flight@ == old(self).in_flight@,
            final(self).outbox@ == old(self).outbox@,
    {
        let ghost before = self.texture_cache@;
        let ghost k = key@;
        self.texture_cache.push((key, t));
        proof {
            assert(keys_of(self.texture_cache@) =~= keys_of(before).push(k));
            lemma_push_unique(keys_of(before), k);
        }
        self.metrics.total_textures_loaded = self.texture_cache.len() as u64;
    }

    /// Make the image resident for rendering. A requested key is a hit. A
    /// background-decoded key is a hit and moves to the requested textures,
    /// counting as loaded. Otherwise it is a miss: the image is loaded through
    /// the GPU layer and, when that works, cached and counted as loaded.
    pub fn load_image_texture(&mut self, image_path: &String, target_size: (u32, u32)) -> (r: Result<(), RenderError>)
        requires
            old(self).wf(),
        ensures
            final(self).wf(),
            texture_request(
                old(self).image_keys(),
                old(self).preloaded_keys(),
                old(self).metrics,
                image_key_of(image_path@, target_size),
                final(self).image_keys(),
                final(self).preloaded_keys(),
                final(self).metrics,
                r is Ok,
            ),
            r is Err ==> r->Err_0 is Gpu,
            final(self).gpu_log@ == if !old(self).image_keys().contains(image_key_of(image_path@, target_size))
                && !old(self).preloaded_keys().contains(image_key_of(image_path@, target_size)) {
                old(self).gpu_log@.push(GpuCall::LoadImage(image_path@, target_size.0, target_size.1))
            } else {
                old(self).gpu_log@
            },
            final(self).pair_keys() == old(self).pair_keys(),
            final(self).blank_keys() == old(self).blank_keys(),
            final(self).pipeline_ready == old(self).pipeline_ready,
            final(self).surfaces@ == old(self).surfaces@,
            final(self).in_flight@ == old(self).in_flight@,
            final(self).outbox@ == old(self).outbox@,
    {
        let key = ImageKey::new(image_path, target_size);
        if self.find_texture(&key).is_some() {
            self.metrics.texture_cache_hits = inc(self.metrics.texture_cache_hits);
            return Ok(());
        }
        match self.find_preloaded(&key) {
            Some(j) => {
                let ghost before = self.preloaded@;
                let (k, t) = self.preloaded.remove(j);
                proof {
                    assert(keys_of(self.preloaded@) =~= keys_of(before).remove(j as int));
                    lemma_remove_unique(keys_of(before), j as int);
                }
                self.metrics.texture_cache_hits = inc(self.metrics.texture_cache_hits);
                self.add_requested(k, t);
                return Ok(());
            },
            None => {},
        }
        self.metrics.texture_cache_misses = inc(self.metrics.texture_cache_misses);
        let res = self.gpu.load_image(image_path, target_size.0, target_size.1);
        self.gpu_log = Ghost(self.gpu_log@.push(GpuCall::LoadImage(image_path@, target_size.0, target_size.1)));
        match res {
            Ok(t) => {
                self.add_requested(key, t);
                Ok(())
            },
            Err(e) => Err(RenderError::Gpu(e)),
        }
    }

    /// Where the texture of `key` sits: `(true, i)` in the image cache,
    /// `(false, i)` in the placeholder cache.
    fn texture_slot(&self, key: &TextureKey) -> (r: Option<(bool, usize)>)
        ensures
            r is Some <==> texture_present(self.image_keys(), self.blank_keys(), key@),
            r matches Some((true, i)) ==> i < self.texture_cache@.len(),
            r matches Some((false, i)) ==> i < self.blank_cache@.len(),
    {
        match key {
            TextureKey::Image(k) => match self.find_texture(k) {
                Some(i) => Some((true, i)),
                None => None,
            },
            TextureKey::Blank(w, h) => match self.find_blank((*w, *h)) {
                Some(i) => Some((false, i)),
                None => None,
            },
        }
    }

    /// The black placeholder of the given size, created on first use. It
    /// touches no counter.
    pub fn get_or_create_dummy_texture(&mut self, target_size: (u32, u32)) -> (r: Result<TextureKey, RenderError>)
        requires
            old(self).wf(),
        ensures
            final(self).wf(),
            match r {
                Ok(k) => k@ == TextureKeyModel::Blank(target_size.0, target_size.1)
                    && final(self).blank_keys() == old(self).blank_keys().insert(target_size),
                Err(e) => e is Gpu && !old(self).blank_keys().contains(target_size)
                    && final(self).blank_keys() == old(self).blank_keys(),
            },
            final(self).gpu_log@ == if old(self).blank_keys().contains(target_size) {
                old(self).gpu_log@
            } else {
                old(self).gpu_log@.push(GpuCall::CreateBlank(target_size.0, target_size.1))
            },
            final(self).image_keys() == old(self).image_keys(),
            final(self).preloaded@ == old(self).preloaded@,
            final(self).pair_keys() == old(self).pair_keys(),
            final(self).metrics == old(self).metrics,
            final(self).pipeline_ready == old(self).pipeline_ready,
            final(self).surfaces@ == old(self).surfaces@,
            final(self).in_flight@ == old(self).in_flight@,
            final(self).outbox@ == old(self).outbox@,
    {
        if self.find_blank(target_size).is_some() {
            assert(self.blank_keys().insert(target_size) =~= self.blank_keys());
            return Ok(TextureKey::Blank(target_size.0, target_size.1));
        }
        let res = self.gpu.create_blank(target_size.0, target_size.1);
        self.gpu_log = Ghost(self.gpu_log@.push(GpuCall::CreateBlank(target_size.0, target_size.1)));
        match res {
            Ok(t) => {
                let ghost before = self.blank_cache@;
                self.blank_cache.push((target_size, t));
                proof {
                    assert(blank_keys_of(self.blank_cache@) =~= blank_keys_of(before).push(target_size));
                    lemma_push_unique(blank_keys_of(before), target_size);
                }
                Ok(TextureKey::Blank(target_size.0, target_size.1))
            },
            Err(e) => Err(RenderError::Gpu(e)),
        }
    }

    /// The bind group of the ordered pair (previous, current), created on a miss.
    /// A hit counts a hit; a miss counts a miss and needs the pipeline and both
    /// textures, else it fails with the matching error; with them, the two
    /// textures go to the GPU layer.
    pub fn get_or_create_bind_group(&mut self, previous: &TextureKey, current: &TextureKey) -> (r: Result<(), RenderError>)
        requires
            old(self).wf(),
        ensures
            final(self).wf(),
            old(self).pair_keys().contains((previous@, current@)) ==> r is Ok
                && final(self).pair_keys() == old(self).pair_keys()
                && final(self).metrics == (GpuMetrics { bind_group_cache_hits: bump(old(self).metrics.bind_group_cache_hits), ..old(self).metrics }),
            !old(self).pair_keys().contains((previous@, current@)) ==> {
                &&& final(self).metrics == (GpuMetrics { bind_group_cache_misses: bump(old(self).metrics.bind_group_cache_misses), ..old(self).metrics })
                &&& !old(self).pipeline_ready ==> r == Err::<(), RenderError>(RenderError::PipelineNotReady)
                &&& old(self).pipeline_ready && !(texture_present(old(self).image_keys(), old(self).blank_keys(), previous@)
                    && texture_present(old(self).image_keys(), old(self).blank_keys(), current@))
                    ==> r == Err::<(), RenderError>(RenderError::MissingTexture)
                &&& r is Ok ==> final(self).pair_keys() == old(self).pair_keys().insert((previous@, current@))
                &&& r is Err ==> final(self).pair_keys() == old(self).pair_keys()
                &&& r is Ok ==> old(self).pipeline_ready && texture_present(old(self).image_keys(), old(self).blank_keys(), previous@)
                    && texture_present(old(self).image_keys(), old(self).blank_keys(), current@)
            },
            final(self).gpu_log@ == if !old(self).pair_keys().contains((previous@, current@)) && old(self).pipeline_ready
                && texture_present(old(self).image_keys(), old(self).blank_keys(), previous@)
                && texture_present(old(self).image_keys(), old(self).blank_keys(), current@) {
                old(self).gpu_log@.push(GpuCall::CreateBindGroup(previous@, current@))
            } else {
                old(self).gpu_log@
            },
            final(self).image_keys() == old(self).image_keys(),
            final(self).preloaded@ == old(self).preloaded@,
            final(self).blank_keys() == old(self).blank_keys(),
            final(self).pipeline_ready == old(self).pipeline_ready,
            final(self).surfaces@ == old(self).surfaces@,
            final(self).in_flight@ == old(self).in_flight@,
            final(self).outbox@ == old(self).outbox@,
    {
        if self.find_bind_group(previous, current).is_some() {
            self.metrics.bind_group_cache_hits = inc(self.metrics.bind_group_cache_hits);
            return Ok(());
        }
        self.metrics.bind_group_cache_misses = inc(self.metrics.bind_group_cache_misses);
        if !self.pipeline_ready {
            return Err(RenderError::PipelineNotReady);
        }
        let s1 = self.texture_slot(previous);
        let s2 = self.texture_slot(current);
        let created = match (s1, s2) {
            (Some((in1, i1)), Some((in2, i2))) => {
                let a = if in1 {
                    &self.texture_cache[i1].1
                } else {
                    &self.blank_cache[i1].1
                };
                let b = if in2 {
                    &self.texture_cache[i2].1
                } else {
                    &self.blank_cache[i2].1
                };
                Some(self.gpu.create_bind_group(a, b))
            },
            _ => None,
        };
        match created {
            None => Err(RenderError::MissingTexture),
            Some(res) => {
                self.gpu_log = Ghost(self.gpu_log@.push(GpuCall::CreateBindGroup(previous@, current@)));
                match res {
                    Err(e) => Err(RenderError::Gpu(e)),
                    Ok(bg) => {
                        let ghost before = self.bind_group_cache@;
                        let ghost k = (previous@, current@);
                        self.bind_group_cache.push((previous.duplicate(), current.duplicate(), bg));
                        proof {
                            assert(pair_keys_of(self.bind_group_cache@) =~= pair_keys_of(before).push(k));
                            lemma_push_unique(pair_keys_of(before), k);
                        }
                        Ok(())
                    },
                }
            },
        }
    }

    /// Write the transition parameters for the next draw.
    pub fn update_transition_params(&mut self, progress: Fraction, anim_type: u32, direction: (i32, i32)) -> (r: Result<(), RenderError>)
        ensures
            !old(self).pipeline_ready ==> r == Err::<(), RenderError>(RenderError::PipelineNotReady)
                && final(self).gpu_log == old(self).gpu_log,
            old(self).pipeline_ready ==> final(self).gpu_log@ == old(self).gpu_log@.push(
                GpuCall::WriteParams(progress, anim_type, direction),
            ),
            r is Err ==> r == Err::<(), RenderError>(RenderError::PipelineNotReady) || r->Err_0 is Gpu,
            final(self).texture_cache@ == old(self).texture_cache@,
            final(self).preloaded@ == old(self).preloaded@,
            final(self).blank_cache@ == old(self).blank_cache@,
            final(self).bind_group_cache@ == old(self).bind_group_cache@,
            final(self).metrics == old(self).metrics,
            final(self).pipeline_ready == old(self).pipeline_ready,
            final(self).surfaces@ == old(self).surfaces@,
            final(self).in_flight@ == old(self).in_flight@,
            final(self).outbox@ == old(self).outbox@,
    {
        if !self.pipeline_ready {
            return Err(RenderError::PipelineNotReady);
        }
        let res = self.gpu.write_params(progress, anim_type, direction);
        self.gpu_log = Ghost(self.gpu_log@.push(GpuCall::WriteParams(progress, anim_type, direction)));
        match res {
            Ok(()) => Ok(()),
            Err(e) => Err(RenderError::Gpu(e)),
        }
    }

    fn find_surface(&self, output_name: &String) -> (r: Option<usize>)
        requires
            self.surfaces_wf(),
        ensures
            match r {
                Some(i) => i < self.surfaces@.len() && self.surfaces@[i as int].output_name@ == output_name@
                    && self.surface_size(output_name@) == Some((self.surfaces@[i as int].width, self.surfaces@[i as int].height)),
                None => self.surface_size(output_name@) is None,
            },
    {
        let mut i: usize = 0;
        while i < self.surfaces.len()
            invariant
                self.surfaces_wf(),
                i <= self.surfaces@.len(),
                forall|j: int| 0 <= j < i ==> #[trigger] self.surfaces@[j].output_name@ != output_name@,
            decreases self.surfaces@.len() - i,
        {
            if self.surfaces[i].output_name == *output_name {
                proof {
                    let k = choose|k: int| 0 <= k < self.surfaces@.len() && #[trigger] self.surfaces@[k].output_name@ == output_name@;
                    if k < i as int {
                        assert(self.surfaces@[k].output_name@ != self.surfaces@[i as int].output_name@);
                    } else if k > i as int {
                        assert(self.surfaces@[i as int].output_name@ != self.surfaces@[k].output_name@);
                    }
                }
                return Some(i);
            }
            i = i + 1;
        }
        None
    }

    /// Configure the output's surface at `size` and remember the size; answers
    /// the surface format code.
    pub fn configure_surface(&mut self, output_name: &String, size: (u32, u32)) -> (r: Result<u32, RenderError>)
        requires
            old(self).surfaces_wf(),
        ensures
            final(self).surfaces_wf(),
            r is Ok ==> final(self).surface_size(output_name@) == Some(size),
            r is Err ==> final(self).surfaces@ == old(self).surfaces@ && r->Err_0 is Gpu,
            forall|n: Seq<char>| n != output_name@ ==> #[trigger] final(self).surface_size(n) == old(self).surface_size(n),
            final(self).gpu_log@ == old(self).gpu_log@.push(GpuCall::ConfigureSurface(output_name@, size.0, size.1)),
            final(self).preloaded@ == old(self).preloaded@,
            final(self).pipeline_ready == old(self).pipeline_ready,
            final(self).texture_cache@ == old(self).texture_cache@,
            final(self).blank_cache@ == old(self).blank_cache@,
            final(self).bind_group_cache@ == old(self).bind_group_cache@,
            final(self).metrics == old(self).metrics,
            final(self).in_flight@ == old(self).in_flight@,
            final(self).outbox@ == old(self).outbox@,
    {
        let res = self.gpu.configure_surface(output_name, size.0, size.1);
        self.gpu_log = Ghost(self.gpu_log@.push(GpuCall::ConfigureSurface(output_name@, size.0, size.1)));
        let format = match res {
            Ok(f) => f,
            Err(e) => {
                return Err(RenderError::Gpu(e));
            },
        };
        let ghost before = self.surfaces@;
        let entry = SurfaceSize { output_name: output_name.clone(), width: size.0, height: size.1 };
        match self.find_surface(output_name) {
            Some(i) => {
                self.surfaces.set(i, entry);
                assert forall|n: Seq<char>| n != output_name@ implies #[trigger] self.surface_size(n) == old(self).surface_size(n) by {
                    assert forall|j: int| 0 <= j < self.surfaces@.len() implies (#[trigger] self.surfaces@[j].output_name@ == n) == (before[j].output_name@ == n) by {
                        if j == i as int {
                            assert(before[j].output_name@ == output_name@);
                        }
                    }
                    if exists|j: int| 0 <= j < before.len() && #[trigger] before[j].output_name@ == n {
                        let j = choose|j: int| 0 <= j < before.len() && #[trigger] before[j].output_name@ == n;
                        assert(self.surfaces@[j].output_name@ == n);
                        let k = choose|k: int| 0 <= k < self.surfaces@.len() && #[trigger] self.surfaces@[k].output_name@ == n;
                        assert(before[k].output_name@ == n);
                    }
                }
                assert(self.surfaces@[i as int].output_name@ == output_name@);
            },
            None => {
                self.surfaces.push(entry);
                let n0 = self.surfaces.len() - 1;
                assert(self.surfaces@[n0 as int].output_name@ == output_name@);
                assert forall|n: Seq<char>| n != output_name@ implies #[trigger] self.surface_size(n) == old(self).surface_size(n) by {
                    if exists|j: int| 0 <= j < before.len() && #[trigger] before[j].output_name@ == n {
                        let j = choose|j: int| 0 <= j < before.len() && #[trigger] before[j].output_name@ == n;
                        assert(self.surfaces@[j].output_name@ == n);
                    }
                    if exists|j: int| 0 <= j < self.surfaces@.len() && #[trigger] self.surfaces@[j].output_name@ == n {
                        let k = choose|k: int| 0 <= k < self.surfaces@.len() && #[trigger] self.surfaces@[k].output_name@ == n;
                        assert(k < before.len());
                        assert(before[k].output_name@ == n);
                    }
                }
            },
        }
        proof {
            let k = choose|k: int| 0 <= k < self.surfaces@.len() && #[trigger] self.surfaces@[k].output_name@ == output_name@;
            assert forall|a: int, b: int| 0 <= a < b < self.surfaces@.len() implies #[trigger] self.surfaces@[a].output_name@ != #[trigger] self.surfaces@[b].output_name@ by {
                if a < before.len() && b < before.len() {
                    if self.surfaces@[a] != before[a] {
                        assert(before[a].output_name@ == output_name@);
                        assert(before[b].output_name@ != before[a].output_name@);
                    } else if self.surfaces@[b] != before[b] {
                        assert(before[b].output_name@ == output_name@);
                        assert(before[b].output_name@ != before[a].output_name@);
                    }
                }
            }
            assert(self.surfaces@[k].output_name@ == output_name@);
        }
        Ok(format)
    }



    /// Build the shared pipeline for `surface_format` once; later calls do nothing.
    pub fn init_image_pipeline(&mut self, surface_format: u32) -> (r: Result<(), RenderError>)
        ensures
            old(self).pipeline_ready ==> r is Ok && final(self).gpu_log == old(self).gpu_log,
            !old(self).pipeline_ready ==> final(self).gpu_log@ == old(self).gpu_log@.push(GpuCall::InitPipeline(surface_format)),
            final(self).pipeline_ready == (old(self).pipeline_ready || r is Ok),
            r is Err ==> r->Err_0 is Gpu,
            final(self).texture_cache@ == old(self).texture_cache@,
            final(self).preloaded@ == old(self).preloaded@,
            final(self).blank_cache@ == old(self).blank_cache@,
            final(self).bind_group_cache@ == old(self).bind_group_cache@,
            final(self).metrics == old(self).metrics,
            final(self).surfaces@ == old(self).surfaces@,
            final(self).in_flight@ == old(self).in_flight@,
            final(self).outbox@ == old(self).outbox@,
    {
        if self.pipeline_ready {
            return Ok(());
        }
        let res = self.gpu.init_pipeline(surface_format);
        self.gpu_log = Ghost(self.gpu_log@.push(GpuCall::InitPipeline(surface_format)));
        match res {
            Ok(()) => {
                self.pipeline_ready = true;
                Ok(())
            },
            Err(e) => Err(RenderError::Gpu(e)),
        }
    }

    fn is_in_flight(&self, key: &ImageKey) -> (r: bool)
        ensures
            r == self.in_flight_keys().contains(key@),
    {
        let mut i: usize = 0;
        while i < self.in_flight.len()
            invariant
                i <= self.in_flight@.len(),
                forall|j: int| 0 <= j < i ==> #[trigger] self.in_flight@[j]@ != key@,
            decreases self.in_flight@.len() - i,
        {
            if self.in_flight[i].same(key) {
                assert(image_keys_of(self.in_flight@)[i as int] == key@);
                return true;
            }
            i = i + 1;
        }
        proof {
            if image_keys_of(self.in_flight@).contains(key@) {
                let j = choose|j: int| 0 <= j < image_keys_of(self.in_flight@).len() && image_keys_of(self.in_flight@)[j] == key@;
                assert(self.in_flight@[j]@ == key@);
            }
        }
        false
    }

    /// Queue a background decode of the image unless it is resident (requested
    /// or decoded already) or queued; answers whether a request was queued.
    pub fn request_texture_load(&mut self, image_path: &String, target_size: (u32, u32), output_name: String) -> (r: bool)
        ensures
            r == !(old(self).image_keys().contains(image_key_of(image_path@, target_size))
                || old(self).preloaded_keys().contains(image_key_of(image_path@, target_size))
                || old(self).in_flight_keys().contains(image_key_of(image_path@, target_size))),
            r ==> final(self).in_flight_keys() == old(self).in_flight_keys().insert(image_key_of(image_path@, target_size)),
            r ==> final(self).outbox@.len() == old(self).outbox@.len() + 1
                && final(self).outbox@.last().image_path@ == image_path@
                && final(self).outbox@.last().target_size == target_size
                && final(self).outbox@.drop_last() == old(self).outbox@,
            !r ==> final(self).in_flight@ == old(self).in_flight@ && final(self).outbox@ == old(self).outbox@,
            final(self).image_keys().contains(image_key_of(image_path@, target_size))
                || final(self).preloaded_keys().contains(image_key_of(image_path@, target_size))
                || final(self).in_flight_keys().contains(image_key_of(image_path@, target_size)),
            final(self).texture_cache@ == old(self).texture_cache@,
            final(self).preloaded@ == old(self).preloaded@,
            final(self).blank_cache@ == old(self).blank_cache@,
            final(self).bind_group_cache@ == old(self).bind_group_cache@,
            final(self).metrics == old(self).metrics,
            final(self).gpu_log == old(self).gpu_log,
            final(self).pipeline_ready == old(self).pipeline_ready,
            final(self).surfaces@ == old(self).surfaces@,
    {
        let key = ImageKey::new(image_path, target_size);
        if self.find_texture(&key).is_some() || self.find_preloaded(&key).is_some() || self.is_in_flight(&key) {
            return false;
        }
        let ghost before = self.in_flight@;
        let ghost k = key@;
        self.in_flight.push(key);
        proof {
            let s0 = image_keys_of(before);
            assert(image_keys_of(self.in_flight@) =~= s0.push(k));
            assert forall|y| #[trigger] s0.push(k).to_set().contains(y) <==> s0.to_set().insert(k).contains(y) by {
                if s0.push(k).contains(y) {
                    let j = choose|j: int| 0 <= j < s0.push(k).len() && s0.push(k)[j] == y;
                    if j < s0.len() {
                        assert(s0[j] == y);
                    }
                }
                if s0.contains(y) {
                    let j = choose|j: int| 0 <= j < s0.len() && s0[j] == y;
                    assert(s0.push(k)[j] == y);
                }
                if y == k {
                    assert(s0.push(k)[s0.len() as int] == y);
                }
            }
            assert(s0.push(k).to_set() =~= s0.to_set().insert(k));
        }
        let ghost ob = self.outbox@;
        self.outbox.push(TextureLoadRequest { image_path: image_path.clone(), target_size, output_name });
        assert(self.outbox@.drop_last() =~= ob);
        true
    }

    /// Hand over the queued decode requests, oldest first.
    pub fn take_requests(&mut self) -> (r: Vec<TextureLoadRequest>)
        ensures
            r@ == old(self).outbox@,
            final(self).outbox@.len() == 0,
            final(self).in_flight@ == old(self).in_flight@,
            final(self).texture_cache@ == old(self).texture_cache@,
            final(self).preloaded@ == old(self).preloaded@,
            final(self).blank_cache@ == old(self).blank_cache@,
            final(self).bind_group_cache@ == old(self).bind_group_cache@,
            final(self).metrics == old(self).metrics,
            final(self).gpu_log == old(self).gpu_log,
            final(self).pipeline_ready == old(self).pipeline_ready,
            final(self).surfaces@ == old(self).surfaces@,
    {
        let mut out: Vec<TextureLoadRequest> = Vec::new();
        std::mem::swap(&mut out, &mut self.outbox);
        out
    }

    fn forget_in_flight(&mut self, key: &ImageKey)
        ensures
            final(self).in_flight_keys() == old(self).in_flight_keys().remove(key@),
            final(self).texture_cache@ == old(self).texture_cache@,
            final(self).preloaded@ == old(self).preloaded@,
            final(self).gpu_log == old(self).gpu_log,
            final(self).blank_cache@ == old(self).blank_cache@,
            final(self).bind_group_cache@ == old(self).bind_group_cache@,
            final(self).metrics == old(self).metrics,
            final(self).pipeline_ready == old(self).pipeline_ready,
            final(self).surfaces@ == old(self).surfaces@,
            final(self).outbox@ == old(self).outbox@,
    {
        let mut kept: Vec<ImageKey> = Vec::new();
        let mut i: usize = 0;
        while i < self.in_flight.len()
            invariant
                i <= self.in_flight@.len(),
                forall|y| #[trigger] image_keys_of(kept@).contains(y) <==> (y != key@ && image_keys_of(self.in_flight@.subrange(0, i as int)).contains(y)),
            decreases self.in_flight@.len() - i,
        {
            let ghost pre_kept = kept@;
            let ghost x = self.in_flight@[i as int]@;
            if !self.in_flight[i].same(key) {
                kept.push(self.in_flight[i].duplicate());
            }
            proof {
                let a = image_keys_of(self.in_flight@.subrange(0, i as int));
                let b = image_keys_of(self.in_flight@.subrange(0, i as int + 1));
                assert(b =~= a.push(x));
                if x != key@ {
                    assert(image_keys_of(kept@) =~= image_keys_of(pre_kept).push(x));
                } else {
                    assert(kept@ == pre_kept);
                }
                assert forall|y| #[trigger] image_keys_of(kept@).contains(y) <==> (y != key@ && b.contains(y)) by {
                    if b.contains(y) {
                        let j = choose|j: int| 0 <= j < b.len() && b[j] == y;
                        if j < a.len() {
                            assert(a[j] == y);
                        }
                    }
                    if a.contains(y) {
                        let j = choose|j: int| 0 <= j < a.len() && a[j] == y;
                        assert(b[j] == y);
                    }
                    if x != key@ {
                        let s0 = image_keys_of(pre_kept);
                        if s0.push(x).contains(y) {
                            let j = choose|j: int| 0 <= j < s0.push(x).len() && s0.push(x)[j] == y;
                            if j < s0.len() {
                                assert(s0[j] == y);
                            }
                        }
                        if s0.contains(y) {
                            let j = choose|j: int| 0 <= j < s0.len() && s0[j] == y;
                            assert(s0.push(x)[j] == y);
                        }
                        if y == x {
                            assert(s0.push(x)[s0.len() as int] == y);
                        }
                    }
                    if y == x {
                        assert(b[a.len() as int] == y);
                    }
                }
            }
            i = i + 1;
        }
        assert(self.in_flight@.subrange(0, self.in_flight@.len() as int) =~= self.in_flight@);
        self.in_flight = kept;
        assert(self.in_flight_keys() =~= old(self).in_flight_keys().remove(key@));
    }

    /// Take one result of the decode worker. Its key leaves the keys in flight.
    /// A failed decode, or a key resident meanwhile, is dropped and the
    /// resident texture kept. Otherwise the pixels go to the GPU layer and,
    /// when the upload works, the texture is kept as background-decoded.
    /// Answers whether it was kept.
    pub fn accept_decoded(&mut self, result: TextureLoadResult) -> (r: bool)
        requires
            old(self).wf(),
        ensures
            final(self).wf(),
            final(self).in_flight_keys() == old(self).in_flight_keys().remove(result.key@),
            final(self).texture_cache@ == old(self).texture_cache@,
            result.decoded is None || old(self).image_keys().contains(result.key@)
                || old(self).preloaded_keys().contains(result.key@) ==> {
                &&& !r
                &&& final(self).preloaded@ == old(self).preloaded@
                &&& final(self).gpu_log == old(self).gpu_log
            },
            !(result.decoded is None || old(self).image_keys().contains(result.key@)
                || old(self).preloaded_keys().contains(result.key@)) ==> {
                &&& final(self).gpu_log@ == old(self).gpu_log@.push(GpuCall::UploadPixels(
                    result.key@,
                    (result.decoded->0).1,
                ))
                &&& r ==> final(self).preloaded_keys() == old(self).preloaded_keys().insert(result.key@)
                    && final(self).preloaded@.len() == old(self).preloaded@.len() + 1
                &&& !r ==> final(self).preloaded@ == old(self).preloaded@
            },
            final(self).blank_cache@ == old(self).blank_cache@,
            final(self).bind_group_cache@ == old(self).bind_group_cache@,
            final(self).metrics == old(self).metrics,
            final(self).pipeline_ready == old(self).pipeline_ready,
            final(self).surfaces@ == old(self).surfaces@,
            final(self).outbox@ == old(self).outbox@,
    {
        self.forget_in_flight(&result.key);
        let TextureLoadResult { key, decoded } = result;
        match decoded {
            None => false,
            Some((pixels, dims)) => {
                if self.find_texture(&key).is_some() || self.find_preloaded(&key).is_some() {
                    return false;
                }
                let res = self.gpu.upload_pixels(&pixels, dims.0, dims.1);
                self.gpu_log = Ghost(self.gpu_log@.push(GpuCall::UploadPixels(key@, dims)));
                match res {
                    Ok(t) => {
                        let ghost before = self.preloaded@;
                        let ghost k = key@;
                        self.preloaded.push((key, t));
                        proof {
                            assert(keys_of(self.preloaded@) =~= keys_of(before).push(k));
                            lemma_push_unique(keys_of(before), k);
                        }
                        true
                    },
                    Err(_) => false,
                }
            },
        }
    }

    /// Take the results of the decode worker in order, as `accept_decoded`
    /// does; answers how many textures were kept.
    pub fn process_loaded_textures(&mut self, results: Vec<TextureLoadResult>) -> (r: usize)
        requires
            old(self).wf(),
        ensures
            final(self).wf(),
            final(self).texture_cache@ == old(self).texture_cache@,
            old(self).preloaded_keys().subset_of(final(self).preloaded_keys()),
            forall|k| #[trigger] final(self).preloaded_keys().contains(k) && !old(self).preloaded_keys().contains(k)
                ==> exists|i: int| 0 <= i < results@.len() && results@[i].key@ == k && results@[i].decoded is Some,
            r == final(self).preloaded@.len() - old(self).preloaded@.len(),
            final(self).metrics == old(self).metrics,
            final(self).blank_cache@ == old(self).blank_cache@,
            final(self).bind_group_cache@ == old(self).bind_group_cache@,
            final(self).pipeline_ready == old(self).pipeline_ready,
            final(self).surfaces@ == old(self).surfaces@,
            final(self).outbox@ == old(self).outbox@,
    {
        let start_len = self.preloaded.len();
        let mut results = results;
        let ghost all = results@;
        let mut rest: Vec<TextureLoadResult> = Vec::new();
        // reverse, so that popping hands them out oldest first
        while results.len() > 0
            invariant
                results@.len() <= all.len(),
                forall|j: int| 0 <= j < results@.len() ==> #[trigger] results@[j] == all[j],
                forall|j: int| 0 <= j < rest@.len() ==> all.contains(#[trigger] rest@[j]),
            decreases results@.len(),
        {
            let ghost last = results@.len() - 1;
            let x = results.pop().unwrap();
            assert(x == all[last]);
            let ghost pre_rest = rest@;
            rest.push(x);
            assert forall|j: int| 0 <= j < rest@.len() implies all.contains(#[trigger] rest@[j]) by {
                if j < pre_rest.len() {
                    assert(rest@[j] == pre_rest[j]);
                } else {
                    assert(all[last] == rest@[j]);
                }
            }
        }
        while rest.len() > 0
            invariant
                self.wf(),
                self.texture_cache@ == old(self).texture_cache@,
                old(self).preloaded_keys().subset_of(self.preloaded_keys()),
                forall|k| #[trigger] self.preloaded_keys().contains(k) && !old(self).preloaded_keys().contains(k)
                    ==> exists|i: int| 0 <= i < all.len() && all[i].key@ == k && all[i].decoded is Some,
                self.preloaded@.len() >= old(self).preloaded@.len(),
                start_len == old(self).preloaded@.len(),
                forall|j: int| 0 <= j < rest@.len() ==> all.contains(#[trigger] rest@[j]),
                self.metrics == old(self).metrics,
                self.blank_cache@ == old(self).blank_cache@,
                self.bind_group_cache@ == old(self).bind_group_cache@,
                self.pipeline_ready == old(self).pipeline_ready,
                self.surfaces@ == old(self).surfaces@,
                self.outbox@ == old(self).outbox@,
            decreases rest@.len(),
        {
            let ghost before = self.preloaded_keys();
            let ghost last = rest@.len() - 1;
            let x = rest.pop().unwrap();
            let ghost xk = x.key@;
            let ghost xs = x.decoded is Some;
            assert(all.contains(rest@.push(x)[last]));
            let ghost i = choose|i: int| 0 <= i < all.len() && all[i] == x;
            let kept = self.accept_decoded(x);
            proof {
                assert forall|k| #[trigger] self.preloaded_keys().contains(k) && !old(self).preloaded_keys().contains(k)
                    implies exists|i: int| 0 <= i < all.len() && all[i].key@ == k && all[i].decoded is Some by {
                    if !before.contains(k) {
                        assert(k == xk && xs);
                        assert(all[i].key@ == k && all[i].decoded is Some);
                    }
                }
            }
        }
        self.preloaded.len() - start_len
    }

    /// Draw one frame on the output: make both textures resident (the black
    /// placeholder stands in when there is no previous image), get the bind
    /// group of the pair, write the parameters, draw and present, and count the
    /// frame. Fails without any change when the pipeline is not built or the
    /// output's surface was never configured.
    pub fn render_frame(
        &mut self,
        output_name: &String,
        previous_image: Option<&String>,
        current_image: &String,
        progress: Fraction,
        transition_type: u32,
        direction: (i32, i32),
    ) -> (r: Result<(), RenderError>)
        requires
            old(self).wf(),
            old(self).surfaces_wf(),
        ensures
            final(self).wf(),
            final(self).surfaces_wf(),
            !old(self).pipeline_ready || old(self).surface_size(output_name@) is None ==> {
                &&& r == Err::<(), RenderError>(if !old(self).pipeline_ready {
                    RenderError::PipelineNotReady
                } else {
                    RenderError::SurfaceNotConfigured
                })
                &&& final(self).metrics == old(self).metrics
                &&& final(self).texture_cache@ == old(self).texture_cache@
                &&& final(self).preloaded@ == old(self).preloaded@
                &&& final(self).blank_cache@ == old(self).blank_cache@
                &&& final(self).bind_group_cache@ == old(self).bind_group_cache@
                &&& final(self).gpu_log == old(self).gpu_log
            },
            r is Ok ==> {
                let size = old(self).surface_size(output_name@)->0;
                let prev = previous_key_of(opt_str_view(previous_image), size);
                let cur = TextureKeyModel::Image(image_key_of(current_image@, size));
                let log = final(self).gpu_log@;
                &&& old(self).surface_size(output_name@) is Some
                &&& final(self).image_keys().contains(image_key_of(current_image@, size))
                &&& texture_present(final(self).image_keys(), final(self).blank_keys(), prev)
                &&& final(self).pair_keys().contains((prev, cur))
                &&& log.len() >= 2
                &&& log[log.len() - 2] == GpuCall::WriteParams(progress, transition_type, direction)
                &&& log[log.len() - 1] == GpuCall::Draw(output_name@, prev, cur)
                &&& final(self).metrics.total_frames_rendered == bump(old(self).metrics.total_frames_rendered)
            },
            r is Err ==> final(self).metrics.total_frames_rendered == old(self).metrics.total_frames_rendered,
            old(self).image_keys().subset_of(final(self).image_keys()),
            old(self).pair_keys().subset_of(final(self).pair_keys()),
            final(self).pipeline_ready == old(self).pipeline_ready,
            final(self).surfaces@ == old(self).surfaces@,
            final(self).in_flight@ == old(self).in_flight@,
            final(self).outbox@ == old(self).outbox@,
    {
        if !self.pipeline_ready {
            return Err(RenderError::PipelineNotReady);
        }
        let size = match self.find_surface(output_name) {
            Some(i) => (self.surfaces[i].width, self.surfaces[i].height),
            None => {
                return Err(RenderError::SurfaceNotConfigured);
            },
        };
        self.load_image_texture(current_image, size)?;
        let ghost keys_after_current = self.image_keys();
        let previous_key = match previous_image {
            Some(p) => {
                self.load_image_texture(p, size)?;
                TextureKey::Image(ImageKey::new(p, size))
            },
            None => self.get_or_create_dummy_texture(size)?,
        };
        assert(keys_after_current.subset_of(self.image_keys()));
        let current_key = TextureKey::Image(ImageKey::new(current_image, size));
        self.get_or_create_bind_group(&previous_key, &current_key)?;
        self.update_transition_params(progress, transition_type, direction)?;
        let drawn = match self.find_bind_group(&previous_key, &current_key) {
            Some(i) => {
                let res = self.gpu.draw(output_name, &self.bind_group_cache[i].2);
                self.gpu_log = Ghost(self.gpu_log@.push(GpuCall::Draw(output_name@, previous_key@, current_key@)));
                match res {
                    Ok(()) => Ok(()),
                    Err(e) => Err(RenderError::Gpu(e)),
                }
            },
            None => Err(RenderError::MissingTexture),
        };
        match drawn {
            Ok(()) => {
                self.metrics.total_frames_rendered = inc(self.metrics.total_frames_rendered);
                Ok(())
            },
            Err(e) => Err(e),
        }
    }


    /// Number of cached image textures.
    pub fn texture_cache_size(&self) -> (r: usize)
        ensures
            r == self.texture_cache@.len(),
    {
        self.texture_cache.len()
    }

    pub open spec fn get_metrics_data_spec(&self) -> GpuMetricsData {
        GpuMetricsData {
            texture_cache_size: self.texture_cache@.len() as usize,
            texture_cache_hits: self.metrics.texture_cache_hits,
            texture_cache_misses: self.metrics.texture_cache_misses,
            bind_group_cache_size: self.bind_group_cache@.len() as usize,
            bind_group_cache_hits: self.metrics.bind_group_cache_hits,
            bind_group_cache_misses: self.metrics.bind_group_cache_misses,
            total_textures_loaded: self.metrics.total_textures_loaded,
            total_frames_rendered: self.metrics.total_frames_rendered,
        }
    }

    /// The counters as the control socket reports them.
    pub fn get_metrics_data(&self) -> (r: GpuMetricsData)
        ensures
            r == self.get_metrics_data_spec(),
            r == (GpuMetricsData {
                texture_cache_size: self.texture_cache@.len() as usize,
                texture_cache_hits: self.metrics.texture_cache_hits,
                texture_cache_misses: self.metrics.texture_cache_misses,
                bind_group_cache_size: self.bind_group_cache@.len() as usize,
                bind_group_cache_hits: self.metrics.bind_group_cache_hits,
                bind_group_cache_misses: self.metrics.bind_group_cache_misses,
                total_textures_loaded: self.metrics.total_textures_loaded,
                total_frames_rendered: self.metrics.total_frames_rendered,
            }),
    {
        GpuMetricsData {
            texture_cache_size: self.texture_cache.len(),
            texture_cache_hits: self.metrics.texture_cache_hits,
            texture_cache_misses: self.metrics.texture_cache_misses,
            bind_group_cache_size: self.bind_group_cache.len(),
            bind_group_cache_hits: self.metrics.bind_group_cache_hits,
            bind_group_cache_misses: self.metrics.bind_group_cache_misses,
            total_textures_loaded: self.metrics.total_textures_loaded,
            total_frames_rendered: self.metrics.total_frames_rendered,
        }
    }

    /// The figures of the periodic metrics log line.
    pub fn log_gpu_metrics(&self) -> (r: MetricsReport)
        ensures
            r.metrics == self.metrics,
            r.texture_cache_size == self.texture_cache@.len(),
            r.bind_group_cache_size == self.bind_group_cache@.len(),
    {
        self.metrics.log_metrics(self.texture_cache.len(), self.bind_group_cache.len())
    }

    /// Every texture upload made by the engine is a distinct (path, size) pair
    /// that is still cached: the load counter equals the number of such pairs.
    pub proof fn lemma_uploads_match_distinct_keys(&self)
        requires
            self.wf(),
        ensures
            self.metrics.total_textures_loaded == self.image_keys().len(),
    {
        keys_of(self.texture_cache@).unique_seq_to_set();
    }
}

impl GpuMetrics {
    pub open spec fn new_spec() -> GpuMetrics {
        GpuMetrics {
            texture_cache_hits: 0,
            texture_cache_misses: 0,
            bind_group_cache_hits: 0,
            bind_group_cache_misses: 0,
            total_textures_loaded: 0,
            total_frames_rendered: 0,
        }
    }
}

} // verus!
