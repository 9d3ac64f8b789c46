//! Per-output state: the image list and its cursor, visibility, the advance
//! flag, dimensions and the active transition. Also the periodic wake-up.
use crate::config::{opt_output_view, OutputConfig};
use crate::transition::TransitionData;
use vstd::prelude::*;

verus! {

/// Index that follows `index` in a list of `len` images; the first render
/// always uses the first image.
pub open spec fn next_index_spec(first_configure: bool, index: int, len: int) -> int {
    if first_configure {
        0
    } else if index == len - 1 {
        0
    } else {
        index + 1
    }
}

/// Index reached after advancing `k` times from `index`, past the first render.
pub open spec fn index_after(index: int, len: int, k: nat) -> int
    decreases k,
{
    if k == 0 {
        index
    } else {
        next_index_spec(false, index_after(index, len, (k - 1) as nat), len)
    }
}

/// Index that precedes `index`, wrapping to the last image at zero.
pub open spec fn previous_index_spec(index: int, len: int) -> int {
    if index == 0 {
        len - 1
    } else {
        index - 1
    }
}

/// Advancing a list of `len` images `len` times from the first image returns to
/// it; every count below `len` lands on that many images further.
pub proof fn lemma_circular_advance(len: nat)
    requires
        len > 0,
    ensures
        index_after(0, len as int, len) == 0,
        forall|k: nat| k < len ==> #[trigger] index_after(0, len as int, k) == k,
{
    assert forall|k: nat| k < len implies #[trigger] index_after(0, len as int, k) == k by {
        lemma_index_after_prefix(len, k);
    }
    lemma_index_after_prefix(len, (len - 1) as nat);
}

proof fn lemma_index_after_prefix(len: nat, k: nat)
    requires
        k < len,
    ensures
        index_after(0, len as int, k) == k,
    decreases k,
{
    if k > 0 {
        lemma_index_after_prefix(len, (k - 1) as nat);
    }
}

/// Wake-up event of an output's timer source.
#[derive(Clone, Copy, Debug, PartialEq, Eq, Structural)]
pub enum DrawSourceEvent {
    /// The timer fired; it carries the deadline it was armed for.
    TimerTrigger(u64),
    /// An explicit ping.
    PingTrigger,
}

impl DrawSourceEvent {
    /// The instant the next deadline counts from: the previous deadline for
    /// a timer, `now_ms` for a ping.
    pub fn get_last_deadline(&self, now_ms: u64) -> (r: u64)
        ensures
            r == match *self {
                DrawSourceEvent::TimerTrigger(t) => t,
                DrawSourceEvent::PingTrigger => now_ms,
            },
    {
        match self {
            DrawSourceEvent::TimerTrigger(t) => *t,
            DrawSourceEvent::PingTrigger => now_ms,
        }
    }

    /// The next deadline: one period after the last one, so that drift does
    /// not add up. Saturates at the end of the clock.
    pub fn next_deadline(&self, now_ms: u64, period_ms: u64) -> (r: u64)
        ensures
            r == if self.get_last_deadline_spec(now_ms) + period_ms <= u64::MAX {
                (self.get_last_deadline_spec(now_ms) + period_ms) as u64
            } else {
                u64::MAX
            },
    {
        let last = self.get_last_deadline(now_ms);
        if last <= u64::MAX - period_ms {
            last + period_ms
        } else {
            u64::MAX
        }
    }

    pub open spec fn get_last_deadline_spec(&self, now_ms: u64) -> u64 {
        match *self {
            DrawSourceEvent::TimerTrigger(t) => t,
            DrawSourceEvent::PingTrigger => now_ms,
        }
    }
}

/// State of one physical output.
#[derive(Debug)]
pub struct OutputRepr {
    pub output_name: String,
    pub output_config: Option<OutputConfig>,
    pub dimensions: Option<(u32, u32)>,
    /// Set until the first configure of the surface is handled.
    pub first_configure: bool,
    pub index: usize,
    pub img_list: Vec<String>,
    pub visible: bool,
    pub should_next: bool,
    pub last_render_instant: u64,
    pub transition: Option<TransitionData>,
    pub created_at: u64,
    pub frame_count: u64,
    /// The periodic wake-up exists (armed on the first configure).
    pub timer_armed: bool,
}

impl OutputRepr {
    /// The cursor stays inside the list, or at zero when the list is empty.
    pub open spec fn wf(&self) -> bool {
        self.index < self.img_list@.len() || self.index == 0
    }

    /// A freshly added output, positioned on its first image.
    pub fn new(
        output_name: String,
        output_config: Option<OutputConfig>,
        img_list: Vec<String>,
        now_ms: u64,
    ) -> (r: Self)
        ensures
            r.wf(),
            r.output_name == output_name,
            opt_output_view(r.output_config) == opt_output_view(output_config),
            r.img_list@ == img_list@,
            r.index == 0,
            r.first_configure,
            r.visible,
            !r.should_next,
            r.dimensions is None,
            r.transition is None,
            r.frame_count == 0,
            r.created_at == now_ms,
            r.last_render_instant == now_ms,
            !r.timer_armed,
    {
        OutputRepr {
            output_name,
            output_config,
            dimensions: None,
            first_configure: true,
            index: 0,
            img_list,
            visible: true,
            should_next: false,
            last_render_instant: now_ms,
            transition: None,
            created_at: now_ms,
            frame_count: 0,
            timer_armed: false,
        }
    }

    /// Replace the output's settings.
    pub fn update_config(&mut self, new_config: OutputConfig)
        ensures
            opt_output_view(final(self).output_config) == Some(new_config@),
            final(self).index == old(self).index,
            final(self).img_list@ == old(self).img_list@,
            final(self).first_configure == old(self).first_configure,
            final(self).visible == old(self).visible,
    {
        self.output_config = Some(new_config);
    }

    /// Index of the image after the current one, without moving the cursor.
    fn get_next_index(&self) -> (r: usize)
        requires
            self.img_list@.len() > 0,
            self.first_configure || self.index < self.img_list@.len(),
        ensures
            r == next_index_spec(self.first_configure, self.index as int, self.img_list@.len() as int),
            r < self.img_list@.len(),
    {
        if self.first_configure {
            return 0;
        }
        if self.index == self.img_list.len() - 1 {
            0
        } else {
            self.index + 1
        }
    }

    /// Move to the next image and return it: the first image while the first
    /// configure is pending, else the one after the cursor, wrapping at the end.
    pub fn next(&mut self) -> (r: String)
        requires
            old(self).img_list@.len() > 0,
            old(self).first_configure || old(self).index < old(self).img_list@.len(),
        ensures
            final(self).index == next_index_spec(
                old(self).first_configure,
                old(self).index as int,
                old(self).img_list@.len() as int,
            ),
            r@ == old(self).img_list@[final(self).index as int]@,
            final(self).wf(),
            final(self).img_list@ == old(self).img_list@,
            final(self).first_configure == old(self).first_configure,
            final(self).output_name == old(self).output_name,
            final(self).visible == old(self).visible,
            final(self).should_next == old(self).should_next,
            final(self).dimensions == old(self).dimensions,
            final(self).frame_count == old(self).frame_count,
            opt_output_view(final(self).output_config) == opt_output_view(old(self).output_config),
            final(self).transition == old(self).transition,
            final(self).last_render_instant == old(self).last_render_instant,
    {
        self.index = self.get_next_index();
        self.img_list[self.index].clone()
    }

    /// The image `next` would move to.
    pub fn peek_next_img(&self) -> (r: String)
        requires
            self.img_list@.len() > 0,
            self.first_configure || self.index < self.img_list@.len(),
        ensures
            r@ == self.img_list@[next_index_spec(
                self.first_configure,
                self.index as int,
                self.img_list@.len() as int,
            )]@,
    {
        self.img_list[self.get_next_index()].clone()
    }

    /// Position of the image on screen: the first image until the first
    /// configure is handled, the cursor afterwards.
    pub open spec fn current_index_spec(&self) -> int {
        if self.first_configure && self.img_list@.len() > 0 {
            0
        } else {
            self.index as int
        }
    }

    /// The image on screen, if any.
    pub open spec fn current_spec(&self) -> Option<Seq<char>> {
        if 0 <= self.current_index_spec() < self.img_list@.len() {
            Some(self.img_list@[self.current_index_spec()]@)
        } else {
            None
        }
    }

    /// The image on screen: the first one until the first configure is
    /// handled, whatever the cursor; afterwards the one under the cursor, if
    /// the list has one there.
    pub fn current_img(&self) -> (r: Option<String>)
        ensures
            match r {
                Some(s) => self.current_spec() == Some(s@),
                None => self.current_spec() is None,
            },
            self.first_configure && self.img_list@.len() > 0 ==> r is Some && r->0@ == self.img_list@[0]@,
    {
        if self.first_configure && self.img_list.len() > 0 {
            Some(self.img_list[0].clone())
        } else if self.index < self.img_list.len() {
            Some(self.img_list[self.index].clone())
        } else {
            None
        }
    }

    /// The image shown before the current one, if any.
    pub open spec fn previous_spec(&self) -> Option<Seq<char>> {
        if self.first_configure || self.img_list@.len() == 0 {
            None
        } else {
            let p = previous_index_spec(self.index as int, self.img_list@.len() as int);
            if 0 <= p < self.img_list@.len() {
                Some(self.img_list@[p]@)
            } else {
                None
            }
        }
    }

    /// The image shown before the current one: none before the first render,
    /// else the one before the cursor, the last image when the cursor is at zero.
    pub fn previous_img(&self) -> (r: Option<String>)
        ensures
            self.first_configure ==> r is None,
            !self.first_configure && self.img_list@.len() > 0 && self.index < self.img_list@.len() ==> r
                is Some && r->0@ == self.img_list@[previous_index_spec(
                self.index as int,
                self.img_list@.len() as int,
            )]@,
            !self.first_configure && self.img_list@.len() == 0 ==> r is None,
            match r {
                Some(s) => self.previous_spec() == Some(s@),
                None => self.previous_spec() is None,
            },
    {
        if self.first_configure {
            return None;
        }
        if self.img_list.len() == 0 {
            return None;
        }
        let prev = if self.index == 0 {
            self.img_list.len() - 1
        } else {
            self.index - 1
        };
        if prev < self.img_list.len() {
            Some(self.img_list[prev].clone())
        } else {
            None
        }
    }

    /// Flip the visibility flag.
    pub fn toggle_visible(&mut self)
        ensures
            final(self).visible == !old(self).visible,
            final(self).index == old(self).index,
            final(self).img_list@ == old(self).img_list@,
            final(self).first_configure == old(self).first_configure,
            final(self).output_name == old(self).output_name,
            final(self).should_next == old(self).should_next,
            opt_output_view(final(self).output_config) == opt_output_view(old(self).output_config),
    {
        self.visible = !self.visible;
    }
}

} // verus!
