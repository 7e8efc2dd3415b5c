use vstd::prelude::*;
use vstd::string::StringExecFns;
use crate::atlas::{AtlasDescriptor, region_in};
use crate::geometry::Rectangle;

verus! {

/// Milliseconds between two ticks of a running loop.
pub const TICK_INTERVAL_MS: i32 = 50;

/// Width and height of the drawing surface that each tick clears.
pub const SURFACE_SIZE: u16 = 600;

/// Where on the surface each frame is drawn (both coordinates).
pub const TARGET_ORIGIN: u16 = 300;

/// Frame count of the walk cycle in the bundled sprite sheet.
pub const RUN_FRAMES: u32 = 8;

/// The decimal digit `d` as a character.
pub open spec fn digit_char(d: int) -> char {
    "0123456789"@[d]
}

/// Decimal notation of `n`, without leading zeros.
pub open spec fn decimal(n: nat) -> Seq<char>
    decreases n,
{
    if n < 10 {
        seq![digit_char(n as int)]
    } else {
        decimal(n / 10) + seq![digit_char((n % 10) as int)]
    }
}

/// Name of the atlas frame shown at 0-based index `i`: `Run (<i + 1>).png`.
pub open spec fn frame_name_spec(i: nat) -> Seq<char> {
    "Run ("@ + decimal(i + 1) + ").png"@
}

/// The index shown after `cur` in a cycle of `n` frames; `None` is the
/// position before the first frame.
pub open spec fn next_index(cur: Option<nat>, n: nat) -> nat {
    match cur {
        None => 0,
        Some(c) => ((c + 1) % n) as nat,
    }
}

/// The index shown at the `k`-th tick (counting from 1) of a fresh loop.
pub open spec fn index_at_tick(k: nat, n: nat) -> nat
    decreases k,
{
    if k <= 1 {
        next_index(None, n)
    } else {
        next_index(Some(index_at_tick((k - 1) as nat, n)), n)
    }
}

/// Lifecycle of an animation loop.
#[derive(Clone, Copy, Debug, PartialEq, Eq, Structural)]
pub enum LoopState {
    /// Resources are loaded; no tick has been scheduled.
    Idle,
    /// Ticks are scheduled and draw frames.
    Running,
    /// Ticks were cancelled; any tick that still arrives draws nothing.
    Stopped,
}

/// What the host should draw for one tick: clear `clear`, then copy
/// `source` of the sprite sheet into `target` on the surface.
#[derive(Clone, Copy, Debug, PartialEq, Eq, Structural)]
pub struct DrawPlan {
    pub clear: Rectangle,
    pub source: Rectangle,
    pub target: Rectangle,
}

/// What one tick amounts to.
#[derive(Clone, Copy, Debug, PartialEq, Eq, Structural)]
pub enum TickAction {
    /// The loop is not running: draw nothing.
    Skip,
    /// Draw the frame at `index`.
    Draw { index: u32, plan: DrawPlan },
}

/// A frame name that the atlas lacks: the atlas and the naming scheme disagree.
#[derive(Clone, Debug, PartialEq, Eq)]
pub struct LookupError {
    pub name: String,
}

/// The drawing that shows the frame whose region is `source`.
pub open spec fn plan_for(source: Rectangle) -> DrawPlan {
    DrawPlan {
        clear: Rectangle { x: 0, y: 0, w: 600, h: 600 },
        source,
        target: Rectangle { x: 300, y: 300, w: source.w, h: source.h },
    }
}

/// The tick's result when the loop draws the frame at `index` from `atlas`.
pub open spec fn draw_result(index: nat, atlas: Map<Seq<char>, Rectangle>) -> Option<DrawPlan> {
    match region_in(atlas, frame_name_spec(index)) {
        Some(r) => Some(plan_for(r)),
        None => None,
    }
}

fn digit_str(d: u64) -> (r: &'static str)
    requires
        d < 10,
    ensures
        r@ == seq![digit_char(d as int)],
{
    proof {
        reveal_strlit("0123456789");
    }
    let r = match d {
        0 => "0",
        1 => "1",
        2 => "2",
        3 => "3",
        4 => "4",
        5 => "5",
        6 => "6",
        7 => "7",
        8 => "8",
        _ => "9",
    };
    proof {
        reveal_strlit("0");
        reveal_strlit("1");
        reveal_strlit("2");
        reveal_strlit("3");
        reveal_strlit("4");
        reveal_strlit("5");
        reveal_strlit("6");
        reveal_strlit("7");
        reveal_strlit("8");
        reveal_strlit("9");
        assert(r@ =~= seq![digit_char(d as int)]);
    }
    r
}

/// Decimal notation of `n`.
pub fn decimal_string(n: u64) -> (r: String)
    ensures
        r@ == decimal(n as nat),
    decreases n,
{
    if n < 10 {
        String::from_str(digit_str(n))
    } else {
        let head = decimal_string(n / 10);
        head.concat(digit_str(n % 10))
    }
}

/// Name of the atlas frame shown at 0-based index `index`.
pub fn frame_name(index: u32) -> (r: String)
    ensures
        r@ == frame_name_spec(index as nat),
{
    let digits = decimal_string(index as u64 + 1);
    let s = String::from_str("Run (");
    let s = s.concat(digits.as_str());
    s.concat(").png")
}

fn plan(source: Rectangle) -> (r: DrawPlan)
    ensures
        r == plan_for(source),
{
    DrawPlan {
        clear: Rectangle { x: 0, y: 0, w: SURFACE_SIZE, h: SURFACE_SIZE },
        source,
        target: Rectangle { x: TARGET_ORIGIN, y: TARGET_ORIGIN, w: source.w, h: source.h },
    }
}

/// The periodic frame advance: a frame counter over a cycle of frames, and
/// whether ticks are live.
#[derive(Clone, Debug)]
pub struct AnimationLoop {
    frame: Option<u32>,
    frame_count: u32,
    state: LoopState,
}

impl AnimationLoop {
    /// The frame shown last; `None` before the first tick.
    pub closed spec fn position(&self) -> Option<nat> {
        match self.frame {
            Some(f) => Some(f as nat),
            None => None,
        }
    }

    /// Number of frames in the cycle.
    pub closed spec fn count(&self) -> nat {
        self.frame_count as nat
    }

    /// Current lifecycle state.
    pub closed spec fn phase(&self) -> LoopState {
        self.state
    }

    /// The counter stays within the cycle, which is never empty.
    pub closed spec fn wf(&self) -> bool {
        &&& self.frame_count > 0
        &&& match self.frame {
            Some(f) => f < self.frame_count,
            None => true,
        }
    }

    /// An idle loop over `frame_count` frames, before its first frame.
    pub fn new(frame_count: u32) -> (r: AnimationLoop)
        requires
            frame_count > 0,
        ensures
            r.wf(),
            r.count() == frame_count,
            r.position() is None,
            r.phase() == LoopState::Idle,
    {
        AnimationLoop { frame: None, frame_count, state: LoopState::Idle }
    }

    /// Marks the loop as scheduled: from now on ticks draw.
    pub fn start(&mut self)
        requires
            old(self).wf(),
        ensures
            final(self).wf(),
            final(self).phase() == LoopState::Running,
            final(self).count() == old(self).count(),
            final(self).position() == old(self).position(),
    {
        self.state = LoopState::Running;
    }

    /// Cancels the loop: ticks that still arrive draw nothing.
    pub fn stop(&mut self)
        requires
            old(self).wf(),
        ensures
            final(self).wf(),
            final(self).phase() == LoopState::Stopped,
            final(self).count() == old(self).count(),
            final(self).position() == old(self).position(),
    {
        self.state = LoopState::Stopped;
    }

    /// Moves to the next frame of the cycle and returns its index.
    pub fn advance(&mut self) -> (r: u32)
        requires
            old(self).wf(),
        ensures
            final(self).wf(),
            r == next_index(old(self).position(), old(self).count()),
            r < old(self).count(),
            final(self).position() == Some(r as nat),
            final(self).count() == old(self).count(),
            final(self).phase() == old(self).phase(),
    {
        let next: u32 = match self.frame {
            None => 0,
            Some(f) => (f + 1) % self.frame_count,
        };
        self.frame = Some(next);
        next
    }

    /// One tick: if the loop is running, advance to the next frame and say
    /// how to draw it, or fail when the atlas lacks the frame's name.
    pub fn tick(&mut self, atlas: &AtlasDescriptor) -> (r: Result<TickAction, LookupError>)
        requires
            old(self).wf(),
        ensures
            final(self).wf(),
            final(self).count() == old(self).count(),
            final(self).phase() == old(self).phase(),
            old(self).phase() != LoopState::Running ==> r == Ok::<TickAction, LookupError>(TickAction::Skip)
                && final(self).position() == old(self).position(),
            old(self).phase() == LoopState::Running ==> {
                let i = next_index(old(self).position(), old(self).count());
                &&& final(self).position() == Some(i)
                &&& i < old(self).count()
                &&& match draw_result(i, atlas@) {
                    Some(p) => r == Ok::<TickAction, LookupError>(TickAction::Draw { index: i as u32, plan: p }),
                    None => r matches Err(e) && e.name@ == frame_name_spec(i),
                }
            },
    {
        if !matches!(self.state, LoopState::Running) {
            return Ok(TickAction::Skip);
        }
        let index = self.advance();
        let name = frame_name(index);
        match atlas.region_for(name.as_str()) {
            Some(source) => Ok(TickAction::Draw { index, plan: plan(source) }),
            None => Err(LookupError { name }),
        }
    }

    /// The frame shown last; `None` before the first tick.
    pub fn frame(&self) -> (r: Option<u32>)
        ensures
            r matches Some(f) ==> self.position() == Some(f as nat),
            r is None <==> self.position() is None,
    {
        self.frame
    }

    /// Number of frames in the cycle.
    pub fn frame_count(&self) -> (r: u32)
        ensures
            r == self.count(),
    {
        self.frame_count
    }

    /// Current lifecycle state.
    pub fn state(&self) -> (r: LoopState)
        ensures
            r == self.phase(),
    {
        self.state
    }
}

/// From the position before the first frame, the `k`-th tick shows frame
/// `(k - 1) mod n`: the indices run 0, 1, ..., n - 1 and start again.
pub proof fn lemma_index_cycle(k: nat, n: nat)
    requires
        k >= 1,
        n >= 1,
    ensures
        index_at_tick(k, n) == (k - 1) % (n as int),
        index_at_tick(k + n, n) == index_at_tick(k, n),
{
    lemma_index_at(k, n);
    lemma_index_at(k + n, n);
    vstd::arithmetic::div_mod::lemma_mod_add_multiples_vanish((k - 1) as int, n as int);
}

proof fn lemma_index_at(k: nat, n: nat)
    requires
        k >= 1,
        n >= 1,
    ensures
        index_at_tick(k, n) == (k - 1) % (n as int),
    decreases k,
{
    if k > 1 {
        lemma_index_at((k - 1) as nat, n);
        let c = index_at_tick((k - 1) as nat, n) as int;
        assert(c == (k - 2) % (n as int));
        vstd::arithmetic::div_mod::lemma_add_mod_noop_right(1, (k - 2) as int, n as int);
        assert((1 + c) % (n as int) == (k - 1) % (n as int));
        assert(index_at_tick(k, n) == (c + 1) % (n as int));
    } else {
        assert(index_at_tick(k, n) == 0);
        vstd::arithmetic::div_mod::lemma_small_mod(0, n);
    }
}

} // verus!
