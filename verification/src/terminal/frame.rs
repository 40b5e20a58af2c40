use vstd::prelude::*;

verus! {

/// The frame budget in milliseconds when none is configured, and the
/// longest single sleep between frames.
pub const DEFAULT_FRAME_MS: u64 = 33;

/// The counters the main loop keeps to measure frame rate and frame time:
/// frames drawn since the last whole second, and the second and
/// millisecond at which the last measurements were taken.
#[derive(Clone, Copy, PartialEq, Eq, Debug, Structural)]
pub struct FrameCounters {
    pub frames: i32,
    pub prev_seconds: u64,
    pub prev_ms: u128,
}

/// What one frame measured: when a new second has begun, the frames drawn
/// and the whole seconds elapsed since the last rate sample (the rate is
/// their quotient); when time has passed since the last frame, the
/// milliseconds it took.
#[derive(Clone, Copy, PartialEq, Eq, Debug)]
pub struct FrameSample {
    pub fps: Option<(i32, u64)>,
    pub frame_time_ms: Option<u128>,
}

impl FrameCounters {
    /// Counters started at `now_seconds` and `now_ms` with no frame drawn.
    pub fn new(now_seconds: u64, now_ms: u128) -> (c: FrameCounters)
        ensures
            c == (FrameCounters { frames: 0, prev_seconds: now_seconds, prev_ms: now_ms }),
    {
        FrameCounters { frames: 0, prev_seconds: now_seconds, prev_ms: now_ms }
    }

    /// Counts one frame at `now_seconds` / `now_ms`. When the second has
    /// moved on, the frames counted so far (this one included) are sampled
    /// and the count restarts; when the millisecond has moved on, the time
    /// since the last frame is sampled.
    pub fn tick(&mut self, now_seconds: u64, now_ms: u128) -> (s: FrameSample)
        requires
            old(self).frames < i32::MAX,
        ensures
            now_seconds > old(self).prev_seconds ==> s.fps == Some(
                ((old(self).frames + 1) as i32, (now_seconds - old(self).prev_seconds) as u64),
            ) && final(self).frames == 0 && final(self).prev_seconds == now_seconds,
            now_seconds <= old(self).prev_seconds ==> s.fps is None && final(self).frames == old(self).frames
                + 1 && final(self).prev_seconds == old(self).prev_seconds,
            now_ms > old(self).prev_ms ==> s.frame_time_ms == Some((now_ms - old(self).prev_ms) as u128)
                && final(self).prev_ms == now_ms,
            now_ms <= old(self).prev_ms ==> s.frame_time_ms is None && final(self).prev_ms == old(self).prev_ms,
    {
        self.frames = self.frames + 1;
        let mut fps = None;
        if now_seconds > self.prev_seconds {
            fps = Some((self.frames, now_seconds - self.prev_seconds));
            self.frames = 0;
            self.prev_seconds = now_seconds;
        }
        let mut frame_time_ms = None;
        if now_ms > self.prev_ms {
            frame_time_ms = Some(now_ms - self.prev_ms);
            self.prev_ms = now_ms;
        }
        FrameSample { fps, frame_time_ms }
    }
}

/// The frame budget: the configured sleep time, or 33 milliseconds.
pub fn frame_wait_time(frame_sleep_time: Option<u64>) -> (w: u64)
    ensures
        w == match frame_sleep_time {
            Some(t) => t,
            None => DEFAULT_FRAME_MS,
        },
{
    match frame_sleep_time {
        Some(t) => t,
        None => DEFAULT_FRAME_MS,
    }
}

/// Whether a new frame is due: at least `wait_time` milliseconds have
/// passed since the last one.
pub fn frame_due(execute_ms: u64, wait_time: u64) -> (due: bool)
    ensures
        due == (execute_ms >= wait_time),
{
    execute_ms >= wait_time
}

/// How long to sleep after a frame that took `time_since_last_frame`
/// milliseconds: what is left of the budget, at most 33 milliseconds, or no
/// sleep when the budget is spent.
pub fn frame_sleep(time_since_last_frame: u64, wait_time: u64) -> (delay: Option<u64>)
    ensures
        time_since_last_frame < wait_time ==> delay == Some(
            if wait_time - time_since_last_frame < DEFAULT_FRAME_MS {
                (wait_time - time_since_last_frame) as u64
            } else {
                DEFAULT_FRAME_MS
            },
        ),
        time_since_last_frame >= wait_time ==> delay is None,
{
    if time_since_last_frame < wait_time {
        let left = wait_time - time_since_last_frame;
        Some(if left < DEFAULT_FRAME_MS { left } else { DEFAULT_FRAME_MS })
    } else {
        None
    }
}

/// A mouse button as the window system reports it.
#[derive(Clone, Copy, PartialEq, Eq, Debug, Structural)]
pub enum MouseButtonKind {
    Left,
    Right,
    Middle,
    Back,
    Forward,
    Other(u16),
}

/// The index a mouse button is known by: left 0, right 1, middle 2, back 3,
/// forward 4, and any other button 5 plus its number.
pub fn mouse_button_index(button: MouseButtonKind) -> (i: usize)
    ensures
        i == match button {
            MouseButtonKind::Left => 0,
            MouseButtonKind::Right => 1,
            MouseButtonKind::Middle => 2,
            MouseButtonKind::Back => 3,
            MouseButtonKind::Forward => 4,
            MouseButtonKind::Other(n) => 5 + n,
        },
{
    match button {
        MouseButtonKind::Left => 0,
        MouseButtonKind::Right => 1,
        MouseButtonKind::Middle => 2,
        MouseButtonKind::Back => 3,
        MouseButtonKind::Forward => 4,
        MouseButtonKind::Other(n) => 5 + n as usize,
    }
}

/// The layout of a screenshot buffer: rows of 4-byte pixels, each row
/// padded to a multiple of the copy alignment `align`.
#[derive(Clone, Copy, PartialEq, Eq, Debug, Structural)]
pub struct BufferDimensions {
    pub width: usize,
    pub height: usize,
    pub padded_bytes_per_row: usize,
}

impl BufferDimensions {
    /// The layout for a `width` by `height` image, rows padded to a
    /// multiple of `align` bytes.
    pub fn new(width: usize, height: usize, align: usize) -> (d: BufferDimensions)
        requires
            align > 0,
            width * 4 + align <= usize::MAX,
        ensures
            d.width == width,
            d.height == height,
            d.padded_bytes_per_row == width * 4 + (align - (width * 4) % (align as int)) % (align as int),
            d.padded_bytes_per_row as int % align as int == 0,
            width * 4 <= d.padded_bytes_per_row < width * 4 + align,
    {
        let unpadded_bytes_per_row = width * 4;
        let padding = (align - unpadded_bytes_per_row % align) % align;
        let padded_bytes_per_row = unpadded_bytes_per_row + padding;
        proof {
            let u = unpadded_bytes_per_row as int;
            let a = align as int;
            let r = u % a;
            vstd::arithmetic::div_mod::lemma_fundamental_div_mod(u, a);
            if r == 0 {
                assert((a - r) % a == 0) by {
                    vstd::arithmetic::div_mod::lemma_mod_self_0(a);
                }
                assert(padded_bytes_per_row == u);
            } else {
                assert((a - r) % a == a - r) by {
                    vstd::arithmetic::div_mod::lemma_small_mod((a - r) as nat, a as nat);
                }
                assert(u + (a - r) == a * (u / a + 1)) by (nonlinear_arith)
                    requires u == a * (u / a) + r;
                vstd::arithmetic::div_mod::lemma_mod_multiples_basic(u / a + 1, a);
                assert((a * (u / a + 1)) % a == 0) by (nonlinear_arith)
                    requires ((u / a + 1) * a) % a == 0;
            }
        }
        BufferDimensions { width, height, padded_bytes_per_row }
    }
}

} // verus!
