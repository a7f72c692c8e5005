//! The compositor: the root viewport, the walk that lists each frame's draw
//! calls in paint order, and frame pacing.
use vstd::prelude::*;
use slotmap::DefaultKey;
use crate::arenas::Arenas;
use crate::data::Rect;
use crate::drawable::DrawableRef;
use crate::render::TexQuad;
use crate::viewport::{Viewport, ViewportData};
use crate::window::{Window, WindowData};
use crate::z::Z;

verus! {

/// Width of the presentable surface, in pixels.
pub const SCREEN_WIDTH: u32 = 640;

/// Height of the presentable surface, in pixels.
pub const SCREEN_HEIGHT: u32 = 480;

/// Frame rate a compositor starts with, in frames per second.
pub const DEFAULT_FRAMERATE: u16 = 40;

pub const NANOS_PER_SEC: u64 = 1_000_000_000;

/// One draw of a windowskin quad, projected through the rectangle of the
/// viewport that holds the window.
#[derive(Clone, Copy, Debug, PartialEq, Eq)]
pub struct DrawCall {
    pub window: Window,
    pub viewport_rect: Rect,
    pub quad: TexQuad,
}

/// The draw of window `w` inside a viewport over `rect`: one call when the
/// window is live and has a windowskin, none otherwise.
pub open spec fn window_calls(wins: Map<DefaultKey, WindowData>, w: Window, rect: Rect) -> Seq<DrawCall> {
    if wins.contains_key(w.key) && wins[w.key].windowskin.is_some() {
        seq![DrawCall { window: w, viewport_rect: rect, quad: wins[w.key].windowskin.unwrap().quad }]
    } else {
        Seq::empty()
    }
}

/// The draw calls of `entries`, in order, inside a viewport over `rect`.
/// A nested viewport contributes the calls of its own children, through its
/// own rectangle, while `depth` allows; a handle that finds nothing
/// contributes nothing.
pub open spec fn list_calls(
    vps: Map<DefaultKey, ViewportData>,
    wins: Map<DefaultKey, WindowData>,
    entries: Seq<(Z, DrawableRef)>,
    rect: Rect,
    depth: nat,
) -> Seq<DrawCall>
    decreases depth, entries.len(),
{
    if entries.len() == 0 {
        Seq::empty()
    } else {
        list_calls(vps, wins, entries.drop_last(), rect, depth) + match entries.last().1 {
            DrawableRef::Window(w) => window_calls(wins, w, rect),
            DrawableRef::Viewport(v) => if depth > 0 && vps.contains_key(v.key) {
                list_calls(vps, wins, vps[v.key].z_list@, vps[v.key].rect, (depth - 1) as nat)
            } else {
                Seq::empty()
            },
        }
    }
}

/// Nanoseconds in one frame at `framerate` frames per second.
pub open spec fn frame_nanos(framerate: u16) -> int {
    NANOS_PER_SEC as int / framerate as int
}

/// `a - b`, or zero where that is negative.
pub open spec fn sat_sub(a: int, b: int) -> int {
    if a > b { a - b } else { 0 }
}

/// The wait that keeps pace at `framerate` when `elapsed` nanoseconds have
/// passed since the last frame: the rest of the frame, never negative.
pub open spec fn pacing_wait(framerate: u16, elapsed: int) -> int {
    sat_sub(frame_nanos(framerate), elapsed)
}

/// How long to sleep after a frame so that frames come `1 / framerate`
/// seconds apart; zero when the frame already took longer.
pub fn frame_wait(framerate: u16, elapsed_nanos: u64) -> (r: u64)
    requires
        framerate > 0,
    ensures
        r == pacing_wait(framerate, elapsed_nanos as int),
{
    let frame = NANOS_PER_SEC / framerate as u64;
    frame.saturating_sub(elapsed_nanos)
}

/// The compositor's state between frames.
pub struct Graphics {
    framerate: u16,
    frame_count: u64,
    last_render: u64,
    global_viewport: Viewport,
}

impl Graphics {
    /// Frames per second that pacing aims for.
    pub closed spec fn spec_framerate(&self) -> u16 {
        self.framerate
    }

    /// Frames counted so far.
    pub closed spec fn spec_frame_count(&self) -> u64 {
        self.frame_count
    }

    /// The root viewport, covering the whole surface.
    pub closed spec fn root(&self) -> Viewport {
        self.global_viewport
    }

    /// When the last frame was presented, on the caller's monotonic clock, in nanoseconds.
    pub closed spec fn last_render_at(&self) -> u64 {
        self.last_render
    }

    /// A compositor whose root viewport covers the 640 by 480 surface, pacing
    /// at 40 frames per second from `now`.
    pub fn new(arenas: &mut Arenas, now: u64) -> (r: Graphics)
        requires
            old(arenas).ticks() < u64::MAX,
            old(arenas).viewports().len() + 1 < u32::MAX,
        ensures
            r.spec_framerate() == DEFAULT_FRAMERATE,
            r.spec_frame_count() == 0,
            r.last_render_at() == now,
            !old(arenas).viewports().contains_key(r.root().key),
            final(arenas).viewports() == old(arenas).viewports().insert(r.root().key, final(arenas).viewports()[r.root().key]),
            final(arenas).viewports()[r.root().key].rect == (Rect { x: 0, y: 0, width: SCREEN_WIDTH, height: SCREEN_HEIGHT }),
            final(arenas).viewports()[r.root().key].z == (Z { z: 0, creation_time: old(arenas).ticks() }),
            final(arenas).viewports()[r.root().key].z_list@ == Seq::<(Z, DrawableRef)>::empty(),
            final(arenas).windows() == old(arenas).windows(),
            final(arenas).bitmaps() == old(arenas).bitmaps(),
            final(arenas).ticks() == old(arenas).ticks() + 1,
    {
        let tick = arenas.next_tick();
        let data = ViewportData::new(Rect::new(0, 0, SCREEN_WIDTH, SCREEN_HEIGHT), Z::new(0, tick));
        let key = arenas.insert_viewport(data);
        Graphics { framerate: DEFAULT_FRAMERATE, frame_count: 0, last_render: now, global_viewport: Viewport { key } }
    }

    pub fn global_viewport(&self) -> (r: Viewport)
        ensures
            r == self.root(),
    {
        self.global_viewport
    }

    /// The draw calls of one frame, in paint order: the root viewport's
    /// children ascending, nested viewports expanded in place.
    pub fn draw_calls(&self, arenas: &Arenas) -> (r: Vec<DrawCall>)
        ensures
            r@ == (if arenas.viewports().contains_key(self.root().key) {
                list_calls(
                    arenas.viewports(),
                    arenas.windows(),
                    arenas.viewports()[self.root().key].z_list@,
                    arenas.viewports()[self.root().key].rect,
                    arenas.viewports().len(),
                )
            } else {
                Seq::empty()
            }),
    {
        let mut out: Vec<DrawCall> = Vec::new();
        let depth = arenas.viewport_count();
        match arenas.viewport(self.global_viewport.key) {
            Ok(root) => {
                let children = root.children();
                collect_calls(arenas, &children, root.rect, depth, &mut out);
                assert(out@ =~= list_calls(arenas.viewports(), arenas.windows(), children@, root.rect, depth as nat));
            },
            Err(_) => {},
        }
        out
    }

    /// How long to sleep after presenting at `now` to keep pace.
    pub fn frame_wait(&self, now: u64) -> (r: u64)
        requires
            self.spec_framerate() > 0,
        ensures
            r == pacing_wait(self.spec_framerate(), sat_sub(now as int, self.last_render_at() as int)),
    {
        let elapsed = now.saturating_sub(self.last_render);
        frame_wait(self.framerate, elapsed)
    }

    /// Records that a frame was presented at `now`.
    pub fn frame_done(&mut self, now: u64)
        ensures
            final(self).last_render_at() == now,
            final(self).spec_framerate() == old(self).spec_framerate(),
            final(self).spec_frame_count() == old(self).spec_frame_count(),
            final(self).root() == old(self).root(),
    {
        self.last_render = now;
    }

    pub fn frame_rate(&self) -> (r: u16)
        ensures
            r == self.spec_framerate(),
    {
        self.framerate
    }

    /// Sets the frame rate; pacing uses it from the next frame on.
    pub fn set_frame_rate(&mut self, framerate: u16)
        ensures
            final(self).spec_framerate() == framerate,
            final(self).spec_frame_count() == old(self).spec_frame_count(),
            final(self).last_render_at() == old(self).last_render_at(),
            final(self).root() == old(self).root(),
    {
        self.framerate = framerate;
    }

    pub fn frame_count(&self) -> (r: u64)
        ensures
            r == self.spec_frame_count(),
    {
        self.frame_count
    }

    pub fn set_frame_count(&mut self, count: u64)
        ensures
            final(self).spec_frame_count() == count,
            final(self).spec_framerate() == old(self).spec_framerate(),
            final(self).last_render_at() == old(self).last_render_at(),
            final(self).root() == old(self).root(),
    {
        self.frame_count = count;
    }
}

/// Appends the draw calls of `entries`, inside a viewport over `rect`, to `out`.
fn collect_calls(arenas: &Arenas, entries: &Vec<(Z, DrawableRef)>, rect: Rect, depth: usize, out: &mut Vec<DrawCall>)
    ensures
        final(out)@ == old(out)@ + list_calls(arenas.viewports(), arenas.windows(), entries@, rect, depth as nat),
    decreases depth,
{
    let ghost start = out@;
    let mut i: usize = 0;
    while i < entries.len()
        invariant
            i <= entries@.len(),
            out@ == start + list_calls(arenas.viewports(), arenas.windows(), entries@.take(i as int), rect, depth as nat),
        decreases entries@.len() - i,
    {
        let ghost before = out@;
        proof {
            assert(entries@.take(i + 1).drop_last() =~= entries@.take(i as int));
            assert(entries@.take(i + 1).last() == entries@[i as int]);
        }
        let (_, drawable) = entries[i];
        match drawable {
            DrawableRef::Window(w) => {
                match arenas.window(w.key) {
                    Ok(data) => {
                        match data.windowskin {
                            Some(skin) => {
                                out.push(DrawCall { window: w, viewport_rect: rect, quad: skin.quad });
                            },
                            None => {},
                        }
                    },
                    Err(_) => {},
                }
                assert(out@ =~= before + window_calls(arenas.windows(), w, rect));
            },
            DrawableRef::Viewport(v) => {
                if depth > 0 {
                    match arenas.viewport(v.key) {
                        Ok(data) => {
                            let children = data.children();
                            collect_calls(arenas, &children, data.rect, depth - 1, out);
                        },
                        Err(_) => {},
                    }
                }
                assert(out@ =~= before + (if depth > 0 && arenas.viewports().contains_key(v.key) {
                    list_calls(
                        arenas.viewports(),
                        arenas.windows(),
                        arenas.viewports()[v.key].z_list@,
                        arenas.viewports()[v.key].rect,
                        (depth - 1) as nat,
                    )
                } else {
                    Seq::empty()
                }));
            },
        }
        i = i + 1;
        assert(out@ =~= start + list_calls(arenas.viewports(), arenas.windows(), entries@.take(i as int), rect, depth as nat));
    }
    assert(entries@.take(i as int) =~= entries@);
}

} // verus!
