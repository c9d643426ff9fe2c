//! Frame capture of a rendered scene: the scene waits a number of pre-roll
//! frames after its render target is set up, then every frame is captured
//! and handed on as a PNG `data:` URL.

use vstd::prelude::*;

use crate::codec::{
    base64_standard, data_url_text, frame_data_url, rgba_encoding, rgba_len,
    ImageEncoding, RgbaFrame,
};

verus! {

/// Where a scene is in its life.
#[derive(Clone, Copy, PartialEq, Eq, Structural, Debug)]
pub enum SceneState {
    /// The scene is being built; nothing is rendered for capture yet.
    BuildScene,
    /// Rendering, with this many pre-roll frames left before capture.
    Render(u32),
}

impl Default for SceneState {
    fn default() -> (s: SceneState)
        ensures
            s == SceneState::BuildScene,
    {
        SceneState::BuildScene
    }
}

impl SceneState {
    /// Counts one pre-roll frame down. A scene that is still being built is
    /// left as it is; the count must not already be zero.
    pub fn decrement(&mut self)
        requires
            *old(self) matches SceneState::Render(n) ==> n > 0,
        ensures
            match *old(self) {
                SceneState::BuildScene => *final(self) == SceneState::BuildScene,
                SceneState::Render(n) => *final(self) == SceneState::Render((n - 1) as u32),
            },
    {
        if let SceneState::Render(n) = self {
            *n = *n - 1;
        }
    }
}

/// What the capture system does on a frame.
#[derive(Clone, Copy, PartialEq, Eq, Structural, Debug)]
pub enum FrameAction {
    /// Nothing: the scene is not rendering.
    Idle,
    /// A pre-roll frame was counted down; nothing is captured.
    PreRoll,
    /// The rendered image is captured.
    Capture,
}

/// The state of a scene as contracts see it.
pub struct SceneInfoView {
    pub state: SceneState,
    pub name: Seq<char>,
    pub width: u32,
    pub height: u32,
}

/// The scene whose frames are captured: its state, name and size.
#[derive(Debug)]
pub struct SceneInfo {
    state: SceneState,
    name: String,
    width: u32,
    height: u32,
}

impl View for SceneInfo {
    type V = SceneInfoView;

    closed spec fn view(&self) -> SceneInfoView {
        SceneInfoView { state: self.state, name: self.name@, width: self.width, height: self.height }
    }
}

/// One frame of the capture system: a rendering scene with pre-roll frames
/// left counts one down; one with none left is captured, every frame from
/// then on; a scene that is being built does nothing.
pub open spec fn frame_step(v: SceneInfoView) -> (SceneInfoView, FrameAction) {
    match v.state {
        SceneState::BuildScene => (v, FrameAction::Idle),
        SceneState::Render(n) => if n < 1 {
            (v, FrameAction::Capture)
        } else {
            (SceneInfoView { state: SceneState::Render((n - 1) as u32), ..v }, FrameAction::PreRoll)
        },
    }
}

/// The scene after `k` frames.
pub open spec fn after_frames(v: SceneInfoView, k: nat) -> SceneInfoView
    decreases k,
{
    if k == 0 {
        v
    } else {
        after_frames(frame_step(v).0, (k - 1) as nat)
    }
}

impl Default for SceneInfo {
    fn default() -> (s: SceneInfo)
        ensures
            s@.state == SceneState::BuildScene,
            s@.name == Seq::<char>::empty(),
            s@.width == 0,
            s@.height == 0,
    {
        SceneInfo { state: SceneState::BuildScene, name: String::new(), width: 0, height: 0 }
    }
}

impl SceneInfo {
    /// A scene of the given size, still being built, with an empty name.
    pub fn new(width: u32, height: u32) -> (s: SceneInfo)
        ensures
            s@.state == SceneState::BuildScene,
            s@.name == Seq::<char>::empty(),
            s@.width == width,
            s@.height == height,
    {
        SceneInfo { state: SceneState::BuildScene, name: String::new(), width, height }
    }

    /// The width and height of the scene.
    pub fn dimensions(&self) -> (d: (u32, u32))
        ensures
            d == (self@.width, self@.height),
    {
        (self.width, self.height)
    }

    /// The state of the scene.
    pub fn state(&self) -> (s: SceneState)
        ensures
            s == self@.state,
    {
        self.state
    }

    /// The name of the scene.
    pub fn name(&self) -> (n: &str)
        ensures
            n@ == self@.name,
    {
        self.name.as_str()
    }

    /// What setting up a render target does to the scene: it starts
    /// rendering with `pre_roll_frames` to wait and takes `scene_name`. The
    /// size of the render target (the scene's width and height) is returned.
    pub fn prepare_render_target(&mut self, pre_roll_frames: u32, scene_name: String) -> (size: (
        u32,
        u32,
    ))
        ensures
            size == (old(self)@.width, old(self)@.height),
            final(self)@ == (SceneInfoView {
                state: SceneState::Render(pre_roll_frames),
                name: scene_name@,
                ..old(self)@
            }),
    {
        self.state = SceneState::Render(pre_roll_frames);
        self.name = scene_name;
        (self.width, self.height)
    }

    /// Decides one frame of capture and advances the scene (see
    /// `frame_step`).
    pub fn next_frame(&mut self) -> (a: FrameAction)
        ensures
            (final(self)@, a) == frame_step(old(self)@),
    {
        match self.state {
            SceneState::Render(n) => {
                if n < 1 {
                    FrameAction::Capture
                } else {
                    self.state.decrement();
                    FrameAction::PreRoll
                }
            },
            SceneState::BuildScene => FrameAction::Idle,
        }
    }
}

/// A rendering scene with `k` pre-roll frames left waits exactly `k`
/// frames: after them it has none left, every one of them only counted
/// down, and the frame after them is captured; the name and size never
/// change.
pub proof fn law_preroll_then_capture(v: SceneInfoView, k: u32)
    requires
        v.state == SceneState::Render(k),
    ensures
        forall|i: nat| i < k ==> (#[trigger] frame_step(after_frames(v, i))).1 == FrameAction::PreRoll,
        after_frames(v, k as nat) == (SceneInfoView { state: SceneState::Render(0), ..v }),
        frame_step(after_frames(v, k as nat)).1 == FrameAction::Capture,
    decreases k,
{
    if k > 0 {
        let v1 = frame_step(v).0;
        law_preroll_then_capture(v1, (k - 1) as u32);
        assert forall|i: nat| i < k implies (#[trigger] frame_step(after_frames(v, i))).1
            == FrameAction::PreRoll by {
            if i > 0 {
                assert(after_frames(v, i) == after_frames(v1, (i - 1) as nat));
            }
        }
        assert(after_frames(v, k as nat) == after_frames(v1, (k - 1) as nat));
    }
}

/// A scene that is being built is left exactly as it is by every frame:
/// however many frames pass, it is still being built, and no frame is
/// captured.
pub proof fn law_building_scene_never_captures(v: SceneInfoView, k: nat)
    requires
        v.state == SceneState::BuildScene,
    ensures
        frame_step(v).0 == v,
        frame_step(v).1 == FrameAction::Idle,
        after_frames(v, k) == v,
        after_frames(v, k).state == SceneState::BuildScene,
        frame_step(after_frames(v, k)).1 != FrameAction::Capture,
    decreases k,
{
    if k > 0 {
        law_building_scene_never_captures(v, (k - 1) as nat);
    }
}

/// Once captured, a scene stays captured: capturing changes nothing, so
/// every later frame is captured too.
pub proof fn law_capture_is_stable(v: SceneInfoView, k: nat)
    requires
        frame_step(v).1 == FrameAction::Capture,
    ensures
        after_frames(v, k) == v,
    decreases k,
{
    if k > 0 {
        law_capture_is_stable(v, (k - 1) as nat);
    }
}

/// The pixels of a fresh frame: every byte zero.
pub open spec fn blank_pixels(width: u32, height: u32) -> Seq<u8> {
    Seq::new(rgba_len(width, height) as nat, |i: int| 0u8)
}

/// A PNG `data:` URL of the captured frame (the form a browser shows).
pub fn image_to_browser_base64(img: &RgbaFrame) -> (r: Result<String, image::ImageError>)
    ensures
        match rgba_encoding(img.pixels(), img.spec_width(), img.spec_height(), ImageEncoding::Png) {
            Some(file) => r matches Ok(s) && s@ == data_url_text("image/png"@, base64_standard(file)),
            None => r is Err,
        },
{
    frame_data_url(img, ImageEncoding::Png)
}

/// A PNG `data:` URL of a fresh frame of the given size (every pixel zero,
/// that is transparent black), shown before anything has been captured.
/// The frame must fit in memory.
pub fn white_img_placeholder(w: u32, h: u32) -> (r: Result<String, image::ImageError>)
    requires
        4 * (w as int) <= usize::MAX,
        rgba_len(w, h) <= usize::MAX,
    ensures
        match rgba_encoding(blank_pixels(w, h), w, h, ImageEncoding::Png) {
            Some(file) => r matches Ok(s) && s@ == data_url_text("image/png"@, base64_standard(file)),
            None => r is Err,
        },
{
    let img = RgbaFrame::new(w, h);
    assert(img.pixels() =~= blank_pixels(w, h));
    image_to_browser_base64(&img)
}

} // verus!
