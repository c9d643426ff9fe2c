use new_media::frame_capture::{FrameAction, SceneInfo, SceneState};

#[test]
fn new_scene_is_being_built() {
    let s = SceneInfo::new(1920, 1080);
    assert_eq!(s.dimensions(), (1920, 1080));
    assert_eq!(s.state(), SceneState::BuildScene);
    assert_eq!(s.name(), "");
    let d = SceneInfo::default();
    assert_eq!(d.dimensions(), (0, 0));
}

#[test]
fn decrement_counts_down() {
    let mut st = SceneState::Render(3);
    st.decrement();
    assert_eq!(st, SceneState::Render(2));
    let mut b = SceneState::BuildScene;
    b.decrement();
    assert_eq!(b, SceneState::BuildScene);
    assert_eq!(SceneState::default(), SceneState::BuildScene);
}

#[test]
fn preroll_then_capture() {
    let mut s = SceneInfo::new(4, 2);
    assert_eq!(s.next_frame(), FrameAction::Idle);
    let size = s.prepare_render_target(15, String::from("main_scene"));
    assert_eq!(size, (4, 2));
    assert_eq!(s.name(), "main_scene");
    for _ in 0..15 {
        assert_eq!(s.next_frame(), FrameAction::PreRoll);
    }
    assert_eq!(s.state(), SceneState::Render(0));
    for _ in 0..3 {
        assert_eq!(s.next_frame(), FrameAction::Capture);
    }
    assert_eq!(s.state(), SceneState::Render(0));
    assert_eq!(s.dimensions(), (4, 2));
}

#[test]
fn zero_preroll_captures_at_once() {
    let mut s = SceneInfo::new(1, 1);
    s.prepare_render_target(0, String::from("x"));
    assert_eq!(s.next_frame(), FrameAction::Capture);
}
