use new_media::controls::{parse_control, ControlCommand};
use new_media::server::{
    http_port, image_reply, on_receive, should_shutdown, ConnectionStep, HttpServerMsg,
    ReceiveEvent, ServerMsg,
};

#[test]
fn messages_carry_one_side() {
    let (d, e) = ServerMsg::data("OK").into_parts();
    assert_eq!(d, Some("OK"));
    assert_eq!(e, None);
    let (d, e) = ServerMsg::<&str>::error(String::from("bad")).into_parts();
    assert_eq!(d, None);
    assert_eq!(e.as_deref(), Some("bad"));
    let (d, e) = HttpServerMsg::data(5u8).into_parts();
    assert_eq!((d, e), (Some(5), None));
    let (d, e) = HttpServerMsg::<u8>::error(String::from("x")).into_parts();
    assert_eq!((d, e.as_deref()), (None, Some("x")));
}

#[test]
fn ports() {
    assert_eq!(new_media::server::ws_port(None), Some(8080));
    assert_eq!(http_port(None), Some(6669));
    assert_eq!(new_media::server::ws_port(Some("9000")), Some(9000));
    assert_eq!(http_port(Some("70000")), None);
    assert_eq!(http_port(Some("port")), None);
}

#[test]
fn websocket_steps() {
    assert_eq!(on_receive(ReceiveEvent::Message), ConnectionStep::Reply);
    assert_eq!(on_receive(ReceiveEvent::Empty), ConnectionStep::Wait);
    assert_eq!(on_receive(ReceiveEvent::Closed), ConnectionStep::Close);
}

#[test]
fn image_reply_is_json() {
    assert_eq!(image_reply("data:image/webp;base64,AA=="), "{\"image\":\"data:image/webp;base64,AA==\"}");
    assert_eq!(image_reply("a\"b\\c\n"), "{\"image\":\"a\\\"b\\\\c\\n\"}");
    let v: serde_json::Value = serde_json::from_str(&image_reply("x\"y")).unwrap();
    assert_eq!(v["image"], "x\"y");
}

#[test]
fn shutdown_signal() {
    assert!(should_shutdown(Some(true)));
    assert!(!should_shutdown(Some(false)));
    assert!(!should_shutdown(None));
}

#[test]
fn control_words() {
    assert_eq!(parse_control("UP"), ControlCommand::Up);
    assert_eq!(parse_control("DOWN"), ControlCommand::Down);
    assert_eq!(parse_control("LEFT"), ControlCommand::Left);
    assert_eq!(parse_control("RIGHT"), ControlCommand::Right);
    assert_eq!(parse_control("ZOOM-IN"), ControlCommand::ZoomIn);
    assert_eq!(parse_control("ZOOM-OUT"), ControlCommand::ZoomOut);
    assert_eq!(parse_control("up"), ControlCommand::Unknown);
    assert_eq!(parse_control(""), ControlCommand::Unknown);
    assert_eq!(ControlCommand::Up.movement_step(), (0, 1, 0));
    assert_eq!(ControlCommand::Down.movement_step(), (0, -1, 0));
    assert_eq!(ControlCommand::Left.movement_step(), (-1, 0, 0));
    assert_eq!(ControlCommand::Right.movement_step(), (1, 0, 0));
    assert_eq!(ControlCommand::ZoomIn.movement_step(), (0, 0, -1));
    assert_eq!(ControlCommand::ZoomOut.movement_step(), (0, 0, 1));
    assert_eq!(ControlCommand::Unknown.movement_step(), (0, 0, 0));
}
