use paper_plane::ui::webm_animation::{
    convert_image, video_track, Codec, FrameInfo, Picture, Track, WebmAnimation, Worker,
    WorkerAction, WorkerCommand, WorkerEvent, WorkerTask,
};

fn track(number: u64, is_video: bool, codec_id: &str) -> Track {
    Track { number, is_video, codec_id: String::from(codec_id) }
}

fn picture(width: u32, height: u32, y: Vec<u8>, u: Vec<u8>, v: Vec<u8>) -> Picture {
    let half = (width as usize).div_ceil(2);
    Picture {
        is_i420: true,
        width,
        height,
        y_plane: y,
        u_plane: u,
        v_plane: v,
        y_stride: width as usize,
        u_stride: half,
        v_stride: half,
    }
}

/// A worker that decodes track 1, after its decoder was created.
fn running(looped: bool) -> Worker {
    let mut worker = Worker::new(looped);
    assert!(matches!(worker.step(WorkerEvent::Started), WorkerAction::OpenFile));
    let tracks = vec![track(4, false, "A_OPUS"), track(1, true, "V_VP9")];
    assert!(matches!(
        worker.step(WorkerEvent::FileOpened(tracks)),
        WorkerAction::CreateDecoder(Codec::Vp9)
    ));
    assert!(matches!(worker.step(WorkerEvent::DecoderCreated), WorkerAction::PollCommand));
    worker
}

fn frame(timestamp: u64) -> WorkerEvent {
    WorkerEvent::FrameRead(Some(FrameInfo { track: 1, timestamp, is_invisible: false }))
}

#[test]
fn codecs_are_recognised() {
    assert_eq!(Codec::from_codec_id("V_VP8"), Some(Codec::Vp8));
    assert_eq!(Codec::from_codec_id("V_VP9"), Some(Codec::Vp9));
    assert_eq!(Codec::from_codec_id("V_AV1"), None);
}

#[test]
fn first_video_track_is_taken() {
    assert_eq!(video_track(&vec![]), None);
    assert_eq!(
        video_track(&vec![track(1, false, "A_OPUS"), track(2, true, "V_VP8")]),
        Some((2, Codec::Vp8)),
    );
    // A second video track doesn't help if the first one is not supported.
    assert_eq!(video_track(&vec![track(1, true, "V_AV1"), track(2, true, "V_VP8")]), None);
}

#[test]
fn grey_pictures_stay_grey() {
    let frame =
        convert_image(&picture(2, 2, vec![0, 50, 100, 255], vec![128], vec![128])).unwrap();
    assert_eq!((frame.width, frame.height), (2, 2));
    assert_eq!(
        frame.rgba,
        [0, 0, 0, 255, 50, 50, 50, 255, 100, 100, 100, 255, 255, 255, 255, 255],
    );
}

#[test]
fn colors_are_converted_and_clamped() {
    // y + ((11882 * v) >> 16), y - ((6081 * u) >> 16) - ((12396 * v) >> 16),
    // y + ((30807 * u) >> 16), with u and v centered.
    let frame = convert_image(&picture(1, 1, vec![100], vec![228], vec![28])).unwrap();
    assert_eq!(frame.rgba, [100 - 19, 100 - 9 + 19, 100 + 47, 255]);
    let frame = convert_image(&picture(1, 1, vec![250], vec![255], vec![255])).unwrap();
    assert_eq!(frame.rgba, [255, 250 - 11 - 24, 255, 255]);
}

#[test]
fn color_planes_have_half_the_size() {
    let frame = convert_image(&picture(
        3,
        3,
        vec![100; 9],
        vec![128, 228, 128, 128],
        vec![128; 4],
    ))
    .unwrap();
    let blue: Vec<u8> = frame.rgba.chunks(4).map(|pixel| pixel[2]).collect();
    assert_eq!(blue, [100, 100, 147, 100, 100, 147, 100, 100, 100]);
}

#[test]
fn other_layouts_are_not_converted() {
    let mut other = picture(1, 1, vec![0], vec![0], vec![0]);
    other.is_i420 = false;
    assert!(convert_image(&other).is_none());
}

#[test]
fn frames_are_presented_in_their_rhythm() {
    let mut worker = running(true);
    assert!(matches!(worker.step(WorkerEvent::CommandPolled(None)), WorkerAction::ReadFrame));
    assert!(matches!(worker.step(frame(40)), WorkerAction::DecodeFrame));
    assert!(matches!(
        worker.step(WorkerEvent::FrameDecoded(1)),
        WorkerAction::SendPictures(None)
    ));
    assert!(matches!(worker.step(WorkerEvent::PicturesSent(true)), WorkerAction::PollCommand));
    assert!(matches!(worker.step(frame(75)), WorkerAction::DecodeFrame));
    assert!(matches!(
        worker.step(WorkerEvent::FrameDecoded(2)),
        WorkerAction::SendPictures(Some(35))
    ));
    assert!(matches!(worker.step(frame(70)), WorkerAction::DecodeFrame));
    assert!(matches!(
        worker.step(WorkerEvent::FrameDecoded(1)),
        WorkerAction::SendPictures(Some(0))
    ));
}

#[test]
fn foreign_and_invisible_frames_are_skipped() {
    let mut worker = running(true);
    let skipped = |track, is_invisible| {
        WorkerEvent::FrameRead(Some(FrameInfo { track, timestamp: 5, is_invisible }))
    };
    assert!(matches!(worker.step(skipped(2, false)), WorkerAction::PollCommand));
    assert!(matches!(worker.step(skipped(1, true)), WorkerAction::PollCommand));
    assert!(matches!(worker.step(frame(5)), WorkerAction::DecodeFrame));
    assert!(matches!(worker.step(WorkerEvent::FrameDecoded(0)), WorkerAction::PollCommand));
}

#[test]
fn paused_worker_waits_until_it_is_resumed() {
    let mut worker = running(true);
    worker.step(frame(40));
    worker.step(WorkerEvent::FrameDecoded(1));
    let pause = || Some(WorkerCommand::Pause);
    assert!(matches!(
        worker.step(WorkerEvent::CommandPolled(pause())),
        WorkerAction::WaitForCommand
    ));
    assert!(matches!(
        worker.step(WorkerEvent::CommandReceived(pause())),
        WorkerAction::WaitForCommand
    ));
    assert!(matches!(
        worker.step(WorkerEvent::CommandReceived(Some(WorkerCommand::Resume))),
        WorkerAction::ReadFrame
    ));
    // The next frame is presented right away.
    worker.step(frame(90));
    assert!(matches!(
        worker.step(WorkerEvent::FrameDecoded(1)),
        WorkerAction::SendPictures(None)
    ));
}

#[test]
fn animations_end_or_start_over() {
    let mut once = running(false);
    assert!(matches!(once.step(WorkerEvent::FrameRead(None)), WorkerAction::FlushDecoder));
    assert!(matches!(once.step(WorkerEvent::DecoderFlushed(true)), WorkerAction::SendDone));
    let mut looped = running(true);
    assert!(matches!(looped.step(WorkerEvent::DecoderFlushed(true)), WorkerAction::OpenFile));
    assert!(matches!(looped.step(WorkerEvent::DecoderFlushed(false)), WorkerAction::Stop));
    assert!(matches!(looped.step(WorkerEvent::PicturesSent(false)), WorkerAction::Stop));
    assert!(matches!(looped.step(WorkerEvent::WidgetGone), WorkerAction::Stop));
}

#[test]
fn failures_are_described() {
    let mut worker = Worker::new(false);
    let mut message = |event| match worker.step(event) {
        WorkerAction::SendFailed(message) => message,
        _ => panic!("the worker failed"),
    };
    let failed = |task| WorkerEvent::TaskFailed(task, String::from("why"));
    assert_eq!(
        message(WorkerEvent::FileOpened(vec![])),
        "WebM animation has no supported video track",
    );
    assert_eq!(message(failed(WorkerTask::OpenFile)), "Failed to open a WebM animation: why");
    assert_eq!(message(failed(WorkerTask::DemuxFile)), "Failed to demux a WebM animation: why");
    assert_eq!(
        message(failed(WorkerTask::CreateDecoder)),
        "Failed to create a WebM decoder: why",
    );
    assert_eq!(message(failed(WorkerTask::DemuxFrame)), "Failed to demux a WebM frame: why");
    assert_eq!(message(failed(WorkerTask::DecodeFrame)), "Failed to decode a WebM frame: why");
}

#[test]
fn hidden_animation_is_paused() {
    let mut animation = WebmAnimation::new(true);
    assert!(animation.map().start_worker);
    let actions = animation.unmap();
    assert_eq!(actions.command, Some(WorkerCommand::Pause));
    assert!(actions.notify_is_playing);
    let actions = animation.map();
    assert!(!actions.start_worker);
    assert_eq!(actions.command, Some(WorkerCommand::Resume));
    assert!(animation.is_playing);
    assert!(animation.done().notify_is_playing);
    assert!(!animation.is_playing);
    let actions = animation.replay();
    assert!(actions.stop_worker && actions.start_worker);
    assert!(animation.dispose().stop_worker);
    assert!(!animation.has_worker);
}

#[test]
fn failed_animation_is_not_started_again() {
    let mut animation = WebmAnimation::new(true);
    animation.map();
    let actions = animation.fail();
    assert!(actions.emit_error && actions.stop_worker);
    assert!(!animation.map().start_worker);
    assert!(!animation.replay().start_worker);
}
