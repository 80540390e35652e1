//! Playing WebM animations: picking the track, converting the decoded
//! pictures, pacing the frames, and when to play.

use vstd::prelude::*;

use crate::types::same_text;

verus! {

/// The codec of a WebM animation.
#[derive(Clone, Copy, Debug, PartialEq, Eq, Structural)]
pub enum Codec {
    Vp8,
    Vp9,
}

impl Codec {
    /// The codec with the given id, if it is supported.
    pub open spec fn of_id(codec_id: Seq<char>) -> Option<Codec> {
        if codec_id == "V_VP8"@ {
            Some(Codec::Vp8)
        } else if codec_id == "V_VP9"@ {
            Some(Codec::Vp9)
        } else {
            None
        }
    }

    /// The codec with the given id, if it is supported.
    pub fn from_codec_id(codec_id: &str) -> (codec: Option<Codec>)
        ensures
            codec == Codec::of_id(codec_id@),
    {
        if same_text(codec_id, "V_VP8") {
            Some(Codec::Vp8)
        } else if same_text(codec_id, "V_VP9") {
            Some(Codec::Vp9)
        } else {
            None
        }
    }
}

/// A track of a WebM file.
#[derive(Debug)]
pub struct Track {
    pub number: u64,
    pub is_video: bool,
    pub codec_id: String,
}

/// The first video track and its codec, if it is supported.
pub open spec fn video_track_of(tracks: Seq<Track>) -> Option<(u64, Codec)>
    decreases tracks.len(),
{
    if tracks.len() == 0 {
        None
    } else if tracks[0].is_video {
        match Codec::of_id(tracks[0].codec_id@) {
            Some(codec) => Some((tracks[0].number, codec)),
            None => None,
        }
    } else {
        video_track_of(tracks.skip(1))
    }
}

/// The first video track and its codec, if it is supported.
pub fn video_track(tracks: &Vec<Track>) -> (track: Option<(u64, Codec)>)
    ensures
        track == video_track_of(tracks@),
{
    let mut i: usize = 0;
    assert(tracks@.skip(0) =~= tracks@);
    while i < tracks.len()
        invariant
            i <= tracks@.len(),
            video_track_of(tracks@) == video_track_of(tracks@.skip(i as int)),
        decreases tracks@.len() - i,
    {
        let track = &tracks[i];
        assert(tracks@.skip(i as int)[0] == *track);
        assert(tracks@.skip(i as int).skip(1) =~= tracks@.skip(i + 1));
        if track.is_video {
            return match Codec::from_codec_id(track.codec_id.as_str()) {
                Some(codec) => Some((track.number, codec)),
                None => None,
            };
        }
        i = i + 1;
    }
    None
}

// Pictures

/// A decoded picture. Its colours are split into three planes; the second and
/// the third one have half the width and the height.
#[derive(Debug)]
pub struct Picture {
    /// Whether the planes have the one layout that is supported.
    pub is_i420: bool,
    pub width: u32,
    pub height: u32,
    pub y_plane: Vec<u8>,
    pub u_plane: Vec<u8>,
    pub v_plane: Vec<u8>,
    pub y_stride: usize,
    pub u_stride: usize,
    pub v_stride: usize,
}

/// A single decoded video frame, ready to be turned into a texture.
#[derive(Debug)]
pub struct DecodedFrame {
    pub width: u32,
    pub height: u32,
    pub rgba: Vec<u8>,
}

/// The value within the range of a colour channel that is nearest to the
/// given one.
pub open spec fn clamped(value: int) -> u8 {
    if value < 0 {
        0
    } else if value > 255 {
        255
    } else {
        value as u8
    }
}

/// The colour of a pixel, given its brightness and its two colour
/// differences.
pub open spec fn pixel_of(y: u8, u: u8, v: u8) -> Seq<u8> {
    let du = u - 128;
    let dv = v - 128;
    seq![
        clamped(y + (11882 * dv) / 65536),
        clamped(y - (6081 * du) / 65536 - (12396 * dv) / 65536),
        clamped(y + (30807 * du) / 65536),
        255u8,
    ]
}

/// The bytes of the pixel at the given place of an RGBA buffer.
pub open spec fn rgba_pixel(rgba: Seq<u8>, width: int, row: int, col: int) -> Seq<u8> {
    rgba.subrange((row * width + col) * 4, (row * width + col) * 4 + 4)
}

impl Picture {
    /// The planes are large enough for the picture, and so is the address
    /// space for the frame it is converted to.
    pub open spec fn wf(self) -> bool {
        &&& self.width * self.height * 4 <= usize::MAX
        &&& self.height > 0 && self.width > 0 ==> {
            &&& (self.height - 1) * self.y_stride + self.width <= self.y_plane@.len()
            &&& (self.height - 1) / 2 * self.u_stride + (self.width - 1) / 2 + 1
                <= self.u_plane@.len()
            &&& (self.height - 1) / 2 * self.v_stride + (self.width - 1) / 2 + 1
                <= self.v_plane@.len()
        }
    }

    /// The colour of the pixel at the given place.
    pub open spec fn pixel(self, row: int, col: int) -> Seq<u8> {
        pixel_of(
            self.y_plane@[row * self.y_stride + col],
            self.u_plane@[row / 2 * self.u_stride + col / 2],
            self.v_plane@[row / 2 * self.v_stride + col / 2],
        )
    }
}

fn clamp_channel(value: i32) -> (channel: u8)
    ensures
        channel == clamped(value as int),
{
    if value < 0 {
        0
    } else if value > 255 {
        255
    } else {
        value as u8
    }
}

/// Divides by 65536, rounding down.
fn scale_down(value: i32) -> (result: i32)
    ensures
        result == value as int / 65536,
{
    assert((value >> 16) == value / 65536) by (bit_vector);
    value >> 16
}

/// The offset of a sample lies within its plane.
proof fn lemma_offset(row: int, rows: int, stride: int, col: int, len: int)
    requires
        0 <= row < rows,
        0 <= stride,
        0 <= col,
        (rows - 1) * stride + col + 1 <= len,
    ensures
        0 <= row * stride <= (rows - 1) * stride,
        0 <= row * stride + col < len,
{
    assert(0 <= row * stride <= (rows - 1) * stride) by (nonlinear_arith)
        requires
            0 <= row < rows,
            0 <= stride,
    ;
}

/// Earlier pixels lie in front of later ones.
proof fn lemma_pixel_order(r: int, c: int, row: int, col: int, width: int)
    requires
        0 <= r,
        0 <= c < width,
        0 <= col,
        r < row || r == row && c < col,
    ensures
        0 <= r * width + c,
        r * width + c + 1 <= row * width + col,
{
    assert(0 <= r * width) by (nonlinear_arith)
        requires
            0 <= r,
            0 <= width,
    ;
    if r < row {
        assert(r * width + width <= row * width) by (nonlinear_arith)
            requires
                r < row,
                0 <= width,
        ;
    }
}

/// Converts a decoded picture to an RGBA buffer. Pictures with another layout
/// of the planes are not known to exist in the wild.
pub fn convert_image(picture: &Picture) -> (frame: Option<DecodedFrame>)
    requires
        picture.wf(),
    ensures
        frame is Some <==> picture.is_i420,
        frame matches Some(frame) ==> {
            &&& frame.width == picture.width
            &&& frame.height == picture.height
            &&& frame.rgba@.len() == picture.width * picture.height * 4
            &&& forall|row: int, col: int|
                0 <= row < picture.height && 0 <= col < picture.width ==> (
                #[trigger] rgba_pixel(frame.rgba@, picture.width as int, row, col))
                    == picture.pixel(row, col)
        },
{
    if !picture.is_i420 {
        return None;
    }
    let width: usize = picture.width as usize;
    let height: usize = picture.height as usize;
    let ghost w = picture.width as int;
    let mut rgba: Vec<u8> = Vec::new();
    let mut row: usize = 0;
    assert(0 * w == 0) by (nonlinear_arith);
    while row < height
        invariant
            picture.wf(),
            width == picture.width,
            height == picture.height,
            w == width,
            row <= height,
            rgba@.len() == row * w * 4,
            forall|r: int, c: int|
                0 <= r < row && 0 <= c < w ==> (#[trigger] rgba_pixel(rgba@, w, r, c))
                    == picture.pixel(r, c),
        decreases height - row,
    {
        let mut col: usize = 0;
        while col < width
            invariant
                picture.wf(),
                width == picture.width,
                height == picture.height,
                w == width,
                row < height,
                col <= width,
                rgba@.len() == (row * w + col) * 4,
                forall|r: int, c: int|
                    0 <= r < row && 0 <= c < w || r == row && 0 <= c < col ==> (
                    #[trigger] rgba_pixel(rgba@, w, r, c)) == picture.pixel(r, c),
            decreases width - col,
        {
            assert(picture.y_plane.len() == picture.y_plane@.len());
            assert(picture.u_plane.len() == picture.u_plane@.len());
            assert(picture.v_plane.len() == picture.v_plane@.len());
            proof {
                lemma_offset(
                    row as int,
                    height as int,
                    picture.y_stride as int,
                    col as int,
                    (height - 1) * picture.y_stride + col + 1,
                );
                lemma_offset(
                    row as int / 2,
                    (height - 1) / 2 + 1,
                    picture.u_stride as int,
                    col as int / 2,
                    (height - 1) / 2 * picture.u_stride + col / 2 + 1,
                );
                lemma_offset(
                    row as int / 2,
                    (height - 1) / 2 + 1,
                    picture.v_stride as int,
                    col as int / 2,
                    (height - 1) / 2 * picture.v_stride + col / 2 + 1,
                );
            }
            let y: i32 = picture.y_plane[row * picture.y_stride + col] as i32;
            let u: i32 = picture.u_plane[row / 2 * picture.u_stride + col / 2] as i32 - 128;
            let v: i32 = picture.v_plane[row / 2 * picture.v_stride + col / 2] as i32 - 128;
            let ghost before = rgba@;
            rgba.push(clamp_channel(y + scale_down(11882 * v)));
            rgba.push(clamp_channel(y - scale_down(6081 * u) - scale_down(12396 * v)));
            rgba.push(clamp_channel(y + scale_down(30807 * u)));
            rgba.push(255);
            proof {
                assert(rgba_pixel(rgba@, w, row as int, col as int) =~= picture.pixel(
                    row as int,
                    col as int,
                ));
                assert forall|r: int, c: int|
                    0 <= r < row && 0 <= c < w || r == row && 0 <= c < col + 1 implies (
                #[trigger] rgba_pixel(rgba@, w, r, c)) == picture.pixel(r, c) by {
                    if !(r == row && c == col) {
                        lemma_pixel_order(r, c, row as int, col as int, w);
                        assert(rgba_pixel(rgba@, w, r, c) =~= rgba_pixel(before, w, r, c));
                    }
                }
            }
            col = col + 1;
        }
        assert((row + 1) * w == row * w + w) by (nonlinear_arith);
        row = row + 1;
    }
    assert(row * w == picture.width * picture.height) by (nonlinear_arith)
        requires
            row == picture.height,
            w == picture.width,
    ;
    Some(DecodedFrame { width: picture.width, height: picture.height, rgba })
}

/// A pixel without colour differences is grey, as bright as it is.
pub proof fn law_grey_stays_grey(y: u8)
    ensures
        pixel_of(y, 128, 128) == seq![y, y, y, 255u8],
{
    assert(0int / 65536 == 0);
}

/// Frames are opaque.
pub proof fn law_pixels_are_opaque(y: u8, u: u8, v: u8)
    ensures
        pixel_of(y, u, v).len() == 4,
        pixel_of(y, u, v)[3] == 255,
{
}

// The worker that decodes the frames

/// The commands that a widget sends to its worker.
#[derive(Clone, Copy, Debug, PartialEq, Eq, Structural)]
pub enum WorkerCommand {
    Pause,
    Resume,
}

/// What a worker can fail to do.
#[derive(Clone, Copy, Debug, PartialEq, Eq, Structural)]
pub enum WorkerTask {
    OpenFile,
    DemuxFile,
    CreateDecoder,
    DemuxFrame,
    DecodeFrame,
}

/// A frame of a WebM file.
#[derive(Clone, Copy, Debug, PartialEq, Eq, Structural)]
pub struct FrameInfo {
    pub track: u64,
    /// When the frame is due, in milliseconds.
    pub timestamp: u64,
    pub is_invisible: bool,
}

/// What happened to the worker.
#[derive(Debug)]
pub enum WorkerEvent {
    Started,
    /// The file was opened and these are its tracks.
    FileOpened(Vec<Track>),
    DecoderCreated,
    /// The commands were polled. There may have been none.
    CommandPolled(Option<WorkerCommand>),
    /// The widget was gone when the commands were polled.
    WidgetGone,
    /// The wait for a command ended, without one if the widget is gone.
    CommandReceived(Option<WorkerCommand>),
    /// The next frame was read. There is none at the end of the file.
    FrameRead(Option<FrameInfo>),
    /// The frame was decoded to this many pictures.
    FrameDecoded(usize),
    /// The pictures of a frame were sent, unless the widget is gone.
    PicturesSent(bool),
    /// The pictures that were left in the decoder were sent, unless the widget
    /// is gone.
    DecoderFlushed(bool),
    TaskFailed(WorkerTask, String),
}

/// What the worker has to do next.
#[derive(Debug)]
pub enum WorkerAction {
    OpenFile,
    CreateDecoder(Codec),
    PollCommand,
    WaitForCommand,
    ReadFrame,
    DecodeFrame,
    /// Wait until the given number of milliseconds have passed since the last
    /// presentation, if there is one to be considered, and send the pictures.
    SendPictures(Option<u64>),
    FlushDecoder,
    /// Tell the widget that the animation is over, and stop.
    SendDone,
    /// Tell the widget that the animation failed, and stop.
    SendFailed(String),
    Stop,
}

/// What the worker has to do next.
pub enum WorkerActionView {
    OpenFile,
    CreateDecoder(Codec),
    PollCommand,
    WaitForCommand,
    ReadFrame,
    DecodeFrame,
    SendPictures(Option<u64>),
    FlushDecoder,
    SendDone,
    SendFailed(Seq<char>),
    Stop,
}

impl View for WorkerAction {
    type V = WorkerActionView;

    open spec fn view(&self) -> WorkerActionView {
        match *self {
            WorkerAction::OpenFile => WorkerActionView::OpenFile,
            WorkerAction::CreateDecoder(codec) => WorkerActionView::CreateDecoder(codec),
            WorkerAction::PollCommand => WorkerActionView::PollCommand,
            WorkerAction::WaitForCommand => WorkerActionView::WaitForCommand,
            WorkerAction::ReadFrame => WorkerActionView::ReadFrame,
            WorkerAction::DecodeFrame => WorkerActionView::DecodeFrame,
            WorkerAction::SendPictures(delay) => WorkerActionView::SendPictures(delay),
            WorkerAction::FlushDecoder => WorkerActionView::FlushDecoder,
            WorkerAction::SendDone => WorkerActionView::SendDone,
            WorkerAction::SendFailed(error) => WorkerActionView::SendFailed(error@),
            WorkerAction::Stop => WorkerActionView::Stop,
        }
    }
}

/// What is said when the task failed.
pub open spec fn failure_text(task: WorkerTask) -> Seq<char> {
    match task {
        WorkerTask::OpenFile => "Failed to open a WebM animation: "@,
        WorkerTask::DemuxFile => "Failed to demux a WebM animation: "@,
        WorkerTask::CreateDecoder => "Failed to create a WebM decoder: "@,
        WorkerTask::DemuxFrame => "Failed to demux a WebM frame: "@,
        WorkerTask::DecodeFrame => "Failed to decode a WebM frame: "@,
    }
}

/// The message for a failed task.
fn failure_message(task: WorkerTask, error: &String) -> (message: String)
    ensures
        message@ == failure_text(task) + error@,
{
    let text = match task {
        WorkerTask::OpenFile => "Failed to open a WebM animation: ",
        WorkerTask::DemuxFile => "Failed to demux a WebM animation: ",
        WorkerTask::CreateDecoder => "Failed to create a WebM decoder: ",
        WorkerTask::DemuxFrame => "Failed to demux a WebM frame: ",
        WorkerTask::DecodeFrame => "Failed to decode a WebM frame: ",
    };
    let mut message = text.to_owned();
    message.append(error.as_str());
    message
}

/// Decides what a worker does that decodes the frames of an animation.
#[derive(Clone, Copy, Debug, PartialEq, Eq, Structural)]
pub struct Worker {
    pub looped: bool,
    /// The number of the track that is decoded.
    pub video_track: u64,
    /// When the frame that is being decoded is due.
    pub timestamp: u64,
    /// When the frame that was presented last was due, if the next one must
    /// keep its distance.
    pub previous_timestamp: Option<u64>,
}

impl Worker {
    /// The worker after the event.
    pub open spec fn after(self, event: WorkerEvent) -> Worker {
        match event {
            WorkerEvent::FileOpened(tracks) => match video_track_of(tracks@) {
                Some((video_track, _)) => Worker { video_track, ..self },
                None => self,
            },
            WorkerEvent::DecoderCreated => Worker { previous_timestamp: None, ..self },
            // The timing of the animation is relative, so it just continues
            // where it left off.
            WorkerEvent::CommandReceived(Some(WorkerCommand::Resume)) => Worker {
                previous_timestamp: None,
                ..self
            },
            WorkerEvent::FrameRead(Some(frame)) => if self.shows(frame) {
                Worker { timestamp: frame.timestamp, ..self }
            } else {
                self
            },
            WorkerEvent::FrameDecoded(count) => if count > 0 {
                Worker { previous_timestamp: Some(self.timestamp), ..self }
            } else {
                self
            },
            _ => self,
        }
    }

    /// What the worker does because of the event.
    pub open spec fn action_for(self, event: WorkerEvent) -> WorkerActionView {
        match event {
            WorkerEvent::Started => WorkerActionView::OpenFile,
            WorkerEvent::FileOpened(tracks) => match video_track_of(tracks@) {
                Some((_, codec)) => WorkerActionView::CreateDecoder(codec),
                None => WorkerActionView::SendFailed(
                    "WebM animation has no supported video track"@,
                ),
            },
            WorkerEvent::DecoderCreated => WorkerActionView::PollCommand,
            WorkerEvent::CommandPolled(Some(WorkerCommand::Pause)) => {
                WorkerActionView::WaitForCommand
            },
            WorkerEvent::CommandPolled(_) => WorkerActionView::ReadFrame,
            WorkerEvent::WidgetGone => WorkerActionView::Stop,
            WorkerEvent::CommandReceived(Some(WorkerCommand::Pause)) => {
                WorkerActionView::WaitForCommand
            },
            WorkerEvent::CommandReceived(_) => WorkerActionView::ReadFrame,
            WorkerEvent::FrameRead(None) => WorkerActionView::FlushDecoder,
            WorkerEvent::FrameRead(Some(frame)) => if self.shows(frame) {
                WorkerActionView::DecodeFrame
            } else {
                WorkerActionView::PollCommand
            },
            WorkerEvent::FrameDecoded(count) => if count > 0 {
                WorkerActionView::SendPictures(self.delay())
            } else {
                WorkerActionView::PollCommand
            },
            WorkerEvent::PicturesSent(all_sent) => if all_sent {
                WorkerActionView::PollCommand
            } else {
                WorkerActionView::Stop
            },
            WorkerEvent::DecoderFlushed(all_sent) => if !all_sent {
                WorkerActionView::Stop
            } else if self.looped {
                WorkerActionView::OpenFile
            } else {
                WorkerActionView::SendDone
            },
            WorkerEvent::TaskFailed(task, error) => WorkerActionView::SendFailed(
                failure_text(task) + error@,
            ),
        }
    }

    /// Whether the frame is part of what is shown.
    pub open spec fn shows(self, frame: FrameInfo) -> bool {
        frame.track == self.video_track && !frame.is_invisible
    }

    /// How much later than the previous frame the current one is due, if there
    /// is a previous one.
    pub open spec fn delay(self) -> Option<u64> {
        match self.previous_timestamp {
            Some(previous) => Some(
                if self.timestamp > previous {
                    (self.timestamp - previous) as u64
                } else {
                    0
                },
            ),
            None => None,
        }
    }

    pub fn new(looped: bool) -> (worker: Worker)
        ensures
            worker == (Worker {
                looped,
                video_track: 0,
                timestamp: 0,
                previous_timestamp: None,
            }),
    {
        Worker { looped, video_track: 0, timestamp: 0, previous_timestamp: None }
    }

    /// Takes what happened and returns what to do next.
    pub fn step(&mut self, event: WorkerEvent) -> (action: WorkerAction)
        ensures
            *final(self) == old(self).after(event),
            action@ == old(self).action_for(event),
    {
        match event {
            WorkerEvent::Started => WorkerAction::OpenFile,
            WorkerEvent::FileOpened(tracks) => match video_track(&tracks) {
                Some((track, codec)) => {
                    self.video_track = track;
                    WorkerAction::CreateDecoder(codec)
                },
                None => WorkerAction::SendFailed(
                    "WebM animation has no supported video track".to_owned(),
                ),
            },
            WorkerEvent::DecoderCreated => {
                self.previous_timestamp = None;
                WorkerAction::PollCommand
            },
            WorkerEvent::CommandPolled(command) => match command {
                Some(WorkerCommand::Pause) => WorkerAction::WaitForCommand,
                _ => WorkerAction::ReadFrame,
            },
            WorkerEvent::WidgetGone => WorkerAction::Stop,
            WorkerEvent::CommandReceived(command) => match command {
                Some(WorkerCommand::Pause) => WorkerAction::WaitForCommand,
                Some(WorkerCommand::Resume) => {
                    self.previous_timestamp = None;
                    WorkerAction::ReadFrame
                },
                None => WorkerAction::ReadFrame,
            },
            WorkerEvent::FrameRead(frame) => match frame {
                // The last frames may still be buffered in the decoder, so it
                // must be flushed. They are presented right away, since their
                // timing information is already spent.
                None => WorkerAction::FlushDecoder,
                Some(frame) => {
                    if frame.track != self.video_track || frame.is_invisible {
                        WorkerAction::PollCommand
                    } else {
                        self.timestamp = frame.timestamp;
                        WorkerAction::DecodeFrame
                    }
                },
            },
            WorkerEvent::FrameDecoded(count) => {
                if count == 0 {
                    WorkerAction::PollCommand
                } else {
                    // Decoding and conversion time is taken into account, so
                    // that the animation does not run slower than intended.
                    let delay = match self.previous_timestamp {
                        Some(previous) => Some(self.timestamp.saturating_sub(previous)),
                        None => None,
                    };
                    self.previous_timestamp = Some(self.timestamp);
                    WorkerAction::SendPictures(delay)
                }
            },
            WorkerEvent::PicturesSent(all_sent) => {
                if all_sent {
                    WorkerAction::PollCommand
                } else {
                    WorkerAction::Stop
                }
            },
            WorkerEvent::DecoderFlushed(all_sent) => {
                if !all_sent {
                    WorkerAction::Stop
                } else if self.looped {
                    WorkerAction::OpenFile
                } else {
                    WorkerAction::SendDone
                }
            },
            WorkerEvent::TaskFailed(task, error) => {
                WorkerAction::SendFailed(failure_message(task, &error))
            },
        }
    }
}

/// A looped animation never ends by itself.
pub proof fn law_looped_animation_goes_on(worker: Worker, event: WorkerEvent)
    requires
        worker.looped,
    ensures
        worker.after(event).looped,
        !(worker.action_for(event) is SendDone),
{
}

/// While a worker is paused, it reads no frames until it is resumed or the
/// widget is gone.
pub proof fn law_paused_worker_waits(worker: Worker, command: Option<WorkerCommand>)
    ensures
        worker.action_for(WorkerEvent::CommandReceived(command)) is WaitForCommand <==> command
            == Some(WorkerCommand::Pause),
        worker.action_for(WorkerEvent::CommandPolled(command)) is WaitForCommand <==> command
            == Some(WorkerCommand::Pause),
{
}

/// The first frame after the start of the file or a pause is presented right
/// away, the next one as much later as their timestamps say.
pub proof fn law_frames_keep_their_distance(
    worker: Worker,
    first: FrameInfo,
    second: FrameInfo,
    count: usize,
)
    requires
        worker.previous_timestamp is None,
        worker.shows(first),
        worker.shows(second),
        first.timestamp <= second.timestamp,
        count > 0,
    ensures
        ({
            let at_first = worker.after(WorkerEvent::FrameRead(Some(first)));
            let shown = at_first.after(WorkerEvent::FrameDecoded(count));
            let at_second = shown.after(WorkerEvent::FrameRead(Some(second)));
            &&& at_first.action_for(WorkerEvent::FrameDecoded(count))
                == WorkerActionView::SendPictures(None)
            &&& at_second.action_for(WorkerEvent::FrameDecoded(count))
                == WorkerActionView::SendPictures(
                Some((second.timestamp - first.timestamp) as u64),
            )
        }),
{
}

// The widget

/// What the widget of an animation has to do.
#[derive(Clone, Copy, Debug, PartialEq, Eq, Structural)]
pub struct AnimationActions {
    /// Drop the connection to the worker, which stops it.
    pub stop_worker: bool,
    /// Start a new worker.
    pub start_worker: bool,
    /// Send the command to the worker.
    pub command: Option<WorkerCommand>,
    /// Tell that the property changed.
    pub notify_is_playing: bool,
    /// Tell that the animation failed.
    pub emit_error: bool,
}

impl AnimationActions {
    /// Nothing to do.
    pub open spec fn nothing() -> AnimationActions {
        AnimationActions {
            stop_worker: false,
            start_worker: false,
            command: None,
            notify_is_playing: false,
            emit_error: false,
        }
    }

    fn none() -> (actions: AnimationActions)
        ensures
            actions == AnimationActions::nothing(),
    {
        AnimationActions {
            stop_worker: false,
            start_worker: false,
            command: None,
            notify_is_playing: false,
            emit_error: false,
        }
    }
}

/// The state of the widget of an animation.
#[derive(Clone, Copy, Debug, PartialEq, Eq, Structural)]
pub struct WebmAnimation {
    pub looped: bool,
    pub is_playing: bool,
    /// Whether there is a connection to a worker.
    pub has_worker: bool,
    pub failed: bool,
}

impl WebmAnimation {
    pub fn new(looped: bool) -> (animation: WebmAnimation)
        ensures
            animation == (WebmAnimation {
                looped,
                is_playing: false,
                has_worker: false,
                failed: false,
            }),
    {
        WebmAnimation { looped, is_playing: false, has_worker: false, failed: false }
    }

    /// Handles that the widget became visible.
    pub fn map(&mut self) -> (actions: AnimationActions)
        ensures
            old(self).has_worker ==> {
                &&& *final(self) == (WebmAnimation { is_playing: true, ..*old(self) })
                &&& actions == (AnimationActions {
                    command: Some(WorkerCommand::Resume),
                    notify_is_playing: true,
                    ..AnimationActions::nothing()
                })
            },
            !old(self).has_worker && old(self).failed ==> {
                &&& *final(self) == *old(self)
                &&& actions == AnimationActions::nothing()
            },
            !old(self).has_worker && !old(self).failed ==> {
                &&& *final(self) == (WebmAnimation { has_worker: true, ..*old(self) })
                &&& actions == (AnimationActions {
                    start_worker: true,
                    ..AnimationActions::nothing()
                })
            },
    {
        let mut actions = AnimationActions::none();
        if !self.has_worker {
            if !self.failed {
                self.has_worker = true;
                actions.start_worker = true;
            }
        } else {
            self.is_playing = true;
            actions.notify_is_playing = true;
            actions.command = Some(WorkerCommand::Resume);
        }
        actions
    }

    /// Handles that the widget became invisible.
    pub fn unmap(&mut self) -> (actions: AnimationActions)
        ensures
            *final(self) == (WebmAnimation { is_playing: false, ..*old(self) }),
            actions == (AnimationActions {
                command: if old(self).has_worker {
                    Some(WorkerCommand::Pause)
                } else {
                    None
                },
                notify_is_playing: true,
                ..AnimationActions::nothing()
            }),
    {
        let mut actions = AnimationActions::none();
        self.is_playing = false;
        actions.notify_is_playing = true;
        if self.has_worker {
            actions.command = Some(WorkerCommand::Pause);
        }
        actions
    }

    /// Restarts the animation from the beginning.
    pub fn replay(&mut self) -> (actions: AnimationActions)
        ensures
            old(self).failed ==> *final(self) == *old(self) && actions
                == AnimationActions::nothing(),
            !old(self).failed ==> {
                &&& *final(self) == (WebmAnimation { has_worker: true, ..*old(self) })
                &&& actions == (AnimationActions {
                    stop_worker: true,
                    start_worker: true,
                    ..AnimationActions::nothing()
                })
            },
    {
        let mut actions = AnimationActions::none();
        if self.failed {
            return actions;
        }
        self.has_worker = true;
        actions.stop_worker = true;
        actions.start_worker = true;
        actions
    }

    /// Handles that the worker reached the end of the animation. The last
    /// frame is kept on screen.
    pub fn done(&mut self) -> (actions: AnimationActions)
        ensures
            *final(self) == (WebmAnimation { is_playing: false, ..*old(self) }),
            actions == (AnimationActions {
                notify_is_playing: true,
                ..AnimationActions::nothing()
            }),
    {
        let mut actions = AnimationActions::none();
        self.is_playing = false;
        actions.notify_is_playing = true;
        actions
    }

    /// Handles that the worker failed.
    pub fn fail(&mut self) -> (actions: AnimationActions)
        ensures
            *final(self) == (WebmAnimation {
                failed: true,
                has_worker: false,
                is_playing: false,
                ..*old(self)
            }),
            actions == (AnimationActions {
                stop_worker: true,
                notify_is_playing: true,
                emit_error: true,
                ..AnimationActions::nothing()
            }),
    {
        let mut actions = AnimationActions::none();
        self.failed = true;
        self.has_worker = false;
        self.is_playing = false;
        actions.stop_worker = true;
        actions.notify_is_playing = true;
        actions.emit_error = true;
        actions
    }

    /// Handles that the widget is disposed.
    pub fn dispose(&mut self) -> (actions: AnimationActions)
        ensures
            *final(self) == (WebmAnimation { has_worker: false, ..*old(self) }),
            actions == (AnimationActions { stop_worker: true, ..AnimationActions::nothing() }),
    {
        let mut actions = AnimationActions::none();
        self.has_worker = false;
        actions.stop_worker = true;
        actions
    }
}

/// The codecs that are supported have their ids, and no others are supported.
pub proof fn law_codecs_have_ids(codec_id: Seq<char>)
    ensures
        Codec::of_id("V_VP8"@) == Some(Codec::Vp8),
        Codec::of_id("V_VP9"@) == Some(Codec::Vp9),
        codec_id != "V_VP8"@ && codec_id != "V_VP9"@ ==> Codec::of_id(codec_id) is None,
{
    reveal_strlit("V_VP8");
    reveal_strlit("V_VP9");
    assert("V_VP8"@[4] != "V_VP9"@[4]);
}

/// The track that is played is the first video track, if its codec is supported.
pub proof fn law_first_video_track_is_played(tracks: Seq<Track>, i: int)
    requires
        0 <= i <= tracks.len(),
        forall|k: int| 0 <= k < i ==> !(#[trigger] tracks[k]).is_video,
        i < tracks.len() ==> tracks[i].is_video,
    ensures
        i == tracks.len() ==> video_track_of(tracks) is None,
        i < tracks.len() ==> match Codec::of_id(tracks[i].codec_id@) {
            Some(codec) => video_track_of(tracks) == Some((tracks[i].number, codec)),
            None => video_track_of(tracks) is None,
        },
    decreases i,
{
    if i > 0 {
        let rest = tracks.skip(1);
        assert(!tracks[0].is_video);
        assert forall|k: int| 0 <= k < i - 1 implies !(#[trigger] rest[k]).is_video by {
            assert(rest[k] == tracks[k + 1]);
        }
        law_first_video_track_is_played(rest, i - 1);
    }
}

/// The colours of a pixel are its brightness, to which the colour differences
/// add their parts, as far as the range of a channel goes.
pub proof fn law_pixels_have_their_colours(y: u8, u: u8, v: u8)
    ensures
        ({
            let pixel = pixel_of(y, u, v);
            let red = y + (11882 * (v - 128)) / 65536;
            let green = y - (6081 * (u - 128)) / 65536 - (12396 * (v - 128)) / 65536;
            let blue = y + (30807 * (u - 128)) / 65536;
            &&& 0 <= red <= 255 ==> pixel[0] == red
            &&& red < 0 ==> pixel[0] == 0
            &&& red > 255 ==> pixel[0] == 255
            &&& 0 <= green <= 255 ==> pixel[1] == green
            &&& green < 0 ==> pixel[1] == 0
            &&& green > 255 ==> pixel[1] == 255
            &&& 0 <= blue <= 255 ==> pixel[2] == blue
            &&& blue < 0 ==> pixel[2] == 0
            &&& blue > 255 ==> pixel[2] == 255
        }),
{
}

/// A pixel has its own brightness, and shares its colour differences with the
/// other ones of its block of two by two.
pub proof fn law_pixels_share_colour_differences(picture: Picture, row: int, col: int)
    ensures
        picture.pixel(row, col) == pixel_of(
            picture.y_plane@[row * picture.y_stride + col],
            picture.u_plane@[row / 2 * picture.u_stride + col / 2],
            picture.v_plane@[row / 2 * picture.v_stride + col / 2],
        ),
{
}

/// The pixels of a buffer follow each other row by row, with four bytes each.
pub proof fn law_pixels_follow_each_other(rgba: Seq<u8>, width: int, row: int, col: int, k: int)
    requires
        0 <= (row * width + col) * 4,
        (row * width + col) * 4 + 4 <= rgba.len(),
        0 <= k < 4,
    ensures
        rgba_pixel(rgba, width, row, col).len() == 4,
        rgba_pixel(rgba, width, row, col)[k] == rgba[(row * width + col) * 4 + k],
{
}

/// A worker opens its file, makes a decoder for the first video track and then
/// reads frames, with a look at its commands in between. It gives up if there is
/// nothing to play or something failed.
pub proof fn law_worker_plays_its_file(worker: Worker, tracks: Vec<Track>)
    ensures
        worker.action_for(WorkerEvent::Started) == WorkerActionView::OpenFile,
        video_track_of(tracks@) matches Some((number, codec)) ==> worker.action_for(
            WorkerEvent::FileOpened(tracks),
        ) == WorkerActionView::CreateDecoder(codec) && worker.after(
            WorkerEvent::FileOpened(tracks),
        ) == (Worker { video_track: number, ..worker }),
        video_track_of(tracks@) is None ==> worker.action_for(
            WorkerEvent::FileOpened(tracks),
        ) is SendFailed,
        worker.action_for(WorkerEvent::DecoderCreated) == WorkerActionView::PollCommand,
        worker.after(WorkerEvent::DecoderCreated) == (Worker { previous_timestamp: None, ..worker
        }),
        worker.action_for(WorkerEvent::CommandPolled(None)) == WorkerActionView::ReadFrame,
        worker.action_for(WorkerEvent::CommandPolled(Some(WorkerCommand::Resume)))
            == WorkerActionView::ReadFrame,
        worker.action_for(WorkerEvent::CommandReceived(Some(WorkerCommand::Resume)))
            == WorkerActionView::ReadFrame,
        worker.action_for(WorkerEvent::CommandReceived(None)) == WorkerActionView::ReadFrame,
        worker.after(WorkerEvent::CommandReceived(Some(WorkerCommand::Resume))) == (Worker {
            previous_timestamp: None,
            ..worker
        }),
        worker.action_for(WorkerEvent::WidgetGone) == WorkerActionView::Stop,
{
}

/// A frame of the video track that is visible is decoded, and its pictures are
/// sent as much later than the previous ones as the timestamps say, or right
/// away if they are late or the first ones. Other frames are skipped.
pub proof fn law_worker_shows_frames(worker: Worker, frame: FrameInfo, count: usize)
    ensures
        ({
            let event = WorkerEvent::FrameRead(Some(frame));
            if frame.track == worker.video_track && !frame.is_invisible {
                &&& worker.action_for(event) == WorkerActionView::DecodeFrame
                &&& worker.after(event) == (Worker { timestamp: frame.timestamp, ..worker })
            } else {
                &&& worker.action_for(event) == WorkerActionView::PollCommand
                &&& worker.after(event) == worker
            }
        }),
        count == 0 ==> worker.action_for(WorkerEvent::FrameDecoded(count))
            == WorkerActionView::PollCommand && worker.after(WorkerEvent::FrameDecoded(count))
            == worker,
        count > 0 ==> {
            &&& worker.after(WorkerEvent::FrameDecoded(count)) == (Worker {
                previous_timestamp: Some(worker.timestamp),
                ..worker
            })
            &&& worker.previous_timestamp is None ==> worker.action_for(
                WorkerEvent::FrameDecoded(count),
            ) == WorkerActionView::SendPictures(None)
            &&& worker.previous_timestamp matches Some(previous) ==> {
                let action = worker.action_for(WorkerEvent::FrameDecoded(count));
                &&& worker.timestamp >= previous ==> action == WorkerActionView::SendPictures(
                    Some((worker.timestamp - previous) as u64),
                )
                &&& worker.timestamp < previous ==> action == WorkerActionView::SendPictures(Some(0))
            }
        },
        worker.action_for(WorkerEvent::PicturesSent(true)) == WorkerActionView::PollCommand,
        worker.action_for(WorkerEvent::PicturesSent(false)) == WorkerActionView::Stop,
{
}

/// At the end of the file what is left in the decoder is shown, and the
/// animation begins again if it is looped and is over otherwise.
pub proof fn law_worker_ends(worker: Worker)
    ensures
        worker.action_for(WorkerEvent::FrameRead(None)) == WorkerActionView::FlushDecoder,
        worker.looped ==> worker.action_for(WorkerEvent::DecoderFlushed(true))
            == WorkerActionView::OpenFile,
        !worker.looped ==> worker.action_for(WorkerEvent::DecoderFlushed(true))
            == WorkerActionView::SendDone,
        worker.action_for(WorkerEvent::DecoderFlushed(false)) == WorkerActionView::Stop,
{
}

/// Whatever fails, the widget is told what failed and why, and nothing is
/// forgotten.
pub proof fn law_worker_tells_failures(worker: Worker, task: WorkerTask, error: String)
    ensures
        worker.action_for(WorkerEvent::TaskFailed(task, error)) == WorkerActionView::SendFailed(
            failure_text(task) + error@,
        ),
        worker.after(WorkerEvent::TaskFailed(task, error)) == worker,
        failure_text(WorkerTask::OpenFile) == "Failed to open a WebM animation: "@,
        failure_text(WorkerTask::DemuxFile) == "Failed to demux a WebM animation: "@,
        failure_text(WorkerTask::CreateDecoder) == "Failed to create a WebM decoder: "@,
        failure_text(WorkerTask::DemuxFrame) == "Failed to demux a WebM frame: "@,
        failure_text(WorkerTask::DecodeFrame) == "Failed to decode a WebM frame: "@,
{
}

/// Having nothing to do is to do nothing at all.
pub proof fn law_nothing_is_nothing()
    ensures
        ({
            let actions = AnimationActions::nothing();
            &&& !actions.stop_worker
            &&& !actions.start_worker
            &&& actions.command is None
            &&& !actions.notify_is_playing
            &&& !actions.emit_error
        }),
{
}

} // verus!
