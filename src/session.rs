use vstd::prelude::*;

use crate::geometry::{
    crop_client, crop_region_of, is_crop_of, Border, CropError, CroppedImage, RawFrame, Rect,
};

verus! {

/// Wait between a failed attempt and the next one, in milliseconds.
pub const BACKOFF_MS: u64 = 500;

/// How old an image may be when it is read, by default, in nanoseconds.
pub const DEFAULT_DELAY_NS: u64 = 50_000_000;

/// Refusal of `start`.
#[derive(Clone, Copy, Debug, PartialEq, Eq, Structural)]
pub enum SessionError {
    AlreadyRunning,
}

/// Why `get_img` has no image to give.
#[derive(Clone, Copy, Debug, PartialEq, Eq, Structural)]
pub enum ImageError {
    NoImageYet,
    ImageStale,
}

/// What became of one frame handed to the session.
#[derive(Clone, Copy, Debug, PartialEq, Eq, Structural)]
pub enum FrameAction {
    /// The session was stopped: the capture backend is to be shut down.
    StopCapture,
    /// The session is paused: nothing was published.
    Skipped,
    /// The frame's client area is now the latest sample.
    Published,
    /// The frame was dropped for this reason; capture goes on.
    Rejected(CropError),
}

/// The next step of the background loop that keeps capture alive.
#[derive(Clone, Copy, Debug, PartialEq, Eq, Structural)]
pub enum RetryAction {
    /// The session was stopped: leave the loop.
    Exit,
    /// Look the window up again.
    Resolve,
    /// Capture the window with this handle until the backend ends.
    Capture(isize),
    /// Wait this many milliseconds, then look the window up again.
    Backoff(u64),
}

/// The latest published image and when it was captured.
pub struct SampleView {
    pub width: u32,
    pub height: u32,
    pub data: Seq<u8>,
    pub captured_at: u64,
}

/// The state of a capture session.
pub struct SessionView {
    pub window_class: Seq<char>,
    pub window_title: Seq<char>,
    pub border: Border,
    pub delay_ns: u64,
    pub running: bool,
    pub paused: bool,
    pub stopped: bool,
    pub latest: Option<SampleView>,
}

struct Sample {
    image: CroppedImage,
    captured_at: u64,
}

/// A capture session for the client area of a window named by class and
/// title. It decides what the background loop and the frame callback do, and
/// holds the latest image; the caller runs the loop and the backend.
pub struct ClientCapture {
    window_class: String,
    window_title: String,
    border: Border,
    delay_ns: u64,
    running: bool,
    paused: bool,
    stopped: bool,
    latest: Option<Sample>,
}

/// Whether an image captured at `captured_at` is too old at `now`.
pub open spec fn is_stale(now: u64, captured_at: u64, delay_ns: u64) -> bool {
    now > captured_at + delay_ns
}

/// `new` is `old` with `frame` published at `now` as the latest sample.
pub open spec fn published(
    old: SessionView,
    new: SessionView,
    frame: RawFrame,
    window: Rect,
    client: Rect,
    now: u64,
) -> bool {
    &&& frame.wf()
    &&& crop_region_of(frame.width, frame.height, window, client, old.border) is Ok
    &&& new.latest is Some
    &&& {
        let region = crop_region_of(frame.width, frame.height, window, client, old.border)->Ok_0;
        let s = new.latest->Some_0;
        &&& s.width == region.width
        &&& s.height == region.height
        &&& s.captured_at == now
        &&& is_crop_of(s.data, frame, region)
    }
    &&& new == (SessionView { latest: new.latest, ..old })
}

/// What handing `frame`, seen at `now`, to a session in state `old` does:
/// the result `r` and the state `new` that follows.
pub open spec fn frame_effect(
    old: SessionView,
    new: SessionView,
    r: FrameAction,
    frame: RawFrame,
    window: Rect,
    client: Rect,
    now: u64,
) -> bool {
    if old.stopped {
        r == FrameAction::StopCapture && new == old
    } else if old.paused {
        r == FrameAction::Skipped && new == old
    } else if !frame.wf() {
        r == FrameAction::Rejected(CropError::FrameSizeMismatch) && new == old
    } else {
        match crop_region_of(frame.width, frame.height, window, client, old.border) {
            Ok(_) => r == FrameAction::Published && published(old, new, frame, window, client, now),
            Err(e) => r == FrameAction::Rejected(e) && new == old,
        }
    }
}

/// The step of the background loop after a window lookup.
pub open spec fn attempt_action(stopped: bool, resolved: Option<isize>) -> RetryAction {
    if stopped {
        RetryAction::Exit
    } else {
        match resolved {
            Some(h) => RetryAction::Capture(h),
            None => RetryAction::Backoff(BACKOFF_MS),
        }
    }
}

impl View for ClientCapture {
    type V = SessionView;

    closed spec fn view(&self) -> SessionView {
        SessionView {
            window_class: self.window_class@,
            window_title: self.window_title@,
            border: self.border,
            delay_ns: self.delay_ns,
            running: self.running,
            paused: self.paused,
            stopped: self.stopped,
            latest: match self.latest {
                Some(s) => Some(
                    SampleView {
                        width: s.image.width,
                        height: s.image.height,
                        data: s.image.data@,
                        captured_at: s.captured_at,
                    },
                ),
                None => None,
            },
        }
    }
}

impl ClientCapture {
    /// A session that is not running and has no image yet; the border
    /// defaults to none and the accepted delay to fifty milliseconds.
    /// Times and delays are in nanoseconds.
    pub fn new(
        window_class: String,
        window_title: String,
        border: Option<Border>,
        delay_ns: Option<u64>,
    ) -> (r: ClientCapture)
        ensures
            r@.window_class == window_class@,
            r@.window_title == window_title@,
            r@.border == (match border {
                Some(b) => b,
                None => Border { left: 0, top: 0, right: 0, bottom: 0 },
            }),
            r@.delay_ns == (match delay_ns {
                Some(d) => d,
                None => DEFAULT_DELAY_NS,
            }),
            !r@.running,
            !r@.paused,
            !r@.stopped,
            r@.latest is None,
    {
        let border = match border {
            Some(b) => b,
            None => Border { left: 0, top: 0, right: 0, bottom: 0 },
        };
        let delay_ns = match delay_ns {
            Some(d) => d,
            None => DEFAULT_DELAY_NS,
        };
        ClientCapture {
            window_class,
            window_title,
            border,
            delay_ns,
            running: false,
            paused: false,
            stopped: false,
            latest: None,
        }
    }

    pub fn window_class(&self) -> (r: &String)
        ensures
            r@ == self@.window_class,
    {
        &self.window_class
    }

    pub fn window_title(&self) -> (r: &String)
        ensures
            r@ == self@.window_title,
    {
        &self.window_title
    }

    pub fn border(&self) -> (r: Border)
        ensures
            r == self@.border,
    {
        self.border
    }

    /// Starts the session: clears the pause and stop flags and marks the
    /// background loop as running. A running session is left as it is.
    pub fn start(&mut self) -> (r: Result<(), SessionError>)
        ensures
            old(self)@.running ==> r == Err::<(), SessionError>(SessionError::AlreadyRunning)
                && final(self)@ == old(self)@,
            !old(self)@.running ==> r is Ok && final(self)@ == (SessionView {
                running: true,
                paused: false,
                stopped: false,
                ..old(self)@
            }),
    {
        if self.running {
            return Err(SessionError::AlreadyRunning);
        }
        self.stopped = false;
        self.paused = false;
        self.running = true;
        Ok(())
    }

    /// Whether the background loop has been started and has not finished.
    pub fn is_running(&self) -> (r: bool)
        ensures
            r == self@.running,
    {
        self.running
    }

    /// Records that the background loop has ended.
    pub fn finish(&mut self)
        ensures
            final(self)@ == (SessionView { running: false, ..old(self)@ }),
    {
        self.running = false;
    }

    /// Stops publishing new images until `resume`.
    pub fn pause(&mut self)
        ensures
            final(self)@ == (SessionView { paused: true, ..old(self)@ }),
    {
        self.paused = true;
    }

    /// Publishes new images again.
    pub fn resume(&mut self)
        ensures
            final(self)@ == (SessionView { paused: false, ..old(self)@ }),
    {
        self.paused = false;
    }

    /// Asks a running session to stop; on a session that is not running it
    /// does nothing.
    pub fn stop(&mut self)
        ensures
            old(self)@.running ==> final(self)@ == (SessionView { stopped: true, ..old(self)@ }),
            !old(self)@.running ==> final(self)@ == old(self)@,
    {
        if self.running {
            self.stopped = true;
        }
    }

    /// Whether publishing is paused.
    pub fn is_paused(&self) -> (r: bool)
        ensures
            r == self@.paused,
    {
        self.paused
    }

    /// Whether the session has been asked to stop.
    pub fn is_stopped(&self) -> (r: bool)
        ensures
            r == self@.stopped,
    {
        self.stopped
    }

    /// The latest image, read at `now`: none before the first one was
    /// published, and none when it is older than the accepted delay.
    pub fn get_img(&self, now: u64) -> (r: Result<CroppedImage, ImageError>)
        ensures
            self@.latest is None ==> r == Err::<CroppedImage, ImageError>(ImageError::NoImageYet),
            self@.latest is Some ==> {
                let s = self@.latest->Some_0;
                if is_stale(now, s.captured_at, self@.delay_ns) {
                    r == Err::<CroppedImage, ImageError>(ImageError::ImageStale)
                } else {
                    r is Ok && r->Ok_0.width == s.width && r->Ok_0.height == s.height
                        && r->Ok_0.data@ == s.data
                }
            },
    {
        match &self.latest {
            None => Err(ImageError::NoImageYet),
            Some(s) => {
                if now > s.captured_at && now - s.captured_at > self.delay_ns {
                    Err(ImageError::ImageStale)
                } else {
                    let data = s.image.data.clone();
                    Ok(CroppedImage { width: s.image.width, height: s.image.height, data })
                }
            },
        }
    }

    /// Handles one frame of the window, with the window and client
    /// rectangles read for it, at time `now`: asks for the backend to stop
    /// when the session was stopped, does nothing while paused, and otherwise
    /// publishes the cropped client area or reports why the frame was dropped.
    pub fn on_frame(&mut self, frame: &RawFrame, window: Rect, client: Rect, now: u64) -> (r:
        FrameAction)
        ensures
            frame_effect(old(self)@, final(self)@, r, *frame, window, client, now),
    {
        if self.stopped {
            return FrameAction::StopCapture;
        }
        if self.paused {
            return FrameAction::Skipped;
        }
        match crop_client(frame, window, client, self.border) {
            Ok(image) => {
                self.latest = Some(Sample { image, captured_at: now });
                FrameAction::Published
            },
            Err(e) => FrameAction::Rejected(e),
        }
    }

    /// The step that follows a window lookup: leave when stopped, capture
    /// the window that was found, or wait before trying again.
    pub fn next_attempt(&self, resolved: Option<isize>) -> (r: RetryAction)
        ensures
            r == attempt_action(self@.stopped, resolved),
    {
        if self.stopped {
            RetryAction::Exit
        } else {
            match resolved {
                Some(h) => RetryAction::Capture(h),
                None => RetryAction::Backoff(BACKOFF_MS),
            }
        }
    }

    /// The step that follows the end of a capture: leave when stopped, wait
    /// after a failure, and otherwise look the window up again.
    pub fn after_capture(&self, failed: bool) -> (r: RetryAction)
        ensures
            self@.stopped ==> r == RetryAction::Exit,
            !self@.stopped && failed ==> r == RetryAction::Backoff(BACKOFF_MS),
            !self@.stopped && !failed ==> r == RetryAction::Resolve,
    {
        if self.stopped {
            RetryAction::Exit
        } else if failed {
            RetryAction::Backoff(BACKOFF_MS)
        } else {
            RetryAction::Resolve
        }
    }
}

/// The state that frames can change is the latest sample alone.
pub open spec fn same_settings(a: SessionView, b: SessionView) -> bool {
    b == (SessionView { latest: b.latest, ..a })
}

/// A run of frames handed to a session: `states[i + 1]` follows `states[i]`
/// when `frames[i]` arrives at `times[i]` and gives `actions[i]`.
pub open spec fn frame_run(
    states: Seq<SessionView>,
    actions: Seq<FrameAction>,
    frames: Seq<RawFrame>,
    windows: Seq<Rect>,
    clients: Seq<Rect>,
    times: Seq<u64>,
) -> bool {
    &&& states.len() == frames.len() + 1
    &&& actions.len() == frames.len()
    &&& windows.len() == frames.len()
    &&& clients.len() == frames.len()
    &&& times.len() == frames.len()
    &&& forall|i: int|
        0 <= i < frames.len() ==> #[trigger] frame_effect(
            states[i],
            states[i + 1],
            actions[i],
            frames[i],
            windows[i],
            clients[i],
            times[i],
        )
}

proof fn lemma_run_keeps_settings(
    states: Seq<SessionView>,
    actions: Seq<FrameAction>,
    frames: Seq<RawFrame>,
    windows: Seq<Rect>,
    clients: Seq<Rect>,
    times: Seq<u64>,
)
    requires
        frame_run(states, actions, frames, windows, clients, times),
    ensures
        forall|i: int| 0 <= i < states.len() ==> same_settings(states[0], #[trigger] states[i]),
    decreases frames.len(),
{
    if frames.len() > 0 {
        let n = frames.len() - 1;
        lemma_run_keeps_settings(
            states.take(n + 1),
            actions.take(n),
            frames.take(n),
            windows.take(n),
            clients.take(n),
            times.take(n),
        );
        assert forall|i: int| 0 <= i < states.len() implies same_settings(
            states[0],
            #[trigger] states[i],
        ) by {
            if i < n + 1 {
                assert(states.take(n + 1)[i] == states[i]);
            } else {
                assert(frame_effect(
                    states[n],
                    states[n + 1],
                    actions[n],
                    frames[n],
                    windows[n],
                    clients[n],
                    times[n],
                ));
                assert(states.take(n + 1)[n] == states[n]);
            }
        }
    }
}

/// Latest wins: when a running, unpaused session receives a run of frames
/// that can all be cropped, the sample it holds afterwards is the last
/// frame's client area, captured at the last frame's time.
pub proof fn lemma_latest_wins(
    states: Seq<SessionView>,
    actions: Seq<FrameAction>,
    frames: Seq<RawFrame>,
    windows: Seq<Rect>,
    clients: Seq<Rect>,
    times: Seq<u64>,
)
    requires
        frame_run(states, actions, frames, windows, clients, times),
        frames.len() > 0,
        !states[0].paused,
        !states[0].stopped,
        forall|i: int|
            0 <= i < frames.len() ==> (#[trigger] frames[i]).wf() && crop_region_of(
                frames[i].width,
                frames[i].height,
                windows[i],
                clients[i],
                states[0].border,
            ) is Ok,
    ensures
        ({
            let n = frames.len() - 1;
            let region = crop_region_of(
                frames[n].width,
                frames[n].height,
                windows[n],
                clients[n],
                states[0].border,
            )->Ok_0;
            &&& actions[n] == FrameAction::Published
            &&& states[n + 1].latest is Some
            &&& states[n + 1].latest->Some_0.captured_at == times[n]
            &&& states[n + 1].latest->Some_0.width == region.width
            &&& states[n + 1].latest->Some_0.height == region.height
            &&& is_crop_of(states[n + 1].latest->Some_0.data, frames[n], region)
        }),
{
    lemma_run_keeps_settings(states, actions, frames, windows, clients, times);
    let n = frames.len() - 1;
    assert(same_settings(states[0], states[n]));
    assert(frames[n].wf());
    assert(frame_effect(
        states[n],
        states[n + 1],
        actions[n],
        frames[n],
        windows[n],
        clients[n],
        times[n],
    ));
}

/// Pausing suppresses delivery: while a session stays paused, frames publish
/// nothing and the sample it holds stays as it was; once resumed, the next
/// frame that can be cropped is published.
pub proof fn lemma_pause_suppresses_delivery(
    states: Seq<SessionView>,
    actions: Seq<FrameAction>,
    frames: Seq<RawFrame>,
    windows: Seq<Rect>,
    clients: Seq<Rect>,
    times: Seq<u64>,
    resumed: SessionView,
    after: SessionView,
    r: FrameAction,
    frame: RawFrame,
    window: Rect,
    client: Rect,
    now: u64,
)
    requires
        frame_run(states, actions, frames, windows, clients, times),
        states[0].paused,
        !states[0].stopped,
        resumed == (SessionView { paused: false, ..states.last() }),
        frame_effect(resumed, after, r, frame, window, client, now),
        frame.wf(),
        crop_region_of(frame.width, frame.height, window, client, resumed.border) is Ok,
    ensures
        forall|i: int| 0 <= i < frames.len() ==> #[trigger] actions[i] == FrameAction::Skipped,
        states.last().latest == states[0].latest,
        r == FrameAction::Published,
        after.latest is Some && after.latest->Some_0.captured_at == now,
{
    lemma_run_keeps_settings(states, actions, frames, windows, clients, times);
    assert(same_settings(states[0], states.last()));
    assert forall|i: int| 0 <= i < frames.len() implies #[trigger] actions[i]
        == FrameAction::Skipped by {
        assert(same_settings(states[0], states[i]));
        assert(frame_effect(
            states[i],
            states[i + 1],
            actions[i],
            frames[i],
            windows[i],
            clients[i],
            times[i],
        ));
    }
    assert forall|i: int| 0 <= i < states.len() implies #[trigger] states[i].latest
        == states[0].latest by {
        if i > 0 {
            lemma_paused_step_chain(states, actions, frames, windows, clients, times, i);
        }
    }
}

proof fn lemma_paused_step_chain(
    states: Seq<SessionView>,
    actions: Seq<FrameAction>,
    frames: Seq<RawFrame>,
    windows: Seq<Rect>,
    clients: Seq<Rect>,
    times: Seq<u64>,
    i: int,
)
    requires
        frame_run(states, actions, frames, windows, clients, times),
        states[0].paused,
        0 <= i < states.len(),
    ensures
        states[i] == states[0],
    decreases i,
{
    if i > 0 {
        let j = i - 1;
        lemma_paused_step_chain(states, actions, frames, windows, clients, times, j);
        assert(frame_effect(
            states[j],
            states[j + 1],
            actions[j],
            frames[j],
            windows[j],
            clients[j],
            times[j],
        ));
    }
}

/// Resilience to losing the window: when the lookup fails `k` times and then
/// finds a handle, a session that was not stopped waits the backoff after
/// each failure and then captures the window found.
pub proof fn lemma_retry_until_found(resolved: Seq<Option<isize>>, k: int)
    requires
        0 <= k < resolved.len(),
        forall|i: int| 0 <= i < k ==> (#[trigger] resolved[i]) is None,
        resolved[k] is Some,
    ensures
        forall|i: int|
            0 <= i < k ==> #[trigger] attempt_action(false, resolved[i]) == RetryAction::Backoff(
                BACKOFF_MS,
            ),
        attempt_action(false, resolved[k]) == RetryAction::Capture(resolved[k]->Some_0),
{
}

} // verus!
