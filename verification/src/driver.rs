//! The playback driver: the state machine that plays an animation once from
//! its source and then replays it from the cache.
//!
//! The driver decides; whoever runs it acts. Every call of [`Playback::step`]
//! takes the event that answers the previous action and returns the next
//! action: fetch a frame, listen for removals for a while, emit a buffer,
//! wait for the cache, or stop.

use vstd::prelude::*;
use crate::cache::{contents_of, CachedFrame, CachedView, Frame};
use crate::outputs::{names_of, remove_outputs, without};
use crate::resize::{bgra_of, img_resize, is_fixed, packed_len, resized, Filter, Picture};
use crate::timing::{duration_of, frame_duration_ms};

verus! {

/// The part of a session's life that the driver is in.
#[derive(Clone, Copy, Debug, PartialEq, Eq)]
pub enum Phase {
    /// Playing the source's frames as they are decoded.
    FirstPass,
    /// The source is exhausted; waiting for the finished cache.
    CacheHandoff,
    /// Replaying the cache in a cycle.
    LoopedReplay,
    /// Over: nothing is emitted any more.
    Terminated,
}

/// What the driver waits for inside a phase.
#[derive(Clone, Copy, Debug, PartialEq, Eq)]
pub enum Stage {
    /// Nothing has happened yet.
    Created,
    /// A frame of the source, or the cache, has been asked for.
    Fetching,
    /// A frame is ready and waits out its time while removals are heard.
    Listening,
    /// A buffer has been handed out for emission.
    Emitting,
}

/// What happened outside, told to the driver.
#[derive(Debug)]
pub enum Event {
    /// The session's thread has started.
    Started,
    /// The source gave its next frame: the frame as a buffer that fills the
    /// session's surfaces, with the delay that the source records for it as a
    /// fraction of milliseconds. [`Playback::decoded`] makes this event from
    /// a picture.
    Decoded { buffer: Vec<u8>, delay_numer: u32, delay_denom: u32 },
    /// The source has no more frames.
    Exhausted,
    /// The consumer named outputs that leave the session.
    Removal(Vec<String>),
    /// The wait ran out with no word from the consumer.
    TimedOut,
    /// The consumer dropped its end of the removal channel.
    Disconnected,
    /// The last action was carried out.
    Done,
    /// The cache builder delivered the finished cache.
    Cached(Vec<CachedFrame>),
}

/// What the driver asks to be done next.
#[derive(Debug)]
pub enum Action {
    /// Decode the source's next frame and report `Decoded`, or `Exhausted`
    /// where there is none.
    Decode,
    /// Hand `forward`, if there is one, to the cache builder, then listen for
    /// a removal for as long as is left of `duration_ms` since the previous
    /// emission, and report `Removal`, `TimedOut` or `Disconnected`.
    Listen { duration_ms: u32, forward: Option<Frame> },
    /// Send the buffer to the consumer for these outputs, start counting the
    /// time from now, and report `Done`.
    Emit { outputs: Vec<String>, buffer: Vec<u8> },
    /// Close the cache builder's input, wait for the cache and report
    /// `Cached`.
    AwaitCache,
    /// There is nothing to show: wait for word from the consumer, however
    /// long it takes, and report `Removal` or `Disconnected`.
    Idle,
    /// The session is over: leave.
    Stop,
}

/// An event as a value of the model.
pub enum EventView {
    Started,
    Decoded { buffer: Seq<u8>, delay_numer: u32, delay_denom: u32 },
    Exhausted,
    Removal(Seq<Seq<char>>),
    TimedOut,
    Disconnected,
    Done,
    Cached(Seq<CachedView>),
}

/// An action as a value of the model.
pub enum ActionView {
    Decode,
    Listen { duration_ms: u32, forward: Option<(Seq<u8>, u32)> },
    Emit { outputs: Seq<Seq<char>>, buffer: Seq<u8> },
    AwaitCache,
    Idle,
    Stop,
}

impl View for Event {
    type V = EventView;

    open spec fn view(&self) -> EventView {
        match *self {
            Event::Started => EventView::Started,
            Event::Decoded { buffer, delay_numer, delay_denom } => EventView::Decoded {
                buffer: buffer@,
                delay_numer,
                delay_denom,
            },
            Event::Exhausted => EventView::Exhausted,
            Event::Removal(gone) => EventView::Removal(names_of(gone@)),
            Event::TimedOut => EventView::TimedOut,
            Event::Disconnected => EventView::Disconnected,
            Event::Done => EventView::Done,
            Event::Cached(frames) => EventView::Cached(contents_of(frames@)),
        }
    }
}

impl View for Action {
    type V = ActionView;

    open spec fn view(&self) -> ActionView {
        match *self {
            Action::Decode => ActionView::Decode,
            Action::Listen { duration_ms, forward } => ActionView::Listen {
                duration_ms,
                forward: match forward {
                    Some(frame) => Some((frame.buffer@, frame.duration_ms)),
                    None => None,
                },
            },
            Action::Emit { outputs, buffer } => ActionView::Emit {
                outputs: names_of(outputs@),
                buffer: buffer@,
            },
            Action::AwaitCache => ActionView::AwaitCache,
            Action::Idle => ActionView::Idle,
            Action::Stop => ActionView::Stop,
        }
    }
}

/// A session as a value of the model.
pub struct PlaybackView {
    /// The outputs that still listen, in the order they were given.
    pub outputs: Seq<Seq<char>>,
    /// The width of the surfaces, in pixels.
    pub width: u32,
    /// The height of the surfaces, in pixels.
    pub height: u32,
    /// The filter that frames are scaled with.
    pub filter: Filter,
    pub phase: Phase,
    pub stage: Stage,
    /// The buffer that waits to be emitted; empty unless listening.
    pub staged: Seq<u8>,
    /// The display time of the buffer that waits, in milliseconds.
    pub staged_ms: u32,
    /// What the cache holds, frame by frame.
    pub cache: Seq<CachedView>,
    /// The place in the cache of the frame that was staged last.
    pub cursor: nat,
}

impl PlaybackView {
    /// What holds of every session: its phase and stage go together, a session
    /// that is not over has an output, the cache is empty until it is handed
    /// over, a buffer that waits during the first pass fills the surfaces, and
    /// during replay the buffer that waits is the cached frame under the
    /// cursor. The replay of an empty cache listens with nothing staged.
    pub open spec fn wf(self) -> bool {
        &&& self.phase != Phase::Terminated ==> self.outputs.len() > 0
        &&& self.stage != Stage::Listening ==> self.staged.len() == 0 && self.staged_ms == 0
        &&& match self.phase {
            Phase::FirstPass => {
                &&& self.cache.len() == 0
                &&& self.cursor == 0
                &&& self.stage == Stage::Listening ==> self.staged.len() == packed_len(
                    self.width,
                    self.height,
                )
            },
            Phase::CacheHandoff => self.stage == Stage::Fetching && self.cache.len() == 0
                && self.cursor == 0,
            Phase::LoopedReplay => {
                &&& self.cache.len() != 1
                &&& self.stage == Stage::Listening || self.stage == Stage::Emitting
                &&& self.cache.len() == 0 ==> {
                    &&& self.stage == Stage::Listening
                    &&& self.cursor == 0
                    &&& self.staged.len() == 0
                    &&& self.staged_ms == 0
                }
                &&& self.cache.len() > 0 ==> self.cursor < self.cache.len()
                &&& self.cache.len() > 0 && self.stage == Stage::Listening ==> {
                    &&& self.staged == self.cache[self.cursor as int].pixels
                    &&& self.staged_ms == self.cache[self.cursor as int].duration_ms
                }
            },
            Phase::Terminated => true,
        }
    }

    /// The session with nothing staged and the given stage.
    pub open spec fn cleared(self, stage: Stage) -> PlaybackView {
        PlaybackView { stage, staged: Seq::empty(), staged_ms: 0, ..self }
    }

    /// The session over.
    pub open spec fn ended(self) -> PlaybackView {
        PlaybackView { phase: Phase::Terminated, ..self.cleared(self.stage) }
    }

    /// The session with the cached frame at `cursor` staged.
    pub open spec fn staging(self, cursor: nat) -> PlaybackView
        recommends
            cursor < self.cache.len(),
    {
        PlaybackView {
            stage: Stage::Listening,
            staged: self.cache[cursor as int].pixels,
            staged_ms: self.cache[cursor as int].duration_ms,
            cursor,
            ..self
        }
    }

    /// The place in the cache that follows the cursor, going round.
    pub open spec fn next_cursor(self) -> nat
        recommends
            self.cache.len() > 0,
    {
        if self.cursor + 1 < self.cache.len() {
            self.cursor + 1
        } else {
            0
        }
    }
}

/// A new session for these outputs and this surface size. It is over at once
/// where no output listens.
pub open spec fn created(outputs: Seq<Seq<char>>, width: u32, height: u32, filter: Filter) -> PlaybackView {
    PlaybackView {
        outputs,
        width,
        height,
        filter,
        phase: if outputs.len() == 0 {
            Phase::Terminated
        } else {
            Phase::FirstPass
        },
        stage: Stage::Created,
        staged: Seq::empty(),
        staged_ms: 0,
        cache: Seq::empty(),
        cursor: 0,
    }
}

/// Whether `event` can answer the action that the session gave last. A
/// session that is over takes any event. A decoded frame must fill the
/// session's surfaces, and its delay must have a denominator. The replay of
/// an empty cache waits without limit, so it hears no timeout.
pub open spec fn admits(pre: PlaybackView, event: EventView) -> bool {
    match pre.phase {
        Phase::Terminated => true,
        Phase::CacheHandoff => event is Cached,
        Phase::FirstPass => match pre.stage {
            Stage::Created => event is Started,
            Stage::Fetching => match event {
                EventView::Decoded { buffer, delay_numer, delay_denom } => {
                    &&& delay_denom != 0
                    &&& buffer.len() == packed_len(pre.width, pre.height)
                },
                EventView::Exhausted => true,
                _ => false,
            },
            Stage::Listening => heard(event),
            Stage::Emitting => event is Done,
        },
        Phase::LoopedReplay => if pre.cache.len() == 0 {
            event is Removal || event is Disconnected
        } else {
            match pre.stage {
                Stage::Listening => heard(event),
                _ => event is Done,
            }
        },
    }
}

/// Whether `event` is an outcome of listening for a removal.
pub open spec fn heard(event: EventView) -> bool {
    event is Removal || event is TimedOut || event is Disconnected
}

/// The outcome of listening while a buffer waits. Outputs that are named
/// leave; with none left, or with the consumer gone, the session is over and
/// nothing is emitted. A removal that leaves an output does not cut the wait
/// short: the buffer goes on waiting, and the rest of its time is listened
/// through. The buffer is emitted when the wait runs out, to the outputs that
/// are left by then.
pub open spec fn listen_step(pre: PlaybackView, event: EventView) -> (PlaybackView, ActionView)
    recommends
        heard(event),
{
    match event {
        EventView::Removal(gone) => {
            let left = without(pre.outputs, gone);
            if left.len() == 0 {
                (PlaybackView { outputs: left, ..pre.ended() }, ActionView::Stop)
            } else {
                (
                    PlaybackView { outputs: left, ..pre },
                    ActionView::Listen { duration_ms: pre.staged_ms, forward: None },
                )
            }
        },
        EventView::TimedOut => (
            pre.cleared(Stage::Emitting),
            ActionView::Emit { outputs: pre.outputs, buffer: pre.staged },
        ),
        _ => (pre.ended(), ActionView::Stop),
    }
}

/// One step of the first pass.
pub open spec fn first_pass_step(pre: PlaybackView, event: EventView) -> (PlaybackView, ActionView)
    recommends
        pre.phase == Phase::FirstPass,
        admits(pre, event),
{
    match pre.stage {
        Stage::Created => (pre.cleared(Stage::Fetching), ActionView::Decode),
        Stage::Fetching => match event {
            EventView::Decoded { buffer, delay_numer, delay_denom } => {
                let millis = duration_of(delay_numer, delay_denom) as u32;
                (
                    PlaybackView {
                        stage: Stage::Listening,
                        staged: buffer,
                        staged_ms: millis,
                        ..pre
                    },
                    ActionView::Listen { duration_ms: millis, forward: Some((buffer, millis)) },
                )
            },
            _ => (
                PlaybackView { phase: Phase::CacheHandoff, ..pre.cleared(Stage::Fetching) },
                ActionView::AwaitCache,
            ),
        },
        Stage::Listening => listen_step(pre, event),
        Stage::Emitting => (pre.cleared(Stage::Fetching), ActionView::Decode),
    }
}

/// The step that takes the finished cache. A cache of exactly one frame ends
/// the session: that frame is on screen already. Any other cache is replayed
/// from its first frame; an empty one leaves nothing to show, and the replay
/// only listens.
pub open spec fn handoff_step(pre: PlaybackView, event: EventView) -> (PlaybackView, ActionView)
    recommends
        pre.phase == Phase::CacheHandoff,
        admits(pre, event),
{
    match event {
        EventView::Cached(cache) => {
            if cache.len() == 1 {
                (pre.ended(), ActionView::Stop)
            } else if cache.len() == 0 {
                (
                    PlaybackView { phase: Phase::LoopedReplay, ..pre.cleared(Stage::Listening) },
                    ActionView::Idle,
                )
            } else {
                (
                    PlaybackView { phase: Phase::LoopedReplay, cache, ..pre }.staging(0),
                    ActionView::Listen { duration_ms: cache[0].duration_ms, forward: None },
                )
            }
        },
        _ => (pre, ActionView::AwaitCache),
    }
}

/// One step of the replay of an empty cache: nothing is ever emitted. Outputs
/// that are named leave; with none left, or with the consumer gone, the
/// session is over. Otherwise the replay goes on listening.
pub open spec fn idle_step(pre: PlaybackView, event: EventView) -> (PlaybackView, ActionView)
    recommends
        event is Removal || event is Disconnected,
{
    match event {
        EventView::Removal(gone) => {
            let left = without(pre.outputs, gone);
            if left.len() == 0 {
                (PlaybackView { outputs: left, ..pre.ended() }, ActionView::Stop)
            } else {
                (PlaybackView { outputs: left, ..pre }, ActionView::Idle)
            }
        },
        EventView::Disconnected => (pre.ended(), ActionView::Stop),
        _ => (pre, ActionView::Idle),
    }
}

/// One step of the replay. After an emission the frame that follows in the
/// cache is staged, the first one after the last.
pub open spec fn replay_step(pre: PlaybackView, event: EventView) -> (PlaybackView, ActionView)
    recommends
        pre.phase == Phase::LoopedReplay,
        admits(pre, event),
{
    if pre.cache.len() == 0 {
        idle_step(pre, event)
    } else if pre.stage == Stage::Listening {
        listen_step(pre, event)
    } else {
        let cursor = pre.next_cursor();
        (
            pre.staging(cursor),
            ActionView::Listen { duration_ms: pre.cache[cursor as int].duration_ms, forward: None },
        )
    }
}

/// One step of the driver: the session after `event`, and the action to
/// carry out next. A session that is over stays over and asks to stop.
pub open spec fn step(pre: PlaybackView, event: EventView) -> (PlaybackView, ActionView)
    recommends
        admits(pre, event),
{
    match pre.phase {
        Phase::FirstPass => first_pass_step(pre, event),
        Phase::CacheHandoff => handoff_step(pre, event),
        Phase::LoopedReplay => replay_step(pre, event),
        Phase::Terminated => (pre, ActionView::Stop),
    }
}

/// A playback session: the outputs that listen, the size of their surfaces,
/// and how far the animation has come.
#[derive(Debug)]
pub struct Playback {
    outputs: Vec<String>,
    width: u32,
    height: u32,
    filter: Filter,
    phase: Phase,
    stage: Stage,
    staged: Vec<u8>,
    staged_ms: u32,
    cache: Vec<CachedFrame>,
    cursor: usize,
}

impl View for Playback {
    type V = PlaybackView;

    closed spec fn view(&self) -> PlaybackView {
        PlaybackView {
            outputs: names_of(self.outputs@),
            width: self.width,
            height: self.height,
            filter: self.filter,
            phase: self.phase,
            stage: self.stage,
            staged: self.staged@,
            staged_ms: self.staged_ms,
            cache: contents_of(self.cache@),
            cursor: self.cursor as nat,
        }
    }
}

impl Playback {
    /// Starts a session for these outputs and surfaces of `width` by
    /// `height`. Nothing has been asked of anyone yet: the session waits for
    /// `Started`.
    pub fn new(outputs: Vec<String>, width: u32, height: u32, filter: Filter) -> (session: Playback)
        ensures
            session@ == created(names_of(outputs@), width, height, filter),
            session@.wf(),
    {
        let phase = if outputs.len() == 0 {
            Phase::Terminated
        } else {
            Phase::FirstPass
        };
        let session = Playback {
            outputs,
            width,
            height,
            filter,
            phase,
            stage: Stage::Created,
            staged: Vec::new(),
            staged_ms: 0,
            cache: Vec::new(),
            cursor: 0,
        };
        assert(session@.staged =~= Seq::<u8>::empty());
        assert(session@.cache =~= Seq::<CachedView>::empty());
        session
    }

    /// The phase that the session is in.
    pub fn phase(&self) -> (phase: Phase)
        ensures
            phase == self@.phase,
    {
        self.phase
    }

    /// The outputs that still listen.
    pub fn outputs(&self) -> (outputs: &Vec<String>)
        ensures
            names_of(outputs@) == self@.outputs,
    {
        &self.outputs
    }

    /// Tells whether the picture can be brought to the size of the session's
    /// surfaces.
    pub fn shows(&self, picture: &Picture) -> (shown: bool)
        ensures
            shown == picture.fits(self@.width, self@.height),
    {
        picture.check_fits(self.width, self.height)
    }

    /// Brings a frame of the source to the size of the session's surfaces, in
    /// BGRA order, with the session's filter, and makes the event that tells
    /// of it. A frame that has the surfaces' size already keeps its pixels.
    pub fn decoded(&self, picture: Picture, delay_numer: u32, delay_denom: u32) -> (event: Event)
        requires
            picture.fits(self@.width, self@.height),
        ensures
            event@ is Decoded,
            event@->delay_numer == delay_numer,
            event@->delay_denom == delay_denom,
            event@->buffer.len() == packed_len(self@.width, self@.height),
            picture.spec_width() == self@.width && picture.spec_height() == self@.height
                ==> event@->buffer == bgra_of(picture.pixels()),
            is_fixed(
                picture.spec_width(),
                picture.spec_height(),
                self@.width,
                self@.height,
                self@.filter,
            ) ==> event@->buffer == resized(
                picture.spec_width(),
                picture.spec_height(),
                picture.pixels(),
                self@.width,
                self@.height,
                self@.filter,
            ),
    {
        let buffer = img_resize(picture, self.width, self.height, self.filter);
        Event::Decoded { buffer, delay_numer, delay_denom }
    }

    /// Tells whether `buffer` holds four bytes for each pixel of the
    /// session's surfaces.
    fn is_filled_by(&self, buffer: &Vec<u8>) -> (filled: bool)
        ensures
            filled == (buffer@.len() == packed_len(self@.width, self@.height)),
    {
        let wide: u128 = self.width as u128;
        let high: u128 = self.height as u128;
        assert(wide * high <= 0xffff_ffff * 0xffff_ffff) by (nonlinear_arith)
            requires
                wide <= 0xffff_ffff,
                high <= 0xffff_ffff,
        ;
        let pixels: u128 = wide * high;
        assert(4 * pixels == packed_len(self.width, self.height)) by (nonlinear_arith)
            requires
                pixels == self.width * self.height,
                packed_len(self.width, self.height) == 4 * self.width * self.height,
        ;
        buffer.len() as u128 == 4 * pixels
    }

    /// Tells whether `event` can answer the action that the session gave
    /// last.
    pub fn admits(&self, event: &Event) -> (admitted: bool)
        ensures
            admitted == admits(self@, event@),
    {
        match self.phase {
            Phase::Terminated => true,
            Phase::CacheHandoff => matches!(event, Event::Cached(_)),
            Phase::FirstPass => match self.stage {
                Stage::Created => matches!(event, Event::Started),
                Stage::Fetching => match event {
                    Event::Decoded { buffer, delay_numer, delay_denom } => {
                        *delay_denom != 0 && self.is_filled_by(buffer)
                    },
                    Event::Exhausted => true,
                    _ => false,
                },
                Stage::Listening => matches!(
                    event,
                    Event::Removal(_) | Event::TimedOut | Event::Disconnected
                ),
                Stage::Emitting => matches!(event, Event::Done),
            },
            Phase::LoopedReplay => if self.cache.len() == 0 {
                matches!(event, Event::Removal(_) | Event::Disconnected)
            } else {
                match self.stage {
                    Stage::Listening => matches!(
                        event,
                        Event::Removal(_) | Event::TimedOut | Event::Disconnected
                    ),
                    _ => matches!(event, Event::Done),
                }
            },
        }
    }

    /// Takes the event that answers the last action and gives the next
    /// action.
    pub fn step(&mut self, event: Event) -> (action: Action)
        requires
            old(self)@.wf(),
            admits(old(self)@, event@),
        ensures
            (final(self)@, action@) == step(old(self)@, event@),
            final(self)@.wf(),
    {
        match self.phase {
            Phase::FirstPass => self.animate(event),
            Phase::CacheHandoff => self.hand_over(event),
            Phase::LoopedReplay => self.loop_animation(event),
            Phase::Terminated => Action::Stop,
        }
    }

    /// The first pass: fetches frame after frame, stages each one scaled to
    /// the surface, and emits it when its time has come.
    fn animate(&mut self, event: Event) -> (action: Action)
        requires
            old(self)@.wf(),
            old(self)@.phase == Phase::FirstPass,
            admits(old(self)@, event@),
        ensures
            (final(self)@, action@) == first_pass_step(old(self)@, event@),
            final(self)@.wf(),
    {
        match self.stage {
            Stage::Created | Stage::Emitting => {
                self.stage = Stage::Fetching;
                assert(self@ == old(self)@.cleared(Stage::Fetching)) by {
                    assert(self@.staged =~= Seq::<u8>::empty());
                }
                Action::Decode
            },
            Stage::Fetching => match event {
                Event::Decoded { buffer, delay_numer, delay_denom } => {
                    let millis = frame_duration_ms(delay_numer, delay_denom);
                    let forward = Frame { buffer: buffer.clone(), duration_ms: millis };
                    assert(forward.buffer@ =~= buffer@);
                    self.staged = buffer;
                    self.staged_ms = millis;
                    self.stage = Stage::Listening;
                    Action::Listen { duration_ms: millis, forward: Some(forward) }
                },
                _ => {
                    self.phase = Phase::CacheHandoff;
                    assert(self@.staged =~= Seq::<u8>::empty());
                    Action::AwaitCache
                },
            },
            Stage::Listening => self.hear(event),
        }
    }

    /// Takes the outcome of listening while a buffer waits.
    fn hear(&mut self, event: Event) -> (action: Action)
        requires
            old(self)@.wf(),
            old(self)@.stage == Stage::Listening,
            old(self)@.phase == Phase::FirstPass || old(self)@.phase == Phase::LoopedReplay,
            old(self)@.phase == Phase::LoopedReplay ==> old(self)@.cache.len() > 0,
            heard(event@),
        ensures
            (final(self)@, action@) == listen_step(old(self)@, event@),
            final(self)@.wf(),
    {
        match event {
            Event::Removal(gone) => {
                remove_outputs(&mut self.outputs, &gone);
                if self.outputs.len() == 0 {
                    self.phase = Phase::Terminated;
                    self.staged = Vec::new();
                    self.staged_ms = 0;
                    assert(self@.staged =~= Seq::<u8>::empty());
                    Action::Stop
                } else {
                    Action::Listen { duration_ms: self.staged_ms, forward: None }
                }
            },
            Event::TimedOut => {
                let mut buffer: Vec<u8> = Vec::new();
                std::mem::swap(&mut self.staged, &mut buffer);
                self.staged_ms = 0;
                self.stage = Stage::Emitting;
                assert(self@.staged =~= Seq::<u8>::empty());
                let outputs = self.outputs.clone();
                assert(names_of(outputs@) =~= names_of(self.outputs@));
                Action::Emit { outputs, buffer }
            },
            _ => {
                self.phase = Phase::Terminated;
                self.staged = Vec::new();
                self.staged_ms = 0;
                assert(self@.staged =~= Seq::<u8>::empty());
                Action::Stop
            },
        }
    }

    /// Takes word from the consumer while an empty cache is replayed.
    fn rest(&mut self, event: Event) -> (action: Action)
        requires
            old(self)@.wf(),
            old(self)@.phase == Phase::LoopedReplay,
            old(self)@.cache.len() == 0,
            event@ is Removal || event@ is Disconnected,
        ensures
            (final(self)@, action@) == idle_step(old(self)@, event@),
            final(self)@.wf(),
    {
        match event {
            Event::Removal(gone) => {
                remove_outputs(&mut self.outputs, &gone);
                if self.outputs.len() == 0 {
                    self.phase = Phase::Terminated;
                    assert(self@.staged =~= Seq::<u8>::empty());
                    Action::Stop
                } else {
                    Action::Idle
                }
            },
            _ => {
                self.phase = Phase::Terminated;
                assert(self@.staged =~= Seq::<u8>::empty());
                Action::Stop
            },
        }
    }

    /// Takes the finished cache and starts the replay, unless the cache holds
    /// exactly one frame.
    fn hand_over(&mut self, event: Event) -> (action: Action)
        requires
            old(self)@.wf(),
            old(self)@.phase == Phase::CacheHandoff,
            admits(old(self)@, event@),
        ensures
            (final(self)@, action@) == handoff_step(old(self)@, event@),
            final(self)@.wf(),
    {
        match event {
            Event::Cached(frames) => {
                if frames.len() == 1 {
                    self.phase = Phase::Terminated;
                    assert(self@.staged =~= Seq::<u8>::empty());
                    Action::Stop
                } else if frames.len() == 0 {
                    self.phase = Phase::LoopedReplay;
                    self.stage = Stage::Listening;
                    assert(self@.staged =~= Seq::<u8>::empty());
                    Action::Idle
                } else {
                    self.cache = frames;
                    self.phase = Phase::LoopedReplay;
                    self.stage_cached(0)
                }
            },
            _ => Action::AwaitCache,
        }
    }

    /// The replay: stages the cached frame that follows the one emitted
    /// last, going round, and emits it when its time has come.
    fn loop_animation(&mut self, event: Event) -> (action: Action)
        requires
            old(self)@.wf(),
            old(self)@.phase == Phase::LoopedReplay,
            admits(old(self)@, event@),
        ensures
            (final(self)@, action@) == replay_step(old(self)@, event@),
            final(self)@.wf(),
    {
        if self.cache.len() == 0 {
            return self.rest(event);
        }
        match self.stage {
            Stage::Listening => self.hear(event),
            _ => {
                let next: usize = if self.cursor + 1 < self.cache.len() {
                    self.cursor + 1
                } else {
                    0
                };
                self.stage_cached(next)
            },
        }
    }

    /// Unpacks the cached frame at `cursor` and stages it.
    fn stage_cached(&mut self, cursor: usize) -> (action: Action)
        requires
            old(self)@.phase == Phase::LoopedReplay,
            old(self)@.outputs.len() > 0,
            old(self)@.cache.len() > 1,
            cursor < old(self)@.cache.len(),
        ensures
            final(self)@ == old(self)@.staging(cursor as nat),
            action@ == (ActionView::Listen {
                duration_ms: old(self)@.cache[cursor as int].duration_ms,
                forward: None,
            }),
            final(self)@.wf(),
    {
        let millis = self.cache[cursor].duration_ms();
        self.staged = self.cache[cursor].decompress();
        self.staged_ms = millis;
        self.cursor = cursor;
        self.stage = Stage::Listening;
        Action::Listen { duration_ms: millis, forward: None }
    }
}

} // verus!
