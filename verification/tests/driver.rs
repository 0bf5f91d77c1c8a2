use frame_playback::cache::FrameCache;
use frame_playback::driver::{Action, Event, Phase, Playback};
use frame_playback::resize::{Filter, Picture};

fn names(list: &[&str]) -> Vec<String> {
    list.iter().map(|name| name.to_string()).collect()
}

/// A frame of two pixels whose bytes tell which frame it is.
fn frame(seed: u8) -> Picture {
    Picture::new(2, 1, rgba(seed)).unwrap()
}

fn rgba(seed: u8) -> Vec<u8> {
    vec![seed, seed + 1, seed + 2, 255, seed + 3, seed + 4, seed + 5, 255]
}

/// The frame of `seed` as it is emitted for surfaces of its own size.
fn shown(seed: u8) -> Vec<u8> {
    vec![seed + 2, seed + 1, seed, 255, seed + 5, seed + 4, seed + 3, 255]
}

struct Log {
    emissions: Vec<(Vec<String>, Vec<u8>)>,
    waits: Vec<u32>,
    rests: usize,
    forwarded: usize,
    cached: Option<usize>,
    stopped: bool,
}

/// Plays a session as its thread would: decodes from `frames`, forwards to a
/// cache, answers each time the driver listens with what `script` gives for
/// the number of times it has listened before, and leaves after `limit`
/// emissions.
fn drive(
    session: &mut Playback,
    frames: Vec<(Picture, u32, u32)>,
    script: &dyn Fn(usize) -> Event,
    limit: usize,
) -> Log {
    let mut log = Log {
        emissions: Vec::new(),
        waits: Vec::new(),
        rests: 0,
        forwarded: 0,
        cached: None,
        stopped: false,
    };
    let mut source = frames.into_iter();
    let mut cache = Some(FrameCache::new());
    let mut event = Event::Started;
    loop {
        assert!(session.admits(&event));
        match session.step(event) {
            Action::Decode => {
                event = match source.next() {
                    Some((picture, delay_numer, delay_denom)) => {
                        assert!(session.shows(&picture));
                        session.decoded(picture, delay_numer, delay_denom)
                    },
                    None => Event::Exhausted,
                };
            },
            Action::Listen { duration_ms, forward } => {
                if let Some(frame) = forward {
                    assert_eq!(frame.duration_ms, duration_ms);
                    cache.as_mut().unwrap().push(&frame.buffer, frame.duration_ms);
                    log.forwarded += 1;
                }
                log.waits.push(duration_ms);
                event = script(log.waits.len() + log.rests - 1);
            },
            Action::Emit { outputs, buffer } => {
                log.emissions.push((outputs, buffer));
                if log.emissions.len() == limit {
                    return log;
                }
                event = Event::Done;
            },
            Action::AwaitCache => {
                let frames = cache.take().unwrap().finish();
                log.cached = Some(frames.len());
                event = Event::Cached(frames);
            },
            Action::Idle => {
                log.rests += 1;
                event = script(log.waits.len() + log.rests - 1);
            },
            Action::Stop => {
                log.stopped = true;
                return log;
            },
        }
    }
}

fn three_frames() -> Vec<(Picture, u32, u32)> {
    vec![(frame(10), 100, 1), (frame(20), 150, 1), (frame(30), 200, 1)]
}

#[test]
fn three_frames_play_once_and_then_go_round() {
    let mut session = Playback::new(names(&["A", "B"]), 2, 1, Filter::Nearest);
    let log = drive(&mut session, three_frames(), &|_| Event::TimedOut, 9);
    assert_eq!(log.forwarded, 3);
    assert_eq!(log.cached, Some(3));
    assert_eq!(log.waits, vec![100, 150, 200, 100, 150, 200, 100, 150, 200]);
    assert_eq!(log.emissions.len(), 9);
    for (at, (outputs, buffer)) in log.emissions.iter().enumerate() {
        assert_eq!(outputs, &names(&["A", "B"]));
        assert_eq!(buffer, &shown(10 * (at % 3 + 1) as u8));
    }
    assert_eq!(session.phase(), Phase::LoopedReplay);
    assert!(!log.stopped);
}

#[test]
fn first_pass_emits_once_for_every_frame() {
    for count in 2..6usize {
        let frames: Vec<(Picture, u32, u32)> =
            (0..count).map(|at| (frame(at as u8 * 10), at as u32 + 1, 1)).collect();
        let mut session = Playback::new(names(&["A"]), 2, 1, Filter::Nearest);
        let log = drive(&mut session, frames, &|_| Event::TimedOut, count);
        assert_eq!(log.emissions.len(), count);
        assert_eq!(log.forwarded, count);
        assert_eq!(log.cached, None);
        assert_eq!(session.phase(), Phase::FirstPass);
    }
}

#[test]
fn removal_of_one_output_leaves_the_other_playing() {
    let mut session = Playback::new(names(&["A", "B"]), 2, 1, Filter::Nearest);
    // The removal arrives after the second emission, while the third frame
    // waits.
    let script = |listened: usize| {
        if listened == 2 {
            Event::Removal(names(&["A"]))
        } else {
            Event::TimedOut
        }
    };
    let log = drive(&mut session, three_frames(), &script, 7);
    assert_eq!(log.emissions.len(), 7);
    for (at, (outputs, buffer)) in log.emissions.iter().enumerate() {
        if at < 2 {
            assert_eq!(outputs, &names(&["A", "B"]));
        } else {
            assert_eq!(outputs, &names(&["B"]));
        }
        assert_eq!(buffer, &shown(10 * (at % 3 + 1) as u8));
    }
    // The third frame's wait is taken up again after the removal.
    assert_eq!(log.waits, vec![100, 150, 200, 200, 100, 150, 200, 100]);
    assert_eq!(log.forwarded, 3);
    assert_eq!(session.outputs(), &names(&["B"]));
    assert_eq!(session.phase(), Phase::LoopedReplay);
    assert!(!log.stopped);
}

#[test]
fn removal_does_not_cut_the_wait_short() {
    let mut session = Playback::new(names(&["A", "B"]), 2, 1, Filter::Nearest);
    assert!(matches!(session.step(Event::Started), Action::Decode));
    let event = session.decoded(frame(10), 100, 1);
    assert!(matches!(session.step(event), Action::Listen { duration_ms: 100, forward: Some(_) }));
    assert!(session.admits(&Event::Removal(names(&["A"]))));
    assert!(matches!(
        session.step(Event::Removal(names(&["A"]))),
        Action::Listen { duration_ms: 100, forward: None }
    ));
    assert_eq!(session.outputs(), &names(&["B"]));
    assert_eq!(session.phase(), Phase::FirstPass);
    assert!(matches!(
        session.step(Event::Removal(names(&["C"]))),
        Action::Listen { duration_ms: 100, forward: None }
    ));
    assert!(!session.admits(&Event::Done));
    match session.step(Event::TimedOut) {
        Action::Emit { outputs, buffer } => {
            assert_eq!(outputs, names(&["B"]));
            assert_eq!(buffer, shown(10));
        },
        _ => panic!("the frame was not emitted when its wait ran out"),
    }
}

#[test]
fn removal_during_replay_does_not_cut_the_wait_short() {
    let mut session = Playback::new(names(&["A", "B"]), 2, 1, Filter::Nearest);
    let script = |listened: usize| match listened {
        4 => Event::Removal(names(&["B"])),
        5 => Event::Removal(names(&["X"])),
        _ => Event::TimedOut,
    };
    let log = drive(&mut session, three_frames(), &script, 6);
    assert_eq!(log.waits, vec![100, 150, 200, 100, 150, 150, 150, 200]);
    assert_eq!(log.emissions.len(), 6);
    for (at, (outputs, buffer)) in log.emissions.iter().enumerate() {
        if at < 4 {
            assert_eq!(outputs, &names(&["A", "B"]));
        } else {
            assert_eq!(outputs, &names(&["A"]));
        }
        assert_eq!(buffer, &shown(10 * (at % 3 + 1) as u8));
    }
}

#[test]
fn removal_of_all_outputs_before_any_emission_ends_the_session() {
    let mut session = Playback::new(names(&["A", "B"]), 2, 1, Filter::Nearest);
    let log = drive(&mut session, three_frames(), &|_| Event::Removal(names(&["A", "B"])), 9);
    assert!(log.stopped);
    assert!(log.emissions.is_empty());
    assert_eq!(log.forwarded, 1);
    assert_eq!(log.cached, None);
    assert_eq!(session.phase(), Phase::Terminated);
    assert!(session.outputs().is_empty());
}

#[test]
fn removal_of_all_outputs_in_two_parts_ends_the_session() {
    let mut session = Playback::new(names(&["A", "B"]), 2, 1, Filter::Nearest);
    let script = |listened: usize| match listened {
        0 => Event::Removal(names(&["B"])),
        2 => Event::Removal(names(&["A", "C"])),
        _ => Event::TimedOut,
    };
    let log = drive(&mut session, three_frames(), &script, 9);
    assert!(log.stopped);
    assert_eq!(log.waits, vec![100, 100, 150]);
    assert_eq!(log.emissions.len(), 1);
    assert_eq!(log.emissions[0].0, names(&["A"]));
    assert_eq!(log.emissions[0].1, shown(10));
    assert_eq!(session.phase(), Phase::Terminated);
    assert!(session.outputs().is_empty());
}

#[test]
fn removals_within_one_wait_add_up_to_the_end() {
    let mut session = Playback::new(names(&["A", "B"]), 2, 1, Filter::Nearest);
    let script = |listened: usize| match listened {
        0 => Event::Removal(names(&["B"])),
        _ => Event::Removal(names(&["A"])),
    };
    let log = drive(&mut session, three_frames(), &script, 9);
    assert!(log.stopped);
    assert_eq!(log.waits, vec![100, 100]);
    assert!(log.emissions.is_empty());
    assert_eq!(session.phase(), Phase::Terminated);
}

#[test]
fn removal_during_replay_ends_the_session() {
    let mut session = Playback::new(names(&["A"]), 2, 1, Filter::Nearest);
    let script = |listened: usize| {
        if listened == 4 {
            Event::Removal(names(&["A"]))
        } else {
            Event::TimedOut
        }
    };
    let log = drive(&mut session, three_frames(), &script, 9);
    assert!(log.stopped);
    assert_eq!(log.emissions.len(), 4);
    assert_eq!(log.emissions[3].1, shown(10));
    assert_eq!(session.phase(), Phase::Terminated);
}

#[test]
fn consumer_gone_ends_the_session() {
    let mut session = Playback::new(names(&["A", "B"]), 2, 1, Filter::Nearest);
    let script = |listened: usize| {
        if listened == 1 {
            Event::Disconnected
        } else {
            Event::TimedOut
        }
    };
    let log = drive(&mut session, three_frames(), &script, 9);
    assert!(log.stopped);
    assert_eq!(log.emissions.len(), 1);
    assert_eq!(session.phase(), Phase::Terminated);
    assert_eq!(session.outputs(), &names(&["A", "B"]));
}

#[test]
fn single_frame_is_shown_once_and_never_replayed() {
    let mut session = Playback::new(names(&["A"]), 2, 1, Filter::Nearest);
    let log = drive(&mut session, vec![(frame(40), 90, 1)], &|_| Event::TimedOut, 9);
    assert!(log.stopped);
    assert_eq!(log.cached, Some(1));
    assert_eq!(log.emissions.len(), 1);
    assert_eq!(log.emissions[0].1, shown(40));
    assert_eq!(log.waits, vec![90]);
    assert_eq!(session.phase(), Phase::Terminated);
}

#[test]
fn source_without_frames_only_listens() {
    let mut session = Playback::new(names(&["A", "B"]), 2, 1, Filter::Nearest);
    assert!(matches!(session.step(Event::Started), Action::Decode));
    assert!(matches!(session.step(Event::Exhausted), Action::AwaitCache));
    assert!(matches!(session.step(Event::Cached(Vec::new())), Action::Idle));
    assert_eq!(session.phase(), Phase::LoopedReplay);
    assert!(!session.admits(&Event::Done));
    assert!(!session.admits(&Event::TimedOut));
    assert!(!session.admits(&Event::Exhausted));
    assert!(session.admits(&Event::Disconnected));
    assert!(session.admits(&Event::Removal(names(&["A"]))));
    assert!(matches!(session.step(Event::Removal(names(&["A"]))), Action::Idle));
    assert_eq!(session.outputs(), &names(&["B"]));
    assert_eq!(session.phase(), Phase::LoopedReplay);
    assert!(matches!(session.step(Event::Removal(names(&["X"]))), Action::Idle));
    assert!(session.admits(&Event::Removal(names(&["B"]))));
    assert!(matches!(session.step(Event::Removal(names(&["B"]))), Action::Stop));
    assert_eq!(session.phase(), Phase::Terminated);
    assert!(session.outputs().is_empty());
}

#[test]
fn source_without_frames_ends_when_every_output_leaves() {
    let mut session = Playback::new(names(&["A"]), 2, 1, Filter::Nearest);
    let log = drive(&mut session, Vec::new(), &|_| Event::Removal(names(&["A"])), 9);
    assert!(log.stopped);
    assert_eq!(log.cached, Some(0));
    assert_eq!(log.rests, 1);
    assert!(log.emissions.is_empty());
    assert!(log.waits.is_empty());
    assert_eq!(session.phase(), Phase::Terminated);
}

#[test]
fn source_without_frames_ends_when_the_consumer_is_gone() {
    let mut session = Playback::new(names(&["A", "B"]), 2, 1, Filter::Nearest);
    let script = |listened: usize| {
        if listened < 3 {
            Event::Removal(names(&["B"]))
        } else {
            Event::Disconnected
        }
    };
    let log = drive(&mut session, Vec::new(), &script, 9);
    assert!(log.stopped);
    assert_eq!(log.rests, 4);
    assert!(log.emissions.is_empty());
    assert_eq!(session.phase(), Phase::Terminated);
    assert_eq!(session.outputs(), &names(&["A"]));
}

#[test]
fn session_that_is_over_only_asks_to_stop() {
    let mut session = Playback::new(Vec::new(), 2, 1, Filter::Nearest);
    assert_eq!(session.phase(), Phase::Terminated);
    assert!(session.admits(&Event::Started));
    assert!(matches!(session.step(Event::Started), Action::Stop));
    assert!(session.admits(&Event::TimedOut));
    assert!(matches!(session.step(Event::TimedOut), Action::Stop));
    let event = Event::Decoded { buffer: vec![0; 3], delay_numer: 1, delay_denom: 0 };
    assert!(session.admits(&event));
    assert!(matches!(session.step(event), Action::Stop));
    assert_eq!(session.phase(), Phase::Terminated);
}

#[test]
fn frames_are_scaled_to_the_surfaces() {
    let mut session = Playback::new(names(&["A"]), 4, 2, Filter::Nearest);
    let log = drive(&mut session, three_frames(), &|_| Event::TimedOut, 5);
    for (_, buffer) in log.emissions.iter() {
        assert_eq!(buffer.len(), 32);
    }
    assert_eq!(&log.emissions[0].1[0..8], &[12, 11, 10, 255, 12, 11, 10, 255]);
    assert_eq!(log.emissions[3].1, log.emissions[0].1);
    assert_eq!(log.emissions[4].1, log.emissions[1].1);
}

#[test]
fn delay_is_rounded_down_to_whole_milliseconds() {
    let mut session = Playback::new(names(&["A"]), 2, 1, Filter::Nearest);
    let frames = vec![(frame(1), 100, 3), (frame(2), 5, 10), (frame(3), 70, 7)];
    let log = drive(&mut session, frames, &|_| Event::TimedOut, 6);
    assert_eq!(log.waits, vec![33, 0, 10, 33, 0, 10]);
}

#[test]
fn events_out_of_turn_are_not_admitted() {
    let mut session = Playback::new(names(&["A"]), 2, 1, Filter::Nearest);
    assert!(!session.admits(&Event::Done));
    assert!(!session.admits(&Event::TimedOut));
    assert!(!session.admits(&Event::Exhausted));
    assert!(session.admits(&Event::Started));
    assert!(matches!(session.step(Event::Started), Action::Decode));
    assert!(!session.admits(&Event::Started));
    assert!(!session.admits(&Event::Cached(Vec::new())));
    assert!(session.admits(&Event::Exhausted));
    assert!(!session.admits(&Event::Decoded { buffer: shown(1), delay_numer: 1, delay_denom: 0 }));
    assert!(!session.admits(&Event::Decoded { buffer: vec![0; 7], delay_numer: 1, delay_denom: 1 }));
    assert!(!session.admits(&Event::Decoded { buffer: vec![0; 12], delay_numer: 1, delay_denom: 1 }));
    let flat = Picture::new(0, 1, Vec::new()).unwrap();
    assert!(!session.shows(&flat));
    assert!(session.shows(&frame(1)));
    let event = session.decoded(frame(1), 1, 1);
    assert!(matches!(&event, Event::Decoded { buffer, delay_numer: 1, delay_denom: 1 } if *buffer == shown(1)));
    assert!(session.admits(&event));
    assert!(matches!(session.step(event), Action::Listen { duration_ms: 1, forward: Some(_) }));
    assert!(!session.admits(&Event::Done));
    assert!(!session.admits(&Event::Exhausted));
    assert!(session.admits(&Event::Disconnected));
    assert!(session.admits(&Event::Removal(Vec::new())));
    assert!(matches!(session.step(Event::TimedOut), Action::Emit { .. }));
    assert!(!session.admits(&Event::TimedOut));
    assert!(matches!(session.step(Event::Done), Action::Decode));
    assert!(matches!(session.step(Event::Exhausted), Action::AwaitCache));
    assert_eq!(session.phase(), Phase::CacheHandoff);
    assert!(!session.admits(&Event::Done));
    assert!(session.admits(&Event::Cached(Vec::new())));
}

#[test]
fn decoded_frame_keeps_its_delay_and_fills_the_surfaces() {
    let session = Playback::new(names(&["A"]), 3, 3, Filter::CatmullRom);
    assert!(session.shows(&frame(5)));
    match session.decoded(frame(5), 70, 3) {
        Event::Decoded { buffer, delay_numer, delay_denom } => {
            assert_eq!(buffer.len(), 36);
            assert_eq!(delay_numer, 70);
            assert_eq!(delay_denom, 3);
        },
        _ => panic!("a decoded frame gave another event"),
    }
}
