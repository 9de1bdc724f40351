//! What the combat rules ask of the animation player and hear back from it.

use vstd::prelude::*;
use vstd::string::StringExecFns;
use crate::text::str_eq;

pub use crate::geometry::AnimationFaceDir;

verus! {

/// How an animation is played.
#[derive(Clone, Copy, Debug, PartialEq, Eq, Structural)]
pub enum AnimationMode {
    Once,
    Loop,
    Remove,
}

/// A unit's standing orders to the animation player.
#[derive(Debug)]
pub struct Cocos2dAnimator {
    /// The time that one run of the animation is stretched to, in milliseconds.
    pub duration: Option<u64>,
    /// The animation to switch to; the player takes it out once it has switched.
    pub new_anim: Option<String>,
    pub mode: AnimationMode,
    /// The channel on which the player reports this unit's animation events.
    pub event_channel: Option<i32>,
    pub face_dir: AnimationFaceDir,
}

/// The orders to the animation player, the name asked for as characters.
pub struct AnimatorView {
    pub duration: Option<u64>,
    pub new_anim: Option<Seq<char>>,
    pub mode: AnimationMode,
    pub event_channel: Option<i32>,
    pub face_dir: AnimationFaceDir,
}

impl View for Cocos2dAnimator {
    type V = AnimatorView;

    open spec fn view(&self) -> AnimatorView {
        AnimatorView {
            duration: self.duration,
            new_anim: match self.new_anim {
                Some(name) => Some(name@),
                None => None,
            },
            mode: self.mode,
            event_channel: self.event_channel,
            face_dir: self.face_dir,
        }
    }
}

/// The orders `a`, asking for the animation `name` in the mode `mode`.
pub open spec fn asked(a: AnimatorView, name: Seq<char>, mode: AnimationMode) -> AnimatorView {
    AnimatorView { new_anim: Some(name), mode, ..a }
}

/// The orders `a`, asking for the animation `name` unless `playing` is that
/// animation already.
pub open spec fn asked_unless_playing(
    a: AnimatorView,
    playing: Seq<char>,
    name: Seq<char>,
    mode: AnimationMode,
) -> AnimatorView {
    if playing == name {
        a
    } else {
        asked(a, name, mode)
    }
}

/// The orders `a`, facing `face` where it names a side.
pub open spec fn faced(a: AnimatorView, face: Option<AnimationFaceDir>) -> AnimatorView {
    match face {
        Some(dir) => AnimatorView { face_dir: dir, ..a },
        None => a,
    }
}

/// What the animation player is playing for a unit, and the frame it shows.
#[derive(Debug)]
pub struct Cocos2dAnimatorPlayer {
    /// The frame shown; `NOT_STARTED` before the first.
    pub frame_idx: usize,
    pub anim_name: String,
}

/// The frame index of an animation of which no frame has been shown yet.
pub const NOT_STARTED: usize = usize::MAX;

/// What a step of the animation player comes to.
#[derive(Clone, Copy, Debug, PartialEq, Eq, Structural)]
pub enum FrameStep {
    /// The animation, played once, was at its last frame: it has ended, and
    /// nothing is shown or reported any more.
    Ended,
    /// A frame is shown; `last` says whether it is the animation's last.
    Shown { last: bool },
    /// The animation was at its last frame and is to be taken away with all
    /// it shows.
    Removed,
}

/// The frame that follows the frame `frame_idx` of an animation of
/// `frame_size` frames played in the mode `mode`, and what the step comes to.
pub open spec fn next_frame(frame_idx: usize, frame_size: usize, mode: AnimationMode) -> (
    usize,
    FrameStep,
) {
    if frame_idx == NOT_STARTED {
        (0, FrameStep::Shown { last: 1 >= frame_size })
    } else if frame_idx + 1 >= frame_size {
        match mode {
            AnimationMode::Once => (frame_idx, FrameStep::Ended),
            AnimationMode::Loop => (0, FrameStep::Shown { last: 1 >= frame_size }),
            AnimationMode::Remove => (frame_idx, FrameStep::Removed),
        }
    } else {
        ((frame_idx + 1) as usize, FrameStep::Shown { last: frame_idx + 2 >= frame_size })
    }
}

/// What is reported of a step that shows a frame with the marks `marks`, on
/// the channel `channel`: the end of the animation, if the frame is the last,
/// and then each mark. A step that shows nothing reports nothing.
pub open spec fn frame_reports(entity: u64, channel: i32, step: FrameStep, marks: Seq<String>) -> Seq<
    AnimEvent,
> {
    let customs = marks.map_values(
        |mark: String| AnimEvent { entity, channel, evt_type: EventType::Custom(mark) },
    );
    match step {
        FrameStep::Ended => Seq::empty(),
        FrameStep::Removed => seq![AnimEvent { entity, channel, evt_type: EventType::End }]
            + customs,
        FrameStep::Shown { last } => if last {
            seq![AnimEvent { entity, channel, evt_type: EventType::End }] + customs
        } else {
            customs
        },
    }
}

/// What an animation reports.
#[derive(Debug)]
pub enum EventType {
    /// A frame that the animation's author marked, with the mark's text.
    Custom(String),
    /// The animation's last frame was shown.
    End,
}

/// One report of an animation, with the unit it plays for.
#[derive(Debug)]
pub struct AnimEvent {
    pub entity: u64,
    pub channel: i32,
    pub evt_type: EventType,
}

impl Cocos2dAnimator {
    /// Orders that ask for nothing: play once, face right.
    pub fn new() -> (a: Cocos2dAnimator)
        ensures
            a@ == (AnimatorView {
                duration: None,
                new_anim: None,
                mode: AnimationMode::Once,
                event_channel: None,
                face_dir: AnimationFaceDir::Right,
            }),
    {
        Cocos2dAnimator {
            duration: None,
            new_anim: None,
            mode: AnimationMode::Once,
            event_channel: None,
            face_dir: AnimationFaceDir::Right,
        }
    }

    /// Asks the player to switch to the animation `name`.
    pub fn switch_anim(&mut self, name: &str)
        ensures
            final(self)@ == (AnimatorView { new_anim: Some(name@), ..old(self)@ }),
    {
        self.new_anim = Some(String::from_str(name));
    }

    /// Asks for the animation `name` in the mode `mode`.
    pub fn play(&mut self, name: &str, mode: AnimationMode)
        ensures
            final(self)@ == asked(old(self)@, name@, mode),
    {
        self.new_anim = Some(String::from_str(name));
        self.mode = mode;
    }

    /// Asks for the animation `name` in the mode `mode`, unless the player
    /// plays it already.
    pub fn play_unless_playing(
        &mut self,
        player: &Cocos2dAnimatorPlayer,
        name: &str,
        mode: AnimationMode,
    )
        ensures
            final(self)@ == asked_unless_playing(old(self)@, player.anim_name@, name@, mode),
    {
        if !str_eq(player.anim_name.as_str(), name) {
            self.play(name, mode);
        }
    }

    /// Turns the unit to `face`, where it names a side.
    pub fn turn(&mut self, face: Option<AnimationFaceDir>)
        ensures
            final(self)@ == faced(old(self)@, face),
    {
        if let Some(dir) = face {
            self.face_dir = dir;
        }
    }
}

/// The player takes up the animation that the orders ask for: it plays that
/// animation from now on, and the orders ask for nothing more. Orders that ask
/// for nothing change nothing.
pub fn anim_cfg_change(cfg: &mut Cocos2dAnimator, player: &mut Cocos2dAnimatorPlayer) -> (switched:
    bool)
    ensures
        switched == old(cfg)@.new_anim is Some,
        final(cfg)@ == (AnimatorView { new_anim: None, ..old(cfg)@ }),
        match old(cfg)@.new_anim {
            Some(name) => final(player).anim_name@ == name && final(player).frame_idx
                == NOT_STARTED,
            None => *final(player) == *old(player),
        },
{
    match cfg.new_anim.take() {
        Some(name) => {
            player.frame_idx = NOT_STARTED;
            player.anim_name = name;
            true
        },
        None => false,
    }
}

/// Steps the player to the next frame of its animation, which has
/// `frame_size` frames and is played as the orders `cfg` say.
pub fn animate_sprite(player: &mut Cocos2dAnimatorPlayer, cfg: &Cocos2dAnimator, frame_size: usize) -> (step:
    FrameStep)
    ensures
        (final(player).frame_idx, step) == next_frame(old(player).frame_idx, frame_size, cfg.mode),
        final(player).anim_name == old(player).anim_name,
{
    if player.frame_idx == NOT_STARTED {
        player.frame_idx = 0;
    } else if player.frame_idx + 1 >= frame_size {
        match cfg.mode {
            AnimationMode::Once => {
                return FrameStep::Ended;
            },
            AnimationMode::Loop => {
                player.frame_idx = 0;
            },
            AnimationMode::Remove => {
                return FrameStep::Removed;
            },
        }
    } else {
        player.frame_idx = player.frame_idx + 1;
    }
    FrameStep::Shown { last: frame_size == 0 || player.frame_idx >= frame_size - 1 }
}

/// The reports of a step of the animation of `entity` that shows a frame
/// with the marks `marks`: none where the orders name no channel.
pub fn report_frame(entity: u64, cfg: &Cocos2dAnimator, step: FrameStep, marks: &Vec<String>) -> (reports:
    Vec<AnimEvent>)
    ensures
        reports@ == match cfg.event_channel {
            Some(channel) => frame_reports(entity, channel, step, marks@),
            None => Seq::empty(),
        },
{
    let mut reports: Vec<AnimEvent> = Vec::new();
    let channel = match cfg.event_channel {
        Some(channel) => channel,
        None => {
            return reports;
        },
    };
    let ends = match step {
        FrameStep::Ended => {
            return reports;
        },
        FrameStep::Removed => true,
        FrameStep::Shown { last } => last,
    };
    if ends {
        reports.push(AnimEvent { entity, channel, evt_type: EventType::End });
    }
    let ghost head = reports@;
    let ghost customs = marks@.map_values(
        |mark: String| AnimEvent { entity, channel, evt_type: EventType::Custom(mark) },
    );
    let mut i: usize = 0;
    while i < marks.len()
        invariant
            i <= marks.len(),
            customs == marks@.map_values(
                |mark: String| AnimEvent { entity, channel, evt_type: EventType::Custom(mark) },
            ),
            reports@ == head + customs.take(i as int),
        decreases marks.len() - i,
    {
        reports.push(AnimEvent { entity, channel, evt_type: EventType::Custom(marks[i].clone()) });
        assert(customs.take(i + 1) == customs.take(i as int).push(customs[i as int]));
        i += 1;
    }
    assert(customs.take(marks@.len() as int) == customs);
    assert(head + customs == if ends {
        seq![AnimEvent { entity, channel, evt_type: EventType::End }] + customs
    } else {
        customs
    });
    reports
}

} // verus!
