//! Frame counters for what is shown around a game: which picture of a
//! figure or of a virus is due after so much time.

use crate::game::summed;
use crate::pill::VirusColor;
use vstd::prelude::*;

verus! {

pub const NANOS_PER_SECOND: u64 = 1_000_000_000;

/// What kind of animation has finished.
#[derive(Debug, Clone, Copy, Eq, PartialEq, Structural)]
pub enum AnimationType {
    Throw,
}

/// Something that has happened to an animation.
#[derive(Debug, Clone, Copy, Eq, PartialEq, Structural)]
pub enum AnimationEvent {
    Finished { player: u32, animation: AnimationType },
}

/// One more round, as a machine integer counts it.
pub open spec fn next_round(n: usize) -> usize {
    if n < usize::MAX {
        (n + 1) as usize
    } else {
        n
    }
}

/// A second shared out among at most as many pictures as it has
/// nanoseconds leaves some time for each.
pub proof fn lemma_frame_nanos(fps: u32)
    requires
        0 < fps <= NANOS_PER_SECOND,
    ensures
        NANOS_PER_SECOND / (fps as u64) > 0,
{
    assert(1_000_000_000int / (fps as int) > 0) by (nonlinear_arith)
        requires
            0 < fps <= 1_000_000_000,
    ;
}

/// A count taken round after so many is less than so many.
pub proof fn lemma_round(total: int, max_frame: int)
    requires
        0 <= total,
        0 < max_frame,
    ensures
        0 <= total % max_frame < max_frame,
{
    assert(0 <= total % max_frame < max_frame) by (nonlinear_arith)
        requires
            0 <= total,
            0 < max_frame,
    ;
}

/// How the pictures of a figure follow each other.
#[derive(Debug, Copy, Clone, Eq, PartialEq, Structural)]
pub enum DrAnimationType {
    /// Always the first picture.
    Static,
    /// From the first picture to the last, then from the first again.
    Linear { fps: u32 },
    /// From the first picture to the last and back again.
    YoYo { fps: u32 },
    /// From the first picture to the last, which stays for a while; then on
    /// from a given picture. The while is in nanoseconds.
    LinearWithPause { fps: u32, pause_for: u64, resume_from_frame: usize },
}

impl DrAnimationType {
    /// Pictures per second, for a kind that moves.
    pub open spec fn rate(self) -> Option<u32> {
        match self {
            DrAnimationType::Static => None,
            DrAnimationType::Linear { fps } => Some(fps),
            DrAnimationType::YoYo { fps } => Some(fps),
            DrAnimationType::LinearWithPause { fps, .. } => Some(fps),
        }
    }

    /// Nanoseconds for which one picture stays: a second shared out among
    /// the pictures of a second; none for a kind that does not move.
    pub open spec fn frame_nanos(self) -> u64 {
        match self.rate() {
            Some(fps) => if fps > 0 {
                NANOS_PER_SECOND / (fps as u64)
            } else {
                0
            },
            None => 0,
        }
    }

    /// The kind can be played: a kind that moves shows at least one picture
    /// a second and no picture for less than a nanosecond.
    pub open spec fn playable(self) -> bool {
        self.rate() matches Some(fps) ==> 0 < fps <= NANOS_PER_SECOND
    }

    /// How a capsule is thrown in the older themes.
    pub fn retro_throw() -> (kind: Self)
        ensures
            kind == (DrAnimationType::LinearWithPause {
                fps: 10,
                pause_for: 200_000_000,
                resume_from_frame: 0,
            }),
    {
        DrAnimationType::LinearWithPause { fps: 10, pause_for: 200_000_000, resume_from_frame: 0 }
    }

    pub fn nes_snes_victory() -> (kind: Self)
        ensures
            kind == (DrAnimationType::Linear { fps: 4 }),
    {
        DrAnimationType::Linear { fps: 4 }
    }

    pub fn n64_victory() -> (kind: Self)
        ensures
            kind == (DrAnimationType::LinearWithPause {
                fps: 7,
                pause_for: 2_000_000_000,
                resume_from_frame: 0,
            }),
    {
        DrAnimationType::LinearWithPause { fps: 7, pause_for: 2_000_000_000, resume_from_frame: 0 }
    }

    pub fn n64_game_over() -> (kind: Self)
        ensures
            kind == (DrAnimationType::LinearWithPause {
                fps: 7,
                pause_for: 2_000_000_000,
                resume_from_frame: 18,
            }),
    {
        DrAnimationType::LinearWithPause { fps: 7, pause_for: 2_000_000_000, resume_from_frame: 18 }
    }

    pub fn fps(&self) -> (fps: Option<u32>)
        ensures
            fps == self.rate(),
    {
        match self {
            DrAnimationType::Static => None,
            DrAnimationType::Linear { fps } => Some(*fps),
            DrAnimationType::YoYo { fps } => Some(*fps),
            DrAnimationType::LinearWithPause { fps, .. } => Some(*fps),
        }
    }
}

/// The animation of a figure: which picture is shown, how long it has been
/// shown, and how often the pictures have been gone through.
#[derive(Clone, Copy, Debug)]
pub struct DrAnimation {
    pub animation_type: DrAnimationType,
    /// Nanoseconds for which the picture has been shown.
    pub duration: u64,
    /// Nanoseconds for which one picture stays.
    pub frame_duration: u64,
    /// Nanoseconds for which the last picture still stays, while it does.
    pub paused_for: Option<u64>,
    pub frame: usize,
    /// The pictures are gone through backwards.
    pub invert: bool,
    pub iteration: usize,
    pub max_frame: usize,
}

impl DrAnimation {
    /// The animation can go on: a kind that moves has pictures and a time
    /// for each; where the first picture follows the last, the picture
    /// shown is one of them; and only the kind that goes back and forth
    /// goes through its pictures backwards.
    pub open spec fn wf(self) -> bool {
        &&& self.frame_duration == self.animation_type.frame_nanos()
        &&& !(self.animation_type is Static) ==> self.animation_type.playable() && self.max_frame
            > 0
        &&& self.animation_type is Linear || self.animation_type is YoYo ==> self.frame
            < self.max_frame
        &&& self.invert ==> self.animation_type is YoYo
    }

    /// How many pictures further the animation is after the time that the
    /// picture has been shown.
    pub open spec fn frames_due(self) -> int {
        self.duration as int / self.frame_duration as int
    }

    /// The time for which the picture that is then due has been shown.
    pub open spec fn time_left(self) -> u64 {
        (self.duration as int % self.frame_duration as int) as u64
    }

    /// The animation after the pictures that are due have been counted, for
    /// a kind in which the first picture follows the last. Going round
    /// counts as a round, and turns the direction where that is asked for.
    pub open spec fn wrapped(self, turn: bool) -> DrAnimation {
        let total = self.frame + self.frames_due();
        if total >= self.max_frame {
            DrAnimation {
                duration: self.time_left(),
                frame: (total % self.max_frame as int) as usize,
                iteration: next_round(self.iteration),
                invert: if turn {
                    !self.invert
                } else {
                    self.invert
                },
                ..self
            }
        } else {
            DrAnimation { duration: self.time_left(), frame: total as usize, ..self }
        }
    }

    /// The animation after `delta` nanoseconds. A still one stays at its
    /// first picture. One that moves goes on by a picture for every full
    /// time of a picture. With a pause, the last picture stays for the
    /// pause once it is reached; when the pause is over, a round is
    /// counted and the animation goes on from the picture set for that.
    pub open spec fn updated(self, delta: u64) -> DrAnimation {
        let timed = DrAnimation { duration: summed(self.duration, delta), ..self };
        match self.animation_type {
            DrAnimationType::Static => DrAnimation { frame: 0, iteration: 0, ..timed },
            DrAnimationType::Linear { .. } => timed.wrapped(false),
            DrAnimationType::YoYo { .. } => timed.wrapped(true),
            DrAnimationType::LinearWithPause { pause_for, resume_from_frame, .. } => match self.paused_for {
                Some(left) => if left > delta {
                    DrAnimation { paused_for: Some((left - delta) as u64), ..timed }
                } else {
                    DrAnimation {
                        paused_for: None,
                        duration: 0,
                        iteration: next_round(self.iteration),
                        frame: resume_from_frame,
                        ..timed
                    }
                },
                None => if timed.frame + timed.frames_due() >= self.max_frame {
                    DrAnimation {
                        duration: timed.time_left(),
                        frame: (self.max_frame - 1) as usize,
                        paused_for: Some(pause_for),
                        ..timed
                    }
                } else {
                    DrAnimation {
                        duration: timed.time_left(),
                        frame: (timed.frame + timed.frames_due()) as usize,
                        ..timed
                    }
                },
            },
        }
    }

    /// The picture to show: counted from the last one where the pictures
    /// are gone through backwards.
    pub open spec fn shown(self) -> int {
        if self.invert {
            self.max_frame - self.frame - 1
        } else {
            self.frame as int
        }
    }

    /// An animation of a kind with so many pictures, at its first picture.
    pub fn new(animation_type: DrAnimationType, max_frame: usize) -> (animation: Self)
        requires
            animation_type.playable(),
        ensures
            animation == (DrAnimation {
                animation_type,
                duration: 0,
                frame_duration: animation_type.frame_nanos(),
                paused_for: None,
                frame: 0,
                invert: false,
                iteration: 0,
                max_frame,
            }),
            max_frame > 0 || animation_type is Static ==> animation.wf(),
    {
        let frame_duration = match animation_type.fps() {
            Some(fps) => NANOS_PER_SECOND / (fps as u64),
            None => 0,
        };
        Self {
            animation_type,
            duration: 0,
            frame_duration,
            paused_for: None,
            frame: 0,
            invert: false,
            iteration: 0,
            max_frame,
        }
    }

    /// Lets `delta` nanoseconds pass.
    pub fn update(&mut self, delta: u64)
        requires
            old(self).wf(),
        ensures
            *final(self) == old(self).updated(delta),
            final(self).wf(),
    {
        proof {
            if let Some(fps) = self.animation_type.rate() {
                lemma_frame_nanos(fps);
            }
        }
        self.duration = self.duration.saturating_add(delta);
        match self.animation_type {
            DrAnimationType::Static => {
                self.frame = 0;
                self.iteration = 0;
            },
            DrAnimationType::Linear { .. } => {
                self.next_linear(false);
            },
            DrAnimationType::YoYo { .. } => {
                self.next_linear(true);
            },
            DrAnimationType::LinearWithPause { pause_for, resume_from_frame, .. } => {
                match self.paused_for {
                    Some(left) => {
                        if left > delta {
                            self.paused_for = Some(left - delta);
                        } else {
                            self.paused_for = None;
                            self.duration = 0;
                            if self.iteration < usize::MAX {
                                self.iteration = self.iteration + 1;
                            }
                            self.frame = resume_from_frame;
                        }
                    },
                    None => {
                        let total = self.register_frames();
                        if total >= self.max_frame as u128 {
                            self.frame = self.max_frame - 1;
                            self.paused_for = Some(pause_for);
                        } else {
                            self.frame = total as usize;
                        }
                    },
                }
            },
        }
    }

    /// Takes the pictures that are due out of the time that the picture
    /// has been shown, and says which picture that leads to, counting on
    /// beyond the last.
    pub fn register_frames(&mut self) -> (total: u128)
        requires
            old(self).frame_duration > 0,
        ensures
            total == old(self).frame + old(self).frames_due(),
            *final(self) == (DrAnimation { duration: old(self).time_left(), ..*old(self) }),
    {
        let due = self.duration / self.frame_duration;
        self.duration = self.duration % self.frame_duration;
        self.frame as u128 + due as u128
    }

    /// Counts the pictures that are due, going round after the last.
    pub fn next_linear(&mut self, invert: bool)
        requires
            old(self).frame_duration > 0,
            old(self).max_frame > 0,
        ensures
            *final(self) == old(self).wrapped(invert),
            final(self).frame < final(self).max_frame,
    {
        let total = self.register_frames();
        proof {
            lemma_round(total as int, self.max_frame as int);
        }
        if total >= self.max_frame as u128 {
            if self.iteration < usize::MAX {
                self.iteration = self.iteration + 1;
            }
            self.frame = (total % (self.max_frame as u128)) as usize;
            if invert {
                self.invert = !self.invert;
            }
        } else {
            self.frame = total as usize;
        }
    }

    /// Goes back to the first picture, forwards.
    pub fn reset(&mut self)
        ensures
            *final(self) == (DrAnimation { duration: 0, frame: 0, invert: false, ..*old(self) }),
    {
        self.duration = 0;
        self.frame = 0;
        self.invert = false;
    }

    /// The picture to show.
    pub fn frame(&self) -> (frame: usize)
        requires
            self.invert ==> self.frame < self.max_frame,
        ensures
            frame == self.shown(),
            self.frame < self.max_frame ==> frame < self.max_frame,
    {
        if self.invert {
            self.max_frame - self.frame - 1
        } else {
            self.frame
        }
    }

    /// How often the pictures have been gone through.
    pub fn iteration(&self) -> (rounds: usize)
        ensures
            rounds == self.iteration,
    {
        self.iteration
    }
}

/// The animation of a figure that waits.
#[derive(Debug, Clone)]
pub struct IdleAnimation {
    pub dr: DrAnimation,
}

impl IdleAnimation {
    pub fn new(max_frame: usize, dr_type: DrAnimationType) -> (animation: Self)
        requires
            dr_type.playable(),
        ensures
            animation.dr == (DrAnimation {
                animation_type: dr_type,
                duration: 0,
                frame_duration: dr_type.frame_nanos(),
                paused_for: None,
                frame: 0,
                invert: false,
                iteration: 0,
                max_frame,
            }),
            max_frame > 0 || dr_type is Static ==> animation.dr.wf(),
    {
        Self { dr: DrAnimation::new(dr_type, max_frame) }
    }

    pub fn update(&mut self, delta: u64)
        requires
            old(self).dr.wf(),
        ensures
            final(self).dr == old(self).dr.updated(delta),
            final(self).dr.wf(),
    {
        self.dr.update(delta);
    }

    pub fn reset(&mut self)
        ensures
            final(self).dr == (DrAnimation { duration: 0, frame: 0, invert: false, ..old(self).dr }),
    {
        self.dr.reset();
    }

    pub fn frame(&self) -> (frame: usize)
        requires
            self.dr.invert ==> self.dr.frame < self.dr.max_frame,
        ensures
            frame == self.dr.shown(),
    {
        self.dr.frame()
    }
}

/// How the pictures of a virus follow each other.
#[derive(Debug, Copy, Clone, Eq, PartialEq, Structural)]
pub enum VirusAnimationType {
    Linear { fps: u32 },
    YoYo { fps: u32 },
}

impl VirusAnimationType {
    /// Pictures per second.
    pub open spec fn rate(self) -> u32 {
        match self {
            VirusAnimationType::Linear { fps } => fps,
            VirusAnimationType::YoYo { fps } => fps,
        }
    }

    pub fn linear_standard() -> (kind: Self)
        ensures
            kind == (VirusAnimationType::Linear { fps: 3 }),
    {
        VirusAnimationType::Linear { fps: 3 }
    }

    pub fn yo_yo_standard() -> (kind: Self)
        ensures
            kind == (VirusAnimationType::YoYo { fps: 3 }),
    {
        VirusAnimationType::YoYo { fps: 3 }
    }

    pub fn is_yo_yo(&self) -> (yo_yo: bool)
        ensures
            yo_yo == (*self is YoYo),
    {
        match self {
            VirusAnimationType::YoYo { .. } => true,
            _ => false,
        }
    }

    pub fn fps(&self) -> (fps: u32)
        ensures
            fps == self.rate(),
    {
        match self {
            VirusAnimationType::Linear { fps } => *fps,
            VirusAnimationType::YoYo { fps } => *fps,
        }
    }

    /// Nanoseconds for which one picture stays.
    pub fn frame_duration(&self) -> (nanos: u64)
        requires
            self.rate() > 0,
        ensures
            nanos == NANOS_PER_SECOND / (self.rate() as u64),
    {
        NANOS_PER_SECOND / (self.fps() as u64)
    }
}

/// The animation of the viruses of one color.
#[derive(Clone, Copy, Debug)]
pub struct VirusAnimationState {
    pub duration: u64,
    pub frame: usize,
    pub invert: bool,
    pub max_frame: usize,
}

impl VirusAnimationState {
    /// There are pictures, and the one shown is one of them.
    pub open spec fn wf(self) -> bool {
        self.frame < self.max_frame
    }

    /// The state after `delta` nanoseconds, with `frame_duration`
    /// nanoseconds to a picture: on by a picture for every full time of a
    /// picture, round after the last, and turned about there if asked.
    pub open spec fn updated(self, delta: u64, frame_duration: u64, is_yo_yo: bool) -> VirusAnimationState {
        let duration = summed(self.duration, delta);
        let total = self.frame + duration as int / frame_duration as int;
        VirusAnimationState {
            duration: (duration as int % frame_duration as int) as u64,
            frame: if total >= self.max_frame {
                (total % self.max_frame as int) as usize
            } else {
                total as usize
            },
            invert: if total >= self.max_frame && is_yo_yo {
                !self.invert
            } else {
                self.invert
            },
            max_frame: self.max_frame,
        }
    }

    pub open spec fn shown(self) -> int {
        if self.invert {
            self.max_frame - self.frame - 1
        } else {
            self.frame as int
        }
    }

    pub fn new(max_frame: usize) -> (state: Self)
        ensures
            state == (VirusAnimationState { duration: 0, frame: 0, invert: false, max_frame }),
    {
        Self { duration: 0, frame: 0, invert: false, max_frame }
    }

    pub fn update(&mut self, delta: u64, frame_duration: u64, is_yo_yo: bool)
        requires
            frame_duration > 0,
            old(self).max_frame > 0,
        ensures
            *final(self) == old(self).updated(delta, frame_duration, is_yo_yo),
            final(self).wf(),
    {
        self.duration = self.duration.saturating_add(delta);
        let due = self.duration / frame_duration;
        self.duration = self.duration % frame_duration;
        let total = self.frame as u128 + due as u128;
        proof {
            lemma_round(total as int, self.max_frame as int);
        }
        if total >= self.max_frame as u128 {
            self.frame = (total % (self.max_frame as u128)) as usize;
            if is_yo_yo {
                self.invert = !self.invert;
            }
        } else {
            self.frame = total as usize;
        }
    }

    pub fn frame(&self) -> (frame: usize)
        requires
            self.invert ==> self.frame < self.max_frame,
        ensures
            frame == self.shown(),
            self.frame < self.max_frame ==> frame < self.max_frame,
    {
        if self.invert {
            self.max_frame - self.frame - 1
        } else {
            self.frame
        }
    }

    pub fn reset(&mut self)
        ensures
            *final(self) == (VirusAnimationState {
                duration: 0,
                frame: 0,
                invert: false,
                max_frame: old(self).max_frame,
            }),
    {
        self.duration = 0;
        self.frame = 0;
        self.invert = false;
    }
}

/// The animations of the viruses, one for each color, all of one kind.
#[derive(Clone, Copy, Debug)]
pub struct VirusAnimation {
    pub red: VirusAnimationState,
    pub blue: VirusAnimationState,
    pub yellow: VirusAnimationState,
    pub animation_type: VirusAnimationType,
    pub frame_duration: u64,
}

impl VirusAnimation {
    /// Every color has pictures, the picture shown is one of them, and a
    /// picture stays for some time.
    pub open spec fn wf(self) -> bool {
        &&& self.frame_duration > 0
        &&& self.red.wf()
        &&& self.blue.wf()
        &&& self.yellow.wf()
    }

    /// The animation of one color.
    pub open spec fn of(self, color: VirusColor) -> VirusAnimationState {
        match color {
            VirusColor::Yellow => self.yellow,
            VirusColor::Blue => self.blue,
            VirusColor::Red => self.red,
        }
    }

    pub fn new(
        red_frames: usize,
        blue_frames: usize,
        yellow_frames: usize,
        animation_type: VirusAnimationType,
    ) -> (animation: Self)
        requires
            animation_type.rate() > 0,
        ensures
            animation == (VirusAnimation {
                red: VirusAnimationState { duration: 0, frame: 0, invert: false, max_frame: red_frames },
                blue: VirusAnimationState {
                    duration: 0,
                    frame: 0,
                    invert: false,
                    max_frame: blue_frames,
                },
                yellow: VirusAnimationState {
                    duration: 0,
                    frame: 0,
                    invert: false,
                    max_frame: yellow_frames,
                },
                animation_type,
                frame_duration: NANOS_PER_SECOND / (animation_type.rate() as u64),
            }),
            red_frames > 0 && blue_frames > 0 && yellow_frames > 0 && animation_type.rate()
                <= NANOS_PER_SECOND ==> animation.wf(),
    {
        proof {
            if animation_type.rate() <= NANOS_PER_SECOND {
                lemma_frame_nanos(animation_type.rate());
            }
        }
        let frame_duration = animation_type.frame_duration();
        Self {
            red: VirusAnimationState::new(red_frames),
            blue: VirusAnimationState::new(blue_frames),
            yellow: VirusAnimationState::new(yellow_frames),
            animation_type,
            frame_duration,
        }
    }

    /// Lets `delta` nanoseconds pass for every color.
    pub fn update(&mut self, delta: u64)
        requires
            old(self).wf(),
        ensures
            final(self).wf(),
            final(self).animation_type == old(self).animation_type,
            final(self).frame_duration == old(self).frame_duration,
            forall|color: VirusColor|
                #[trigger] final(self).of(color) == old(self).of(color).updated(
                    delta,
                    old(self).frame_duration,
                    old(self).animation_type is YoYo,
                ),
    {
        let is_yo_yo = self.animation_type.is_yo_yo();
        self.red.update(delta, self.frame_duration, is_yo_yo);
        self.blue.update(delta, self.frame_duration, is_yo_yo);
        self.yellow.update(delta, self.frame_duration, is_yo_yo);
    }

    pub fn reset(&mut self)
        ensures
            final(self).animation_type == old(self).animation_type,
            final(self).frame_duration == old(self).frame_duration,
            forall|color: VirusColor|
                #[trigger] final(self).of(color) == (VirusAnimationState {
                    duration: 0,
                    frame: 0,
                    invert: false,
                    max_frame: old(self).of(color).max_frame,
                }),
    {
        self.red.reset();
        self.blue.reset();
        self.yellow.reset();
    }

    /// The picture to show for the viruses of a color.
    pub fn frame(&self, color: VirusColor) -> (frame: usize)
        requires
            self.of(color).invert ==> self.of(color).frame < self.of(color).max_frame,
        ensures
            frame == self.of(color).shown(),
    {
        match color {
            VirusColor::Yellow => self.yellow.frame(),
            VirusColor::Blue => self.blue.frame(),
            VirusColor::Red => self.red.frame(),
        }
    }
}

} // verus!
