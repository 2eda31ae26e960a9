use dr_rustario::animate::{
    AnimationEvent, AnimationType, DrAnimation, DrAnimationType, IdleAnimation, VirusAnimation,
    VirusAnimationState, VirusAnimationType, NANOS_PER_SECOND,
};
use dr_rustario::pill::VirusColor;

const MILLI: u64 = 1_000_000;

#[test]
fn a_still_figure_stays_at_its_first_picture() {
    let mut animation = DrAnimation::new(DrAnimationType::Static, 5);
    assert_eq!(DrAnimationType::Static.fps(), None);
    assert_eq!(animation.frame_duration, 0);
    animation.update(3 * NANOS_PER_SECOND);
    animation.update(u64::MAX);
    assert_eq!(animation.frame(), 0);
    assert_eq!(animation.iteration(), 0);
    assert_eq!(animation.duration, u64::MAX);
}

#[test]
fn pictures_follow_each_other_and_start_again_after_the_last() {
    let mut animation = DrAnimation::new(DrAnimationType::nes_snes_victory(), 3);
    assert_eq!(DrAnimationType::nes_snes_victory().fps(), Some(4));
    assert_eq!(animation.frame_duration, 250 * MILLI);
    animation.update(249 * MILLI);
    assert_eq!(animation.frame(), 0);
    animation.update(1 * MILLI);
    assert_eq!(animation.frame(), 1);
    assert_eq!(animation.duration, 0);
    // two pictures are due, and a tenth of a second of the third
    animation.update(600 * MILLI);
    assert_eq!(animation.frame(), 0);
    assert_eq!(animation.duration, 100 * MILLI);
    assert_eq!(animation.iteration(), 1);
    // seven more pictures: twice round, and one on
    animation.update(1_650 * MILLI);
    assert_eq!(animation.frame(), 1);
    assert_eq!(animation.iteration(), 2);
    assert!(!animation.invert);
    animation.reset();
    assert_eq!(animation.frame(), 0);
    assert_eq!(animation.duration, 0);
    assert_eq!(animation.iteration(), 2);
}

#[test]
fn a_yo_yo_goes_back_after_the_last_picture() {
    let mut animation = DrAnimation::new(DrAnimationType::YoYo { fps: 10 }, 4);
    let mut seen = Vec::new();
    for _ in 0..12 {
        seen.push(animation.frame());
        animation.update(100 * MILLI);
    }
    assert_eq!(seen, vec![0, 1, 2, 3, 3, 2, 1, 0, 0, 1, 2, 3]);
    assert_eq!(animation.iteration(), 3);
    assert!(animation.invert);
    animation.reset();
    assert!(!animation.invert);
}

#[test]
fn the_last_picture_stays_for_the_pause() {
    let kind = DrAnimationType::retro_throw();
    assert_eq!(
        kind,
        DrAnimationType::LinearWithPause { fps: 10, pause_for: 200 * MILLI, resume_from_frame: 0 }
    );
    let mut animation = DrAnimation::new(kind, 3);
    animation.update(250 * MILLI);
    assert_eq!(animation.frame(), 2);
    assert_eq!(animation.paused_for, None);
    animation.update(100 * MILLI);
    assert_eq!(animation.frame(), 2);
    assert_eq!(animation.paused_for, Some(200 * MILLI));
    assert_eq!(animation.duration, 50 * MILLI);
    animation.update(150 * MILLI);
    assert_eq!(animation.frame(), 2);
    assert_eq!(animation.paused_for, Some(50 * MILLI));
    assert_eq!(animation.iteration(), 0);
    // the pause ends when its time is up to the nanosecond
    animation.update(50 * MILLI);
    assert_eq!(animation.paused_for, None);
    assert_eq!(animation.frame(), 0);
    assert_eq!(animation.duration, 0);
    assert_eq!(animation.iteration(), 1);
}

#[test]
fn after_the_pause_the_animation_goes_on_from_its_picture() {
    let kind = DrAnimationType::n64_game_over();
    assert_eq!(kind.fps(), Some(7));
    assert_eq!(DrAnimationType::n64_victory().fps(), Some(7));
    let mut animation = DrAnimation::new(kind, 25);
    assert_eq!(animation.frame_duration, 142_857_142);
    animation.update(10 * NANOS_PER_SECOND);
    assert_eq!(animation.frame(), 24);
    assert_eq!(animation.paused_for, Some(2_000 * MILLI));
    animation.update(3 * NANOS_PER_SECOND);
    assert_eq!(animation.frame(), 18);
    assert_eq!(animation.iteration(), 1);
    animation.update(142_857_142);
    assert_eq!(animation.frame(), 19);
}

#[test]
fn a_waiting_figure_is_animated_like_any_other() {
    let mut idle = IdleAnimation::new(2, DrAnimationType::Linear { fps: 2 });
    assert_eq!(idle.frame(), 0);
    idle.update(500 * MILLI);
    assert_eq!(idle.frame(), 1);
    idle.update(500 * MILLI);
    assert_eq!(idle.frame(), 0);
    idle.update(700 * MILLI);
    idle.reset();
    assert_eq!(idle.frame(), 0);
    assert_eq!(idle.dr.duration, 0);
    assert_eq!(idle.dr.iteration(), 1);
}

#[test]
fn viruses_of_each_color_are_animated_on_their_own() {
    let kind = VirusAnimationType::linear_standard();
    assert_eq!(kind.fps(), 3);
    assert!(!kind.is_yo_yo());
    assert_eq!(kind.frame_duration(), 333_333_333);
    let mut viruses = VirusAnimation::new(2, 3, 4, kind);
    viruses.update(NANOS_PER_SECOND);
    assert_eq!(viruses.frame(VirusColor::Red), 1);
    assert_eq!(viruses.frame(VirusColor::Blue), 0);
    assert_eq!(viruses.frame(VirusColor::Yellow), 3);
    assert_eq!(viruses.yellow.duration, 1);
    viruses.update(333_333_332);
    assert_eq!(viruses.frame(VirusColor::Yellow), 0);
    viruses.reset();
    assert_eq!(viruses.frame(VirusColor::Red), 0);

    let kind = VirusAnimationType::yo_yo_standard();
    assert!(kind.is_yo_yo());
    let mut viruses = VirusAnimation::new(2, 3, 4, kind);
    viruses.update(NANOS_PER_SECOND);
    assert_eq!(viruses.frame(VirusColor::Red), 0);
    assert_eq!(viruses.frame(VirusColor::Blue), 2);
    assert_eq!(viruses.frame(VirusColor::Yellow), 3);
    assert!(viruses.red.invert && viruses.blue.invert && !viruses.yellow.invert);
}

#[test]
fn a_virus_animation_counts_round_its_pictures() {
    let mut state = VirusAnimationState::new(3);
    state.update(7, 2, true);
    assert_eq!(state.frame, 0);
    assert_eq!(state.duration, 1);
    assert!(state.invert);
    assert_eq!(state.frame(), 2);
    state.update(1, 2, true);
    assert_eq!(state.frame(), 1);
    state.reset();
    assert_eq!(state.frame(), 0);
    assert_eq!(
        AnimationEvent::Finished { player: 1, animation: AnimationType::Throw },
        AnimationEvent::Finished { player: 1, animation: AnimationType::Throw }
    );
}
