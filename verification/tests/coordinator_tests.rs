use clibuddy_sidebar::animation::{fade_completed, FadeAnimation, FadeDirection, AnimationType, SidebarAnimation, SidebarOpacityAnimation};
use clibuddy_sidebar::coordinator::{
    over_budget, AnimationCoordinator, AnimationPriority, AnimationState, AnimationTarget,
};

fn generic(ms: u64) -> AnimationType {
    AnimationType::Generic(SidebarAnimation::new(ms))
}

#[test]
fn test_animation_queueing() {
    let mut coordinator = AnimationCoordinator::<AnimationType>::new();
    coordinator.set_max_concurrent(2);

    // Queue 3 animations
    let id1 = coordinator.queue_animation(
        generic(100),
        AnimationTarget::LeftSidebar,
        AnimationPriority::Normal,
        true,
    );

    let id2 = coordinator.queue_animation(
        generic(100),
        AnimationTarget::RightSidebar,
        AnimationPriority::High,
        true,
    );

    let id3 = coordinator.queue_animation(
        generic(100),
        AnimationTarget::Custom("test".to_string()),
        AnimationPriority::Low,
        true,
    );

    // High priority should run first
    assert_eq!(coordinator.get_animation_state(id2), Some(AnimationState::Running));
    assert_eq!(coordinator.get_animation_state(id1), Some(AnimationState::Running));
    assert_eq!(coordinator.get_animation_state(id3), Some(AnimationState::Queued));
}

#[test]
fn test_animation_interruption() {
    let mut coordinator = AnimationCoordinator::<AnimationType>::new();

    // Start an interruptible animation
    let id1 = coordinator.queue_animation(
        generic(1000),
        AnimationTarget::LeftSidebar,
        AnimationPriority::Low,
        true,
    );

    // Start a high priority animation for the same target
    let id2 = coordinator.start_immediate(
        generic(100),
        AnimationTarget::LeftSidebar,
        AnimationPriority::High,
    );

    // First animation should be interrupted
    assert_eq!(coordinator.get_animation_state(id1), Some(AnimationState::Interrupted));
    assert_eq!(coordinator.get_animation_state(id2), Some(AnimationState::Running));
}

#[test]
fn stats_count_every_animation_once() {
    let mut c = AnimationCoordinator::<AnimationType>::new();
    c.set_max_concurrent(1);
    let a = c.queue_animation(generic(10), AnimationTarget::LeftSidebar, AnimationPriority::Low, true);
    let _b = c.queue_animation(generic(10), AnimationTarget::RightSidebar, AnimationPriority::Low, true);
    let _d = c.queue_animation(generic(10), AnimationTarget::Component("x".to_string()), AnimationPriority::Low, true);
    assert!(c.pause_animation(a));
    let s = c.get_stats();
    assert_eq!(s.total, 3);
    assert_eq!(s.queued, 2);
    assert_eq!(s.running, 0);
    assert_eq!(s.paused, 1);
    assert_eq!(s.completed, 0);
    assert_eq!(s.interrupted, 0);
    assert_eq!(s.queued + s.running + s.paused + s.completed + s.interrupted, s.total);
}

#[test]
fn cap_limits_running_animations() {
    let mut c = AnimationCoordinator::<AnimationType>::new();
    c.set_max_concurrent(1);
    let a = c.queue_animation(generic(10), AnimationTarget::LeftSidebar, AnimationPriority::Critical, true);
    let b = c.queue_animation(generic(10), AnimationTarget::RightSidebar, AnimationPriority::Critical, true);
    assert_eq!(c.get_animation_state(a), Some(AnimationState::Running));
    assert_eq!(c.get_animation_state(b), Some(AnimationState::Queued));
    assert_eq!(c.get_stats().running, 1);
}

#[test]
fn highest_waiting_priority_starts_next() {
    let mut c = AnimationCoordinator::<AnimationType>::new();
    c.set_max_concurrent(1);
    let first = c.queue_animation(generic(10), AnimationTarget::LeftSidebar, AnimationPriority::Normal, true);
    let low = c.queue_animation(generic(10), AnimationTarget::LeftSidebar, AnimationPriority::Low, true);
    let high = c.queue_animation(generic(10), AnimationTarget::LeftSidebar, AnimationPriority::High, true);
    assert_eq!(c.get_animation_state(first), Some(AnimationState::Running));
    // the running one leaves; the next update starts the highest waiting one
    assert!(c.cancel_animation(first));
    let _ = c.update();
    assert_eq!(c.get_animation_state(high), Some(AnimationState::Running));
    assert_eq!(c.get_animation_state(low), Some(AnimationState::Queued));
}

#[test]
fn pause_then_resume_restores_state() {
    let mut c = AnimationCoordinator::<AnimationType>::new();
    let a = c.queue_animation(generic(10), AnimationTarget::LeftSidebar, AnimationPriority::Normal, true);
    assert!(c.is_animation_running(a));
    assert!(c.pause_animation(a));
    assert_eq!(c.get_animation_state(a), Some(AnimationState::Paused));
    assert!(!c.pause_animation(a));
    assert!(c.resume_animation(a));
    assert_eq!(c.get_animation_state(a), Some(AnimationState::Running));
    assert!(!c.resume_animation(a));
}

#[test]
fn cancel_removes_animation() {
    let mut c = AnimationCoordinator::<AnimationType>::new();
    let a = c.queue_animation(generic(10), AnimationTarget::LeftSidebar, AnimationPriority::Normal, true);
    assert!(c.cancel_animation(a));
    assert_eq!(c.get_animation_state(a), None);
    assert!(!c.cancel_animation(a));
    assert_eq!(c.get_stats().total, 0);
}

#[test]
fn interrupt_only_interruptible_running_animations() {
    let mut c = AnimationCoordinator::<AnimationType>::new();
    let fixed = c.queue_animation(generic(10), AnimationTarget::LeftSidebar, AnimationPriority::Normal, false);
    let soft = c.queue_animation(generic(10), AnimationTarget::RightSidebar, AnimationPriority::Normal, true);
    assert!(!c.interrupt_animation(fixed));
    assert_eq!(c.get_animation_state(fixed), Some(AnimationState::Running));
    assert!(c.interrupt_animation(soft));
    assert_eq!(c.get_animation_state(soft), Some(AnimationState::Interrupted));
    assert!(!c.interrupt_animation(soft));
}

#[test]
fn start_immediate_spares_higher_priority_and_other_targets() {
    let mut c = AnimationCoordinator::<AnimationType>::new();
    let critical = c.queue_animation(generic(10), AnimationTarget::LeftSidebar, AnimationPriority::Critical, true);
    let other = c.queue_animation(generic(10), AnimationTarget::RightSidebar, AnimationPriority::Low, true);
    let id = c.start_immediate(generic(10), AnimationTarget::LeftSidebar, AnimationPriority::High);
    assert_eq!(c.get_animation_state(critical), Some(AnimationState::Running));
    assert_eq!(c.get_animation_state(other), Some(AnimationState::Running));
    assert_eq!(c.get_animation_state(id), Some(AnimationState::Running));
    // the new animation itself cannot be interrupted
    assert!(!c.interrupt_animation(id));
}

#[test]
fn targets_and_running_queries() {
    let mut c = AnimationCoordinator::<AnimationType>::new();
    let a = c.queue_animation(
        AnimationType::Opacity(SidebarOpacityAnimation::new(50)),
        AnimationTarget::Component("card".to_string()),
        AnimationPriority::Normal,
        true,
    );
    assert!(c.has_animations_for_target(&AnimationTarget::Component("card".to_string())));
    assert!(!c.has_animations_for_target(&AnimationTarget::Component("other".to_string())));
    assert!(!c.has_animations_for_target(&AnimationTarget::Custom("card".to_string())));
    assert!(c.pause_animation(a));
    assert!(!c.has_animations_for_target(&AnimationTarget::Component("card".to_string())));
}

#[test]
fn update_keeps_running_animations_and_asks_for_redraw() {
    let mut c = AnimationCoordinator::<AnimationType>::new();
    c.set_frame_budget_ms(1_000_000);
    let a = c.queue_animation(generic(10), AnimationTarget::LeftSidebar, AnimationPriority::Normal, true);
    let out = c.update();
    assert!(out.needs_redraw);
    assert!(out.completed.is_empty());
    assert_eq!(c.get_animation_state(a), Some(AnimationState::Running));
    c.clear_completed();
    assert_eq!(c.get_stats().total, 1);
}

#[test]
fn update_on_empty_scheduler_needs_no_redraw() {
    let mut c = AnimationCoordinator::<AnimationType>::default();
    let out = c.update();
    assert!(!out.needs_redraw);
    assert!(out.completed.is_empty());
}

#[test]
fn priority_levels_are_ordered() {
    assert_eq!(AnimationPriority::Low.level(), 0);
    assert_eq!(AnimationPriority::Normal.level(), 1);
    assert_eq!(AnimationPriority::High.level(), 2);
    assert_eq!(AnimationPriority::Critical.level(), 3);
}

#[test]
fn animation_start_and_stop() {
    let mut a = SidebarAnimation::new(200);
    assert!(!a.is_animating());
    a.start(true);
    assert!(a.is_animating());
    a.stop();
    assert!(!a.is_animating());
    let mut f = SidebarOpacityAnimation::new(100);
    assert!(!f.is_fading());
    f.start_fade(false);
    assert!(f.is_fading());
    let g = AnimationType::Generic(SidebarAnimation::new(5));
    assert!(!g.is_animating());
}

#[test]
fn equal_priorities_start_in_queue_order() {
    let mut c = AnimationCoordinator::<AnimationType>::new();
    c.set_max_concurrent(1);
    let first = c.queue_animation(generic(10), AnimationTarget::LeftSidebar, AnimationPriority::Normal, true);
    let a = c.queue_animation(generic(10), AnimationTarget::LeftSidebar, AnimationPriority::Normal, true);
    let b = c.queue_animation(generic(10), AnimationTarget::LeftSidebar, AnimationPriority::Normal, true);
    assert!(c.cancel_animation(first));
    let _ = c.update();
    assert_eq!(c.get_animation_state(a), Some(AnimationState::Running));
    assert_eq!(c.get_animation_state(b), Some(AnimationState::Queued));
    assert!(c.cancel_animation(a));
    let _ = c.update();
    assert_eq!(c.get_animation_state(b), Some(AnimationState::Running));
}

#[test]
fn fade_completes_once_its_duration_has_passed() {
    assert!(!fade_completed(99, 100));
    assert!(fade_completed(100, 100));
    assert!(fade_completed(250, 100));
    let fade = FadeAnimation::new(FadeDirection::In, std::time::Duration::from_secs(3600));
    assert!(!fade.is_complete());
    assert!(*fade.start_time() <= std::time::Instant::now());
    let done = FadeAnimation::new(FadeDirection::Out, std::time::Duration::ZERO);
    assert!(done.is_complete());
}

#[test]
fn next_frame_only_while_running() {
    let now = std::time::Instant::now();
    let mut a = SidebarAnimation::new(100);
    assert_eq!(a.get_next_frame_time(Some(now)), None);
    a.start(true);
    assert_eq!(a.get_next_frame_time(Some(now)), Some(now));
    assert_eq!(a.get_next_frame_time(None), None);
    a.stop();
    assert_eq!(a.get_next_frame_time(Some(now)), None);
}

#[test]
fn identifiers_count_up_from_zero() {
    let mut c = AnimationCoordinator::<AnimationType>::new();
    assert_eq!(c.next_id(), 0);
    c.queue_animation(AnimationType::Generic(SidebarAnimation::new(10)), AnimationTarget::LeftSidebar, AnimationPriority::Low, true);
    c.start_immediate(AnimationType::Generic(SidebarAnimation::new(10)), AnimationTarget::RightSidebar, AnimationPriority::High);
    assert_eq!(c.next_id(), 2);
    let d = AnimationCoordinator::<AnimationType>::default();
    assert_eq!(d.next_id(), 0);
}

#[test]
fn finished_curve_stops_the_animation() {
    let mut a = SidebarAnimation::new(100);
    assert!(!a.track_progress(false));
    assert!(!a.is_animating());
    a.start(false);
    assert!(a.track_progress(false));
    assert!(a.is_animating());
    assert!(!a.track_progress(true));
    assert!(!a.is_animating());
}

#[test]
fn frame_budget_is_whole_milliseconds() {
    assert!(!over_budget(16_999_999, 16));
    assert!(over_budget(17_000_000, 16));
    assert!(!over_budget(0, 0));
    assert!(over_budget(1_000_000, 0));
}

#[test]
fn next_frame_is_the_earliest_of_running_animations() {
    let mut c = AnimationCoordinator::<AnimationType>::new();
    c.set_max_concurrent(1);
    c.queue_animation(generic(100), AnimationTarget::LeftSidebar, AnimationPriority::Normal, true);
    c.queue_animation(generic(100), AnimationTarget::RightSidebar, AnimationPriority::Normal, true);
    c.queue_animation(generic(100), AnimationTarget::Custom("x".to_string()), AnimationPriority::Normal, true);
    let now = std::time::Instant::now();
    let later = now + std::time::Duration::from_millis(16);
    let sooner = now + std::time::Duration::from_millis(1);
    // only the first entry runs; the queued ones report nothing that counts
    assert_eq!(c.get_next_frame_time(&vec![Some(later), Some(sooner), Some(sooner)]), Some(later));
    assert_eq!(c.get_next_frame_time(&vec![None, Some(sooner)]), None);
    assert_eq!(c.get_next_frame_time(&vec![]), None);
    let mut d = AnimationCoordinator::<AnimationType>::new();
    d.queue_animation(generic(100), AnimationTarget::LeftSidebar, AnimationPriority::Normal, true);
    d.queue_animation(generic(100), AnimationTarget::RightSidebar, AnimationPriority::Normal, true);
    assert_eq!(d.get_next_frame_time(&vec![Some(later), Some(sooner)]), Some(sooner));
    assert_eq!(d.get_next_frame_time(&vec![Some(sooner), Some(later)]), Some(sooner));
}
