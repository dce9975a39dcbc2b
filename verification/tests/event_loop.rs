use phantom::app::event_loop::{
    gui_receives, run_loop, step_error, AppEvent, ApplicationError, LoopAction, WindowEventKind,
};
use phantom::render::world::{pass_uses_blending, primitives_in_pass, render_passes, Primitive};
use phantom::world::texture::AlphaMode;

#[test]
fn frame_event() {
    let actions = run_loop(&AppEvent::MainEventsCleared, false, true, false);
    assert_eq!(
        actions,
        vec![
            LoopAction::SetPoll,
            LoopAction::HandleSystemEvent,
            LoopAction::HandleInputEvent,
            LoopAction::HandleStateEvent,
            LoopAction::PollGamepad,
            LoopAction::BeginGuiFrame,
            LoopAction::UpdateGui,
            LoopAction::EndGuiFrame,
            LoopAction::UpdateState,
            LoopAction::UpdateRenderer,
            LoopAction::RenderFrame,
        ]
    );
}

#[test]
fn first_event_starts_state_machine_and_exit_is_requested() {
    let event = AppEvent::WindowEvent { ours: true, kind: WindowEventKind::Resized };
    assert!(gui_receives(&event));
    let actions = run_loop(&event, true, false, true);
    assert_eq!(
        actions,
        vec![
            LoopAction::SetPoll,
            LoopAction::SetExit,
            LoopAction::HandleSystemEvent,
            LoopAction::HandleInputEvent,
            LoopAction::StartStateMachine,
            LoopAction::PollGamepad,
            LoopAction::ResizeRenderer,
            LoopAction::OnResize,
        ]
    );
}

#[test]
fn other_windows_and_shutdown() {
    let event = AppEvent::WindowEvent { ours: false, kind: WindowEventKind::CloseRequested };
    assert!(!gui_receives(&event));
    assert_eq!(run_loop(&event, false, true, false).last(), Some(&LoopAction::PollGamepad));
    let close = AppEvent::WindowEvent { ours: true, kind: WindowEventKind::CloseRequested };
    assert_eq!(run_loop(&close, false, true, false).last(), Some(&LoopAction::SetExit));
    assert_eq!(
        run_loop(&AppEvent::LoopDestroyed, false, true, false).last(),
        Some(&LoopAction::StopStateMachine)
    );
    let key = AppEvent::WindowEvent { ours: true, kind: WindowEventKind::KeyboardInput };
    assert_eq!(run_loop(&key, false, true, false).last(), Some(&LoopAction::OnKey));
    assert!(!gui_receives(&AppEvent::Other));
}

#[test]
fn render_pass_selection() {
    assert_eq!(render_passes(), [AlphaMode::Opaque, AlphaMode::Mask, AlphaMode::Blend]);
    assert!(pass_uses_blending(AlphaMode::Blend));
    assert!(!pass_uses_blending(AlphaMode::Mask));
    let primitives = vec![
        Primitive { first_index: 0, number_of_indices: 3, material_index: Some(1) },
        Primitive { first_index: 3, number_of_indices: 6, material_index: None },
        Primitive { first_index: 9, number_of_indices: 3, material_index: Some(0) },
    ];
    let materials = vec![AlphaMode::Opaque, AlphaMode::Blend];
    assert_eq!(primitives_in_pass(AlphaMode::Opaque, &primitives, &materials), vec![1, 2]);
    assert_eq!(primitives_in_pass(AlphaMode::Mask, &primitives, &materials), vec![1]);
    assert_eq!(primitives_in_pass(AlphaMode::Blend, &primitives, &materials), vec![0, 1]);
}

#[test]
fn failing_steps_name_their_error() {
    assert!(matches!(
        step_error(LoopAction::HandleStateEvent, "bad".to_string()),
        Some(ApplicationError::HandleEvent(m)) if m == "bad"
    ));
    assert!(matches!(
        step_error(LoopAction::OnKey, "key".to_string()),
        Some(ApplicationError::HandleEvent(_))
    ));
    assert!(matches!(
        step_error(LoopAction::StartStateMachine, "s".to_string()),
        Some(ApplicationError::StartStateMachine(_))
    ));
    assert!(matches!(
        step_error(LoopAction::UpdateState, "u".to_string()),
        Some(ApplicationError::UpdateStateMachine(_))
    ));
    assert!(matches!(
        step_error(LoopAction::ResizeRenderer, "r".to_string()),
        Some(ApplicationError::ResizeRenderer(_))
    ));
    assert!(matches!(
        step_error(LoopAction::RenderFrame, "f".to_string()),
        Some(ApplicationError::RenderFrame(_))
    ));
    assert!(matches!(
        step_error(LoopAction::StopStateMachine, "x".to_string()),
        Some(ApplicationError::StopStateMachine(_))
    ));
    assert!(step_error(LoopAction::SetPoll, "p".to_string()).is_none());
    assert!(step_error(LoopAction::BeginGuiFrame, "g".to_string()).is_none());
}
