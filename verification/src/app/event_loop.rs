//! What the application does for each event of the window system.
//!
//! The event loop itself, the window, the GUI, the state machine and the
//! renderer are the caller's; `run_loop` says which of their operations run
//! for an event, and in which order. The caller performs them in that order
//! and stops at the first one that fails.
use vstd::prelude::*;

verus! {

/// The window events the application reacts to.
#[derive(Clone, Copy, Debug, PartialEq, Eq, Structural)]
pub enum WindowEventKind {
    CloseRequested,
    KeyboardInput,
    MouseInput,
    DroppedFile,
    Resized,
    /// Any other window event.
    Other,
}

/// An event of the window system's event loop.
#[derive(Clone, Copy, Debug, PartialEq, Eq, Structural)]
pub enum AppEvent {
    /// All pending events have been handled: time to draw a frame.
    MainEventsCleared,
    /// An event of a window; `ours` tells whether it is the application's
    /// window.
    WindowEvent { ours: bool, kind: WindowEventKind },
    /// The event loop is shutting down.
    LoopDestroyed,
    /// Any other event.
    Other,
}

/// One operation of the event loop, performed by the caller.
#[derive(Clone, Copy, Debug, PartialEq, Eq, Structural)]
pub enum LoopAction {
    /// Keep polling for events.
    SetPoll,
    /// Leave the event loop.
    SetExit,
    /// Let the system resources see the event.
    HandleSystemEvent,
    /// Let the input state see the event.
    HandleInputEvent,
    /// Start the state machine.
    StartStateMachine,
    /// Let the state machine handle the event.
    HandleStateEvent,
    /// Take the next gamepad event, if any, to the state machine.
    PollGamepad,
    /// Start a GUI frame.
    BeginGuiFrame,
    /// Let the state machine build its GUI.
    UpdateGui,
    /// End the GUI frame and tessellate it.
    EndGuiFrame,
    /// Update the state machine.
    UpdateState,
    /// Update the renderer with the world and the GUI frame.
    UpdateRenderer,
    /// Render a frame.
    RenderFrame,
    /// Pass a key to the state machine.
    OnKey,
    /// Pass a mouse button to the state machine.
    OnMouse,
    /// Pass a dropped file to the state machine.
    OnFileDropped,
    /// Resize the renderer to the window's new size.
    ResizeRenderer,
    /// Tell the state machine the window was resized.
    OnResize,
    /// Stop the state machine.
    StopStateMachine,
}

/// Errors of the application's start-up and of its event loop. Each holds
/// the message of the failure it wraps.
#[derive(Debug)]
pub enum ApplicationError {
    CreateIcon(String),
    CreateWindow(String),
    CreateWorld(String),
    CreateRenderer(String),
    /// Decoding the icon file failed: the message and the file's path.
    DecodeIconFile(String, String),
    HandleEvent(String),
    InitializeGamepadLibrary(String),
    /// Opening the icon file failed: the message and the file's path.
    OpenIconFile(String, String),
    RenderFrame(String),
    StartStateMachine(String),
    StopStateMachine(String),
    UpdateRenderer(String),
    UpdateStateMachine(String),
    UpdateGui(String),
    ResizeRenderer(String),
}

/// The error the event loop returns when `action` fails with `message`;
/// `None` for the operations that cannot fail.
pub open spec fn step_failure(action: LoopAction, message: String) -> Option<ApplicationError> {
    match action {
        LoopAction::StartStateMachine => Some(ApplicationError::StartStateMachine(message)),
        LoopAction::HandleStateEvent => Some(ApplicationError::HandleEvent(message)),
        LoopAction::PollGamepad => Some(ApplicationError::HandleEvent(message)),
        LoopAction::UpdateGui => Some(ApplicationError::UpdateGui(message)),
        LoopAction::UpdateState => Some(ApplicationError::UpdateStateMachine(message)),
        LoopAction::UpdateRenderer => Some(ApplicationError::UpdateRenderer(message)),
        LoopAction::RenderFrame => Some(ApplicationError::RenderFrame(message)),
        LoopAction::OnKey => Some(ApplicationError::HandleEvent(message)),
        LoopAction::OnMouse => Some(ApplicationError::HandleEvent(message)),
        LoopAction::OnFileDropped => Some(ApplicationError::HandleEvent(message)),
        LoopAction::ResizeRenderer => Some(ApplicationError::ResizeRenderer(message)),
        LoopAction::OnResize => Some(ApplicationError::HandleEvent(message)),
        LoopAction::StopStateMachine => Some(ApplicationError::StopStateMachine(message)),
        _ => None,
    }
}

/// The error the event loop returns when `action` fails with `message`;
/// `None` for the operations that cannot fail (setting the control flow,
/// handing the event to the system and input state, and beginning and
/// ending the GUI frame).
pub fn step_error(action: LoopAction, message: String) -> (e: Option<ApplicationError>)
    ensures
        e == step_failure(action, message),
        (action == LoopAction::HandleStateEvent || action == LoopAction::PollGamepad || action == LoopAction::OnKey
            || action == LoopAction::OnMouse || action == LoopAction::OnFileDropped || action
            == LoopAction::OnResize) <==> e == Some(ApplicationError::HandleEvent(message)),
        action == LoopAction::StartStateMachine <==> e == Some(ApplicationError::StartStateMachine(message)),
        action == LoopAction::StopStateMachine <==> e == Some(ApplicationError::StopStateMachine(message)),
        action == LoopAction::UpdateGui <==> e == Some(ApplicationError::UpdateGui(message)),
        action == LoopAction::UpdateState <==> e == Some(ApplicationError::UpdateStateMachine(message)),
        action == LoopAction::UpdateRenderer <==> e == Some(ApplicationError::UpdateRenderer(message)),
        action == LoopAction::RenderFrame <==> e == Some(ApplicationError::RenderFrame(message)),
        action == LoopAction::ResizeRenderer <==> e == Some(ApplicationError::ResizeRenderer(message)),
        (action == LoopAction::SetPoll || action == LoopAction::SetExit || action == LoopAction::HandleSystemEvent
            || action == LoopAction::HandleInputEvent || action == LoopAction::BeginGuiFrame || action
            == LoopAction::EndGuiFrame) <==> e is None,
{
    match action {
        LoopAction::StartStateMachine => Some(ApplicationError::StartStateMachine(message)),
        LoopAction::HandleStateEvent => Some(ApplicationError::HandleEvent(message)),
        LoopAction::PollGamepad => Some(ApplicationError::HandleEvent(message)),
        LoopAction::UpdateGui => Some(ApplicationError::UpdateGui(message)),
        LoopAction::UpdateState => Some(ApplicationError::UpdateStateMachine(message)),
        LoopAction::UpdateRenderer => Some(ApplicationError::UpdateRenderer(message)),
        LoopAction::RenderFrame => Some(ApplicationError::RenderFrame(message)),
        LoopAction::OnKey => Some(ApplicationError::HandleEvent(message)),
        LoopAction::OnMouse => Some(ApplicationError::HandleEvent(message)),
        LoopAction::OnFileDropped => Some(ApplicationError::HandleEvent(message)),
        LoopAction::ResizeRenderer => Some(ApplicationError::ResizeRenderer(message)),
        LoopAction::OnResize => Some(ApplicationError::HandleEvent(message)),
        LoopAction::StopStateMachine => Some(ApplicationError::StopStateMachine(message)),
        _ => None,
    }
}

/// Whether the GUI is offered the event: events of the application's
/// window.
pub open spec fn gui_sees(event: AppEvent) -> bool {
    event matches AppEvent::WindowEvent { ours, .. } && ours
}

/// The operations particular to the event, after the common ones.
pub open spec fn event_steps(event: AppEvent) -> Seq<LoopAction> {
    match event {
        AppEvent::MainEventsCleared => seq![
            LoopAction::BeginGuiFrame,
            LoopAction::UpdateGui,
            LoopAction::EndGuiFrame,
            LoopAction::UpdateState,
            LoopAction::UpdateRenderer,
            LoopAction::RenderFrame,
        ],
        AppEvent::WindowEvent { ours, kind } => if ours {
            match kind {
                WindowEventKind::CloseRequested => seq![LoopAction::SetExit],
                WindowEventKind::KeyboardInput => seq![LoopAction::OnKey],
                WindowEventKind::MouseInput => seq![LoopAction::OnMouse],
                WindowEventKind::DroppedFile => seq![LoopAction::OnFileDropped],
                WindowEventKind::Resized => seq![LoopAction::ResizeRenderer, LoopAction::OnResize],
                WindowEventKind::Other => Seq::empty(),
            }
        } else {
            Seq::empty()
        },
        AppEvent::LoopDestroyed => seq![LoopAction::StopStateMachine],
        AppEvent::Other => Seq::empty(),
    }
}

/// All operations for one event: keep polling (and leave the loop if an
/// exit was requested), let the system and input state see the event, start
/// the state machine if it is not running, let it handle the event unless
/// the GUI captured it, poll the gamepad, then the event's own operations.
pub open spec fn loop_steps(event: AppEvent, exit_requested: bool, running: bool, gui_captured: bool) -> Seq<LoopAction> {
    seq![LoopAction::SetPoll]
        + (if exit_requested { seq![LoopAction::SetExit] } else { Seq::empty() })
        + seq![LoopAction::HandleSystemEvent, LoopAction::HandleInputEvent]
        + (if !running { seq![LoopAction::StartStateMachine] } else { Seq::empty() })
        + (if !gui_captured { seq![LoopAction::HandleStateEvent] } else { Seq::empty() })
        + seq![LoopAction::PollGamepad]
        + event_steps(event)
}

/// Whether the GUI is offered the event (it is, before anything else runs).
pub fn gui_receives(event: &AppEvent) -> (b: bool)
    ensures
        b == gui_sees(*event),
{
    match event {
        AppEvent::WindowEvent { ours, .. } => *ours,
        _ => false,
    }
}

fn push_event_steps(actions: &mut Vec<LoopAction>, event: &AppEvent)
    ensures
        final(actions)@ == old(actions)@ + event_steps(*event),
{
    let ghost start = actions@;
    match event {
        AppEvent::MainEventsCleared => {
            actions.push(LoopAction::BeginGuiFrame);
            actions.push(LoopAction::UpdateGui);
            actions.push(LoopAction::EndGuiFrame);
            actions.push(LoopAction::UpdateState);
            actions.push(LoopAction::UpdateRenderer);
            actions.push(LoopAction::RenderFrame);
        },
        AppEvent::WindowEvent { ours, kind } => {
            if *ours {
                match kind {
                    WindowEventKind::CloseRequested => actions.push(LoopAction::SetExit),
                    WindowEventKind::KeyboardInput => actions.push(LoopAction::OnKey),
                    WindowEventKind::MouseInput => actions.push(LoopAction::OnMouse),
                    WindowEventKind::DroppedFile => actions.push(LoopAction::OnFileDropped),
                    WindowEventKind::Resized => {
                        actions.push(LoopAction::ResizeRenderer);
                        actions.push(LoopAction::OnResize);
                    },
                    WindowEventKind::Other => {},
                }
            }
        },
        AppEvent::LoopDestroyed => actions.push(LoopAction::StopStateMachine),
        AppEvent::Other => {},
    }
    assert(actions@ =~= start + event_steps(*event));
}

/// The operations the event loop performs for `event`, in order, given
/// whether an exit was requested, whether the state machine is running and
/// whether the GUI captured the event.
pub fn run_loop(event: &AppEvent, exit_requested: bool, state_machine_running: bool, gui_captured_event: bool) -> (actions: Vec<LoopAction>)
    ensures
        actions@ == loop_steps(*event, exit_requested, state_machine_running, gui_captured_event),
        actions@.contains(LoopAction::OnKey) <==> *event == (AppEvent::WindowEvent {
            ours: true,
            kind: WindowEventKind::KeyboardInput,
        }),
        actions@.contains(LoopAction::OnMouse) <==> *event == (AppEvent::WindowEvent {
            ours: true,
            kind: WindowEventKind::MouseInput,
        }),
        actions@.contains(LoopAction::OnFileDropped) <==> *event == (AppEvent::WindowEvent {
            ours: true,
            kind: WindowEventKind::DroppedFile,
        }),
        actions@.contains(LoopAction::ResizeRenderer) <==> *event == (AppEvent::WindowEvent {
            ours: true,
            kind: WindowEventKind::Resized,
        }),
        actions@.contains(LoopAction::StopStateMachine) <==> *event == AppEvent::LoopDestroyed,
        actions@.contains(LoopAction::RenderFrame) <==> *event == AppEvent::MainEventsCleared,
        actions@.contains(LoopAction::HandleStateEvent) <==> !gui_captured_event,
        actions@.contains(LoopAction::SetExit) <==> (exit_requested || *event == (AppEvent::WindowEvent {
            ours: true,
            kind: WindowEventKind::CloseRequested,
        })),
{
    let mut actions: Vec<LoopAction> = Vec::new();
    actions.push(LoopAction::SetPoll);
    if exit_requested {
        actions.push(LoopAction::SetExit);
    }
    actions.push(LoopAction::HandleSystemEvent);
    actions.push(LoopAction::HandleInputEvent);
    if !state_machine_running {
        actions.push(LoopAction::StartStateMachine);
    }
    if !gui_captured_event {
        actions.push(LoopAction::HandleStateEvent);
    }
    actions.push(LoopAction::PollGamepad);
    let ghost common = actions@;
    assert(common =~= seq![LoopAction::SetPoll]
        + (if exit_requested { seq![LoopAction::SetExit] } else { Seq::empty() })
        + seq![LoopAction::HandleSystemEvent, LoopAction::HandleInputEvent]
        + (if !state_machine_running { seq![LoopAction::StartStateMachine] } else { Seq::empty() })
        + (if !gui_captured_event { seq![LoopAction::HandleStateEvent] } else { Seq::empty() })
        + seq![LoopAction::PollGamepad]);
    push_event_steps(&mut actions, event);
    proof {
        law_window_event_handlers(*event, exit_requested, state_machine_running, gui_captured_event);
        law_frame_only_when_events_cleared(*event, exit_requested, state_machine_running, gui_captured_event);
        law_gui_capture(*event, exit_requested, state_machine_running, gui_captured_event);
        law_exit(*event, exit_requested, state_machine_running, gui_captured_event);
    }
    actions
}

/// Law: a frame is drawn only for `MainEventsCleared`, and always then.
pub proof fn law_frame_only_when_events_cleared(event: AppEvent, exit_requested: bool, running: bool, gui_captured: bool)
    ensures
        loop_steps(event, exit_requested, running, gui_captured).contains(LoopAction::RenderFrame)
            <==> event == AppEvent::MainEventsCleared,
{
    let s = loop_steps(event, exit_requested, running, gui_captured);
    let e = event_steps(event);
    let prefix = s.subrange(0, s.len() - e.len());
    assert(s =~= prefix + e);
    assert(!prefix.contains(LoopAction::RenderFrame)) by {
        if prefix.contains(LoopAction::RenderFrame) {
            let i = choose|i: int| 0 <= i < prefix.len() && prefix[i] == LoopAction::RenderFrame;
            assert(prefix[i] != LoopAction::RenderFrame);
        }
    }
    if event == AppEvent::MainEventsCleared {
        assert(s[prefix.len() + 5int] == LoopAction::RenderFrame);
    } else {
        assert(!e.contains(LoopAction::RenderFrame)) by {
            if e.contains(LoopAction::RenderFrame) {
                let i = choose|i: int| 0 <= i < e.len() && e[i] == LoopAction::RenderFrame;
            }
        }
        if s.contains(LoopAction::RenderFrame) {
            let i = choose|i: int| 0 <= i < s.len() && s[i] == LoopAction::RenderFrame;
            if i < prefix.len() {
                assert(prefix[i] == s[i]);
            } else {
                assert(e[i - prefix.len()] == s[i]);
            }
        }
    }
}

/// Law: the state machine handles an event exactly when the GUI did not
/// capture it.
pub proof fn law_gui_capture(event: AppEvent, exit_requested: bool, running: bool, gui_captured: bool)
    ensures
        loop_steps(event, exit_requested, running, gui_captured).contains(LoopAction::HandleStateEvent)
            <==> !gui_captured,
{
    let s = loop_steps(event, exit_requested, running, gui_captured);
    let x: Seq<LoopAction> = if exit_requested { seq![LoopAction::SetExit] } else { Seq::empty() };
    let r: Seq<LoopAction> = if !running { seq![LoopAction::StartStateMachine] } else { Seq::empty() };
    let g: Seq<LoopAction> = if !gui_captured { seq![LoopAction::HandleStateEvent] } else { Seq::empty() };
    let e = event_steps(event);
    let before = seq![LoopAction::SetPoll] + x + seq![LoopAction::HandleSystemEvent, LoopAction::HandleInputEvent] + r;
    let after = seq![LoopAction::PollGamepad] + e;
    assert(s =~= before + g + after);
    if !gui_captured {
        assert(s[before.len() as int] == LoopAction::HandleStateEvent);
    } else {
        if s.contains(LoopAction::HandleStateEvent) {
            let i = choose|i: int| 0 <= i < s.len() && s[i] == LoopAction::HandleStateEvent;
            if i < before.len() {
                assert(before[i] == s[i]);
            } else {
                assert(after[i - before.len()] == s[i]);
                if i - before.len() > 0 {
                    assert(e[i - before.len() - 1] == s[i]);
                }
            }
        }
    }
}

/// The operations that only the event itself asks for, never the common
/// part of a plan.
pub open spec fn event_specific(a: LoopAction) -> bool {
    !(a == LoopAction::SetPoll || a == LoopAction::SetExit || a == LoopAction::HandleSystemEvent || a
        == LoopAction::HandleInputEvent || a == LoopAction::StartStateMachine || a
        == LoopAction::HandleStateEvent || a == LoopAction::PollGamepad)
}

/// An event-specific operation is in the plan exactly when the event's own
/// operations hold it.
proof fn lemma_plan_contains(event: AppEvent, exit_requested: bool, running: bool, gui_captured: bool, a: LoopAction)
    requires
        event_specific(a),
    ensures
        loop_steps(event, exit_requested, running, gui_captured).contains(a) <==> event_steps(event).contains(a),
{
    let s = loop_steps(event, exit_requested, running, gui_captured);
    let e = event_steps(event);
    let prefix = s.subrange(0, s.len() - e.len());
    assert(s =~= prefix + e);
    assert(!prefix.contains(a)) by {
        if prefix.contains(a) {
            let i = choose|i: int| 0 <= i < prefix.len() && prefix[i] == a;
            assert(prefix[i] != a);
        }
    }
    if s.contains(a) {
        let i = choose|i: int| 0 <= i < s.len() && s[i] == a;
        if i < prefix.len() {
            assert(prefix[i] == s[i]);
        } else {
            assert(e[i - prefix.len()] == s[i]);
        }
    }
    if e.contains(a) {
        let i = choose|i: int| 0 <= i < e.len() && e[i] == a;
        assert(s[prefix.len() + i] == e[i]);
    }
}

/// Law: for any event and state, the plan passes a key to the state machine
/// exactly for a keyboard input of the application's window, a mouse button
/// exactly for a mouse input of it, a dropped file exactly for a file
/// dropped on it, resizes the renderer and tells the state machine exactly
/// when it was resized, and stops the state machine exactly when the loop
/// is destroyed.
pub proof fn law_window_event_handlers(event: AppEvent, exit_requested: bool, running: bool, gui_captured: bool)
    ensures
        loop_steps(event, exit_requested, running, gui_captured).contains(LoopAction::OnKey) <==> event
            == (AppEvent::WindowEvent { ours: true, kind: WindowEventKind::KeyboardInput }),
        loop_steps(event, exit_requested, running, gui_captured).contains(LoopAction::OnMouse) <==> event
            == (AppEvent::WindowEvent { ours: true, kind: WindowEventKind::MouseInput }),
        loop_steps(event, exit_requested, running, gui_captured).contains(LoopAction::OnFileDropped) <==> event
            == (AppEvent::WindowEvent { ours: true, kind: WindowEventKind::DroppedFile }),
        loop_steps(event, exit_requested, running, gui_captured).contains(LoopAction::ResizeRenderer) <==> event
            == (AppEvent::WindowEvent { ours: true, kind: WindowEventKind::Resized }),
        loop_steps(event, exit_requested, running, gui_captured).contains(LoopAction::OnResize) <==> event
            == (AppEvent::WindowEvent { ours: true, kind: WindowEventKind::Resized }),
        loop_steps(event, exit_requested, running, gui_captured).contains(LoopAction::StopStateMachine)
            <==> event == AppEvent::LoopDestroyed,
{
    lemma_plan_contains(event, exit_requested, running, gui_captured, LoopAction::OnKey);
    lemma_plan_contains(event, exit_requested, running, gui_captured, LoopAction::OnMouse);
    lemma_plan_contains(event, exit_requested, running, gui_captured, LoopAction::OnFileDropped);
    lemma_plan_contains(event, exit_requested, running, gui_captured, LoopAction::ResizeRenderer);
    lemma_plan_contains(event, exit_requested, running, gui_captured, LoopAction::OnResize);
    lemma_plan_contains(event, exit_requested, running, gui_captured, LoopAction::StopStateMachine);
    let e = event_steps(event);
    match event {
        AppEvent::WindowEvent { ours, kind } => {
            if ours {
                match kind {
                    WindowEventKind::Resized => {
                        assert(e[0] == LoopAction::ResizeRenderer);
                        assert(e[1] == LoopAction::OnResize);
                    },
                    _ => {},
                }
            }
        },
        _ => {},
    }
    if e.contains(LoopAction::OnKey) {
        let i = choose|i: int| 0 <= i < e.len() && e[i] == LoopAction::OnKey;
    }
    if e.contains(LoopAction::OnMouse) {
        let i = choose|i: int| 0 <= i < e.len() && e[i] == LoopAction::OnMouse;
    }
    if e.contains(LoopAction::OnFileDropped) {
        let i = choose|i: int| 0 <= i < e.len() && e[i] == LoopAction::OnFileDropped;
    }
    if e.contains(LoopAction::ResizeRenderer) {
        let i = choose|i: int| 0 <= i < e.len() && e[i] == LoopAction::ResizeRenderer;
    }
    if e.contains(LoopAction::OnResize) {
        let i = choose|i: int| 0 <= i < e.len() && e[i] == LoopAction::OnResize;
    }
    if e.contains(LoopAction::StopStateMachine) {
        let i = choose|i: int| 0 <= i < e.len() && e[i] == LoopAction::StopStateMachine;
    }
    match event {
        AppEvent::WindowEvent { ours: true, kind: WindowEventKind::KeyboardInput } => {
            assert(e[0] == LoopAction::OnKey);
        },
        AppEvent::WindowEvent { ours: true, kind: WindowEventKind::MouseInput } => {
            assert(e[0] == LoopAction::OnMouse);
        },
        AppEvent::WindowEvent { ours: true, kind: WindowEventKind::DroppedFile } => {
            assert(e[0] == LoopAction::OnFileDropped);
        },
        AppEvent::LoopDestroyed => {
            assert(e[0] == LoopAction::StopStateMachine);
        },
        _ => {},
    }
}

/// Law: the plan leaves the loop exactly when an exit was requested or the
/// application's window was asked to close.
pub proof fn law_exit(event: AppEvent, exit_requested: bool, running: bool, gui_captured: bool)
    ensures
        loop_steps(event, exit_requested, running, gui_captured).contains(LoopAction::SetExit) <==> (exit_requested
            || event == (AppEvent::WindowEvent { ours: true, kind: WindowEventKind::CloseRequested })),
{
    let s = loop_steps(event, exit_requested, running, gui_captured);
    let e = event_steps(event);
    let x: Seq<LoopAction> = if exit_requested { seq![LoopAction::SetExit] } else { Seq::empty() };
    let r: Seq<LoopAction> = if !running { seq![LoopAction::StartStateMachine] } else { Seq::empty() };
    let g: Seq<LoopAction> = if !gui_captured { seq![LoopAction::HandleStateEvent] } else { Seq::empty() };
    let rest = seq![LoopAction::HandleSystemEvent, LoopAction::HandleInputEvent] + r + g + seq![LoopAction::PollGamepad];
    assert(s =~= seq![LoopAction::SetPoll] + x + rest + e);
    let before = seq![LoopAction::SetPoll] + x;
    let after = rest + e;
    assert(s =~= before + after);
    if exit_requested {
        assert(s[1] == LoopAction::SetExit);
    }
    if event == (AppEvent::WindowEvent { ours: true, kind: WindowEventKind::CloseRequested }) {
        assert(s[s.len() - 1] == LoopAction::SetExit);
    }
    if s.contains(LoopAction::SetExit) && !exit_requested {
        let i = choose|i: int| 0 <= i < s.len() && s[i] == LoopAction::SetExit;
        assert(before.len() == 1);
        assert(i >= 1);
        assert(after[i - 1] == s[i]);
        if i - 1 >= rest.len() {
            assert(e[i - 1 - rest.len()] == LoopAction::SetExit);
            match event {
                AppEvent::WindowEvent { ours, kind } => {
                    if ours {
                        match kind {
                            WindowEventKind::Resized => {
                                assert(e[0] != LoopAction::SetExit);
                                assert(e[1] != LoopAction::SetExit);
                            },
                            _ => {},
                        }
                    }
                },
                _ => {},
            }
        } else {
            assert(rest[i - 1] == LoopAction::SetExit);
        }
    }
}

} // verus!
