use phantom::app::config::AppConfig;
use phantom::editor::commands::{Command, CommandList, LoadGltfAssetCommand, MapResources};
use phantom::editor::editor::{Editor, ElementState, Gizmo, GizmoMode, GizmoOrientation, Key};
use phantom::render::device::Backend;
use phantom::window::WindowConfig;

/// Adds its number to a list of numbers; undoing takes it out again.
#[derive(Debug, PartialEq)]
struct Append {
    value: u32,
    undoable: bool,
    fails: bool,
    undo_fails: bool,
}

fn append(value: u32) -> Append {
    Append { value, undoable: true, fails: false, undo_fails: false }
}

impl Command<Vec<u32>, String> for Append {
    fn undoable(&self) -> bool {
        self.undoable
    }

    fn executes(&self, before: Vec<u32>, after: Vec<u32>, result: Result<(), String>) -> bool {
        match result {
            Ok(()) => after.len() == before.len() + 1 && after.last() == Some(&self.value),
            Err(_) => after == before,
        }
    }

    fn undoes(&self, before: Vec<u32>, after: Vec<u32>, result: Result<(), String>) -> bool {
        match result {
            Ok(()) => !after.contains(&self.value) && after.len() <= before.len(),
            Err(_) => after == before,
        }
    }

    fn is_undoable(&self) -> bool {
        self.undoable
    }

    fn execute(&mut self, resources: &mut Vec<u32>) -> Result<(), String> {
        if self.fails {
            return Err(format!("cannot append {}", self.value));
        }
        resources.push(self.value);
        Ok(())
    }

    fn undo(&mut self, resources: &mut Vec<u32>) -> Result<(), String> {
        if self.undo_fails {
            return Err(format!("cannot remove {}", self.value));
        }
        resources.retain(|v| *v != self.value);
        Ok(())
    }
}

#[test]
fn undo_then_redo_restores_history() {
    let mut numbers: Vec<u32> = Vec::new();
    let mut commands: CommandList<Append> = CommandList::default();
    commands.queue_command(append(1));
    commands.queue_command(append(2));
    assert_eq!(commands.execute_pending_commands(&mut numbers), Ok(()));
    assert_eq!(numbers, vec![1, 2]);
    assert_eq!(commands.execute_pending_commands(&mut numbers), Ok(()));
    assert_eq!(numbers, vec![1, 2]);
    assert!(commands.has_undo_commands());
    assert!(!commands.has_redo_commands());
    assert_eq!(commands.undo(&mut numbers), Ok(()));
    assert_eq!(numbers, vec![1]);
    assert!(commands.has_redo_commands());
    assert_eq!(commands.redo(&mut numbers), Ok(()));
    assert_eq!(numbers, vec![1, 2]);
    assert!(!commands.has_redo_commands());
    assert_eq!(commands.undo(&mut numbers), Ok(()));
    assert_eq!(commands.undo(&mut numbers), Ok(()));
    assert!(numbers.is_empty());
    assert!(!commands.has_undo_commands());
    assert_eq!(commands.undo(&mut numbers), Ok(()));
    assert!(numbers.is_empty());
}

#[test]
fn executing_clears_redo() {
    let mut numbers: Vec<u32> = Vec::new();
    let mut commands: CommandList<Append> = CommandList::new();
    assert_eq!(commands.execute(append(1), &mut numbers), Ok(()));
    assert_eq!(commands.undo(&mut numbers), Ok(()));
    assert!(commands.has_redo_commands());
    let not_undoable = Append { value: 2, undoable: false, fails: false, undo_fails: false };
    assert_eq!(commands.execute(not_undoable, &mut numbers), Ok(()));
    assert_eq!(numbers, vec![2]);
    assert!(commands.has_redo_commands());
    assert!(!commands.has_undo_commands());
    assert_eq!(commands.execute(append(3), &mut numbers), Ok(()));
    assert!(!commands.has_redo_commands());
    assert_eq!(commands.redo(&mut numbers), Ok(()));
    assert_eq!(numbers, vec![2, 3]);
}

#[test]
fn failing_command_is_dropped() {
    let mut numbers: Vec<u32> = Vec::new();
    let mut commands: CommandList<Append> = CommandList::new();
    let failing = Append { value: 2, undoable: true, fails: true, undo_fails: false };
    assert_eq!(commands.execute(failing, &mut numbers), Err("cannot append 2".to_string()));
    assert!(!commands.has_undo_commands());
    commands.queue_command(append(1));
    commands.queue_command(Append { value: 2, undoable: true, fails: true, undo_fails: false });
    commands.queue_command(append(3));
    assert_eq!(
        commands.execute_pending_commands(&mut numbers),
        Err("cannot append 2".to_string())
    );
    assert_eq!(numbers, vec![1]);
    assert_eq!(commands.execute_pending_commands(&mut numbers), Ok(()));
    assert_eq!(numbers, vec![1]);
    assert_eq!(commands.undo(&mut numbers), Ok(()));
    assert!(numbers.is_empty());
    assert!(!commands.has_undo_commands());
}

#[test]
fn failing_undo_drops_the_command() {
    let mut numbers: Vec<u32> = vec![7];
    let mut commands: CommandList<Append> = CommandList::new();
    assert_eq!(commands.execute(append(9), &mut numbers), Ok(()));
    let stubborn = Append { value: 8, undoable: true, fails: false, undo_fails: true };
    assert_eq!(commands.execute(stubborn, &mut numbers), Ok(()));
    assert_eq!(numbers, vec![7, 9, 8]);
    assert_eq!(commands.undo(&mut numbers), Err("cannot remove 8".to_string()));
    assert_eq!(numbers, vec![7, 9, 8]);
    assert!(!commands.has_redo_commands());
    assert!(commands.has_undo_commands());
    assert_eq!(commands.undo(&mut numbers), Ok(()));
    assert_eq!(numbers, vec![7, 8]);
    assert!(!commands.has_undo_commands());
    assert!(commands.has_redo_commands());
}

/// Resources that remember what was loaded.
#[derive(Default)]
struct MapState {
    loaded: Vec<String>,
}

impl MapResources<String> for MapState {
    fn asset_loaded(before: Self, after: Self, path: String) -> bool {
        let mut expected = before.loaded;
        expected.push(path);
        after.loaded == expected
    }

    fn map_closed(_before: Self, after: Self) -> bool {
        after.loaded.is_empty()
    }

    fn load_gltf_asset(&mut self, path: &String) -> Result<(), String> {
        self.loaded.push(path.clone());
        Ok(())
    }

    fn close_map(&mut self) -> Result<(), String> {
        self.loaded.clear();
        Ok(())
    }
}

#[test]
fn gltf_command_loads_and_closes() {
    let mut map = MapState::default();
    let mut commands: CommandList<LoadGltfAssetCommand> = CommandList::new();
    let command = LoadGltfAssetCommand("assets/models/blocklevel.glb".to_string());
    assert_eq!(commands.execute(command, &mut map), Ok::<(), String>(()));
    assert_eq!(map.loaded, vec!["assets/models/blocklevel.glb".to_string()]);
    assert_eq!(commands.undo(&mut map), Ok::<(), String>(()));
    assert!(map.loaded.is_empty());
    assert_eq!(commands.redo(&mut map), Ok::<(), String>(()));
    assert_eq!(map.loaded.len(), 1);
}

#[test]
fn gltf_command_is_undoable() {
    let command = LoadGltfAssetCommand("assets/models/blocklevel.glb".to_string());
    assert!(command.is_undoable());
}

#[test]
fn editor_keys() {
    let mut editor: Editor<u32> = Editor::new(Gizmo {
        mode: GizmoMode::Translate,
        orientation: GizmoOrientation::Global,
    });
    editor.on_entity_clicked(5);
    assert_eq!(editor.selected_entities, vec![5]);
    editor.on_entity_clicked(6);
    assert_eq!(editor.selected_entities, vec![6]);
    editor.on_key(Some(Key::R), ElementState::Pressed);
    assert_eq!(editor.gizmo.mode, GizmoMode::Rotate);
    editor.on_key(Some(Key::S), ElementState::Released);
    assert_eq!(editor.gizmo.mode, GizmoMode::Rotate);
    editor.on_key(Some(Key::S), ElementState::Pressed);
    assert_eq!(editor.gizmo.mode, GizmoMode::Scale);
    editor.on_key(Some(Key::G), ElementState::Pressed);
    assert_eq!(editor.gizmo.orientation, GizmoOrientation::Local);
    editor.on_key(Some(Key::G), ElementState::Pressed);
    assert_eq!(editor.gizmo.orientation, GizmoOrientation::Global);
    editor.on_key(Some(Key::T), ElementState::Pressed);
    assert_eq!(editor.gizmo.mode, GizmoMode::Translate);
    editor.on_key(None, ElementState::Pressed);
    assert_eq!(editor.selected_entities, vec![6]);
    editor.on_key(Some(Key::Escape), ElementState::Pressed);
    assert!(editor.selected_entities.is_empty());
    editor.on_entity_clicked(7);
    editor.on_map_closed();
    assert!(editor.selected_entities.is_empty());
}

#[test]
fn config_defaults() {
    let app = AppConfig::default();
    assert_eq!((app.width, app.height), (1024, 768));
    assert!(!app.is_fullscreen);
    assert_eq!(app.title, "Phantom Editor");
    assert_eq!(app.icon, None);
    assert_eq!(app.render_backend, Backend::OpenGL);
    let window = WindowConfig::default();
    assert_eq!((window.width, window.height), (1024, 768));
    assert_eq!(window.title, "Phantom App");
    assert_eq!(window.icon, None);
}

#[test]
fn command_effects_match_their_descriptions() {
    let command = append(4);
    assert!(command.executes(vec![1], vec![1, 4], Ok(())));
    assert!(!command.executes(vec![1], vec![1], Ok(())));
    assert!(command.undoes(vec![1, 4], vec![1], Ok(())));
    let before = MapState { loaded: vec![] };
    let after = MapState { loaded: vec!["a.glb".to_string()] };
    assert!(MapState::asset_loaded(before, after, "a.glb".to_string()));
    let mut map = MapState::default();
    let mut gltf = LoadGltfAssetCommand("b.glb".to_string());
    assert_eq!(Command::<MapState, String>::execute(&mut gltf, &mut map), Ok(()));
    assert!(MapState::asset_loaded(MapState::default(), MapState { loaded: map.loaded.clone() }, "b.glb".to_string()));
}
