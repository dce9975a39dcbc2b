//! The editor's selection and transform-gizmo state, and how key presses
//! and clicks change it.
use vstd::prelude::*;

use crate::editor::commands::CommandList;

verus! {

/// The keys the editor reacts to.
#[derive(Clone, Copy, Debug, PartialEq, Eq, Structural)]
pub enum Key {
    Escape,
    T,
    R,
    S,
    G,
    /// Any other key.
    Other,
}

/// Whether a key went down or up.
#[derive(Clone, Copy, Debug, PartialEq, Eq, Structural)]
pub enum ElementState {
    Pressed,
    Released,
}

/// What dragging the transform gizmo changes.
#[derive(Clone, Copy, Debug, PartialEq, Eq, Structural)]
pub enum GizmoMode {
    Translate,
    Rotate,
    Scale,
}

/// The axes the transform gizmo works along.
#[derive(Clone, Copy, Debug, PartialEq, Eq, Structural)]
pub enum GizmoOrientation {
    Global,
    Local,
}

/// The transform gizmo's settings.
#[derive(Clone, Copy, Debug, PartialEq, Eq, Structural)]
pub struct Gizmo {
    pub mode: GizmoMode,
    pub orientation: GizmoOrientation,
}

/// The editor: the selected entities, the command history and the gizmo.
pub struct Editor<C> {
    pub selected_entities: Vec<u64>,
    pub commands: CommandList<C>,
    pub gizmo: Gizmo,
}

/// The other gizmo orientation.
pub open spec fn toggled(orientation: GizmoOrientation) -> GizmoOrientation {
    match orientation {
        GizmoOrientation::Global => GizmoOrientation::Local,
        GizmoOrientation::Local => GizmoOrientation::Global,
    }
}

impl<C> Editor<C> {
    /// An editor with nothing selected and an empty command history.
    pub fn new(gizmo: Gizmo) -> (r: Self)
        ensures
            r.selected_entities@ == Seq::<u64>::empty(),
            r.commands@.pending.len() == 0,
            r.commands@.undo.len() == 0,
            r.commands@.redo.len() == 0,
            r.gizmo == gizmo,
    {
        Editor { selected_entities: Vec::new(), commands: CommandList::new(), gizmo }
    }

    /// A key press: Escape clears the selection, T, R and S switch the
    /// gizmo to translating, rotating and scaling, and G toggles its
    /// orientation. Releases and other keys change nothing.
    pub fn on_key(&mut self, key: Option<Key>, state: ElementState)
        ensures
            final(self).commands@ == old(self).commands@,
            state == ElementState::Pressed && key == Some(Key::Escape) ==> final(self).selected_entities@
                == Seq::<u64>::empty() && final(self).gizmo == old(self).gizmo,
            state == ElementState::Pressed && key == Some(Key::T) ==> final(self).selected_entities@
                == old(self).selected_entities@ && final(self).gizmo == (Gizmo {
                mode: GizmoMode::Translate,
                ..old(self).gizmo
            }),
            state == ElementState::Pressed && key == Some(Key::R) ==> final(self).selected_entities@
                == old(self).selected_entities@ && final(self).gizmo == (Gizmo {
                mode: GizmoMode::Rotate,
                ..old(self).gizmo
            }),
            state == ElementState::Pressed && key == Some(Key::S) ==> final(self).selected_entities@
                == old(self).selected_entities@ && final(self).gizmo == (Gizmo {
                mode: GizmoMode::Scale,
                ..old(self).gizmo
            }),
            state == ElementState::Pressed && key == Some(Key::G) ==> final(self).selected_entities@
                == old(self).selected_entities@ && final(self).gizmo == (Gizmo {
                orientation: toggled(old(self).gizmo.orientation),
                ..old(self).gizmo
            }),
            state == ElementState::Released || key is None || key == Some(Key::Other) ==> (final(self).selected_entities@
                == old(self).selected_entities@ && final(self).gizmo == old(self).gizmo),
    {
        match (key, state) {
            (Some(Key::Escape), ElementState::Pressed) => {
                self.selected_entities.clear();
            },
            (Some(Key::T), ElementState::Pressed) => {
                self.gizmo.mode = GizmoMode::Translate;
            },
            (Some(Key::R), ElementState::Pressed) => {
                self.gizmo.mode = GizmoMode::Rotate;
            },
            (Some(Key::S), ElementState::Pressed) => {
                self.gizmo.mode = GizmoMode::Scale;
            },
            (Some(Key::G), ElementState::Pressed) => {
                self.gizmo.orientation =
                    match self.gizmo.orientation {
                        GizmoOrientation::Global => GizmoOrientation::Local,
                        GizmoOrientation::Local => GizmoOrientation::Global,
                    };
            },
            _ => {},
        }
    }

    /// A click on `entity` in the scene explorer: it becomes the only
    /// selected entity.
    pub fn on_entity_clicked(&mut self, entity: u64)
        ensures
            final(self).selected_entities@ == seq![entity],
            final(self).commands@ == old(self).commands@,
            final(self).gizmo == old(self).gizmo,
    {
        if !self.selected_entities_contains(entity) || self.selected_entities.len() != 0 {
            let mut selected: Vec<u64> = Vec::new();
            selected.push(entity);
            self.selected_entities = selected;
        }
    }

    /// Whether `entity` is selected.
    pub fn selected_entities_contains(&self, entity: u64) -> (b: bool)
        ensures
            b == self.selected_entities@.contains(entity),
    {
        let mut i: usize = 0;
        while i < self.selected_entities.len()
            invariant
                i <= self.selected_entities@.len(),
                forall|j: int| 0 <= j < i ==> self.selected_entities@[j] != entity,
            decreases self.selected_entities@.len() - i,
        {
            if self.selected_entities[i] == entity {
                return true;
            }
            i = i + 1;
        }
        false
    }

    /// Closing the map clears the selection.
    pub fn on_map_closed(&mut self)
        ensures
            final(self).selected_entities@ == Seq::<u64>::empty(),
            final(self).commands@ == old(self).commands@,
            final(self).gizmo == old(self).gizmo,
    {
        self.selected_entities.clear();
    }
}

/// Law: pressing G twice gives back the gizmo orientation.
pub proof fn law_toggle_twice(orientation: GizmoOrientation)
    ensures
        toggled(toggled(orientation)) == orientation,
{
}

} // verus!
