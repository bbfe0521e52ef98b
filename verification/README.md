# rmf_site_picking

The selection and widget bookkeeping of the RMF site editor's interaction
tools, with machine-checked contracts and proofs. Entities are identified by their 64-bit bit
pattern.

- `src/select.rs`: selection and hover components, resources and events, and
  the highlight cues they imply.
- `src/interaction.rs`: the interaction state and the `Selectable` marker.
- `src/inspector.rs`: the inspector's selection filter and the choice of the
  pointer hit that places its cursor.
- `src/widget.rs`: the widgets of a world and the protocol that lends a
  widget's executor out while it is shown and refuses recursive shows.
- `app/`: the Bevy side: ECS copies of the library's types, the widget
  traits over `egui` (widgets are kept in a per-kind table resource, with a
  `HasWidget` marker component on each entity that keeps the table in step
  when the marker is removed or the entity despawned), camera markers, and
  the cursor's geometry and update.

The world that `src/widget.rs` speaks of is a map from each existing entity
to its widget slot, and the inspector's filter a map from each entity that
carries a `Selectable` to that component and whether the entity is a preview
or pending: these are the plain values that the logic reads
of the ECS.

Not here: the selection services and their workflow, the editor's plugins
(selection, inspector, picking, camera controls, properties panel) and the
camera's material and mesh resources. They are built from editor modules and
rendering crates that this crate does not include.
