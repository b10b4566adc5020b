use render_core::bind_group::BindGroupId;
use render_core::clear::{resolve_load_op, ClearColor, ClearColorConfig, Color, LoadOp};
use render_core::phase::{DrawFunction, PhaseError, PhaseItem, RenderCommand, RenderPhase, SortOrder};

fn red() -> Color {
    Color::rgba(255, 0, 0, 255)
}

fn item(entity: u32, key: u64, pipeline: u64, group: u128) -> PhaseItem {
    PhaseItem {
        entity,
        sort_key: key,
        pipeline,
        bind_group: BindGroupId(group),
        draw_function: DrawFunction::Opaque,
    }
}

fn entities(phase: &RenderPhase) -> Vec<u32> {
    (0..phase.len()).map(|i| phase.get(i).entity).collect()
}

#[test]
fn custom_clear_is_used_whatever_the_default() {
    let custom = ClearColorConfig::Custom(red());
    let a = resolve_load_op(custom, &ClearColor(Color::rgba(0, 0, 0, 255)));
    let b = resolve_load_op(custom, &ClearColor(Color::rgba(0, 0, 255, 255)));
    assert_eq!(a, LoadOp::Clear(red()));
    assert_eq!(b, LoadOp::Clear(red()));
}

#[test]
fn preserve_loads_existing_contents() {
    for d in [Color::rgba(1, 2, 3, 4), Color::rgba(200, 100, 50, 255)] {
        assert_eq!(resolve_load_op(ClearColorConfig::Preserve, &ClearColor(d)), LoadOp::Load);
    }
}

#[test]
fn default_clear_uses_process_color() {
    let d = Color::rgba(10, 20, 30, 255);
    assert_eq!(resolve_load_op(ClearColorConfig::Default, &ClearColor(d)), LoadOp::Clear(d));
}

#[test]
fn sort_ascending_is_stable() {
    let mut phase = RenderPhase::new(SortOrder::Ascending);
    phase.insert(item(1, 5, 0, 0));
    phase.insert(item(2, 1, 0, 0));
    phase.insert(item(3, 5, 0, 0));
    phase.insert(item(4, 3, 0, 0));
    phase.insert(item(5, 1, 0, 0));
    phase.sort();
    assert!(phase.is_sorted());
    assert_eq!(entities(&phase), vec![2, 5, 4, 1, 3]);
}

#[test]
fn sort_descending_is_stable() {
    let mut phase = RenderPhase::new(SortOrder::Descending);
    phase.insert(item(1, 5, 0, 0));
    phase.insert(item(2, 9, 0, 0));
    phase.insert(item(3, 5, 0, 0));
    phase.insert(item(4, 0, 0, 0));
    phase.sort();
    assert_eq!(entities(&phase), vec![2, 1, 3, 4]);
}

#[test]
fn sorting_twice_changes_nothing() {
    let mut phase = RenderPhase::new(SortOrder::Ascending);
    for (e, k) in [(1, 7), (2, 3), (3, 7), (4, 0), (5, 3)] {
        phase.insert(item(e, k, 0, 0));
    }
    phase.sort();
    let once = entities(&phase);
    phase.sort();
    assert_eq!(entities(&phase), once);
}

#[test]
fn emit_before_sort_fails() {
    let mut phase = RenderPhase::new(SortOrder::Ascending);
    phase.insert(item(1, 0, 0, 0));
    let mut out = Vec::new();
    assert_eq!(phase.emit(&vec![1], &mut out), Err(PhaseError::NotSorted));
    assert!(out.is_empty());
    phase.sort();
    phase.insert(item(2, 0, 0, 0));
    assert_eq!(phase.emit(&vec![1, 2], &mut out), Err(PhaseError::NotSorted));
}

#[test]
fn emit_visits_items_in_key_order() {
    let mut phase = RenderPhase::new(SortOrder::Ascending);
    phase.insert(item(1, 30, 7, 1));
    phase.insert(item(2, 10, 7, 1));
    phase.insert(item(3, 20, 7, 1));
    phase.sort();
    let mut out = Vec::new();
    assert_eq!(phase.emit(&vec![1, 2, 3], &mut out), Ok(()));
    let draws: Vec<u32> = out
        .iter()
        .filter_map(|c| match c {
            RenderCommand::Draw { entity, .. } => Some(*entity),
            _ => None,
        })
        .collect();
    assert_eq!(draws, vec![2, 3, 1]);
}

#[test]
fn adjacent_items_with_same_bindings_bind_once() {
    let mut phase = RenderPhase::new(SortOrder::Ascending);
    phase.insert(item(1, 0, 7, 42));
    phase.insert(item(2, 1, 7, 42));
    phase.sort();
    let mut out = Vec::new();
    phase.emit(&vec![1, 2], &mut out).unwrap();
    assert_eq!(
        out,
        vec![
            RenderCommand::SetPipeline(7),
            RenderCommand::SetBindGroup(BindGroupId(42)),
            RenderCommand::Draw { entity: 1, function: DrawFunction::Opaque },
            RenderCommand::Draw { entity: 2, function: DrawFunction::Opaque },
        ]
    );
}

#[test]
fn changed_bind_group_is_rebound_alone() {
    let mut phase = RenderPhase::new(SortOrder::Ascending);
    phase.insert(item(1, 0, 7, 42));
    phase.insert(item(2, 1, 7, 43));
    phase.insert(item(3, 2, 8, 43));
    phase.sort();
    let mut out = Vec::new();
    phase.emit(&vec![1, 2, 3], &mut out).unwrap();
    assert_eq!(
        out,
        vec![
            RenderCommand::SetPipeline(7),
            RenderCommand::SetBindGroup(BindGroupId(42)),
            RenderCommand::Draw { entity: 1, function: DrawFunction::Opaque },
            RenderCommand::SetBindGroup(BindGroupId(43)),
            RenderCommand::Draw { entity: 2, function: DrawFunction::Opaque },
            RenderCommand::SetPipeline(8),
            RenderCommand::Draw { entity: 3, function: DrawFunction::Opaque },
        ]
    );
}

#[test]
fn stale_entities_are_skipped() {
    let mut phase = RenderPhase::new(SortOrder::Ascending);
    phase.insert(item(1, 0, 7, 42));
    phase.insert(item(2, 1, 9, 50));
    phase.insert(item(3, 2, 7, 42));
    phase.sort();
    let mut out = Vec::new();
    phase.emit(&vec![1, 3], &mut out).unwrap();
    assert_eq!(
        out,
        vec![
            RenderCommand::SetPipeline(7),
            RenderCommand::SetBindGroup(BindGroupId(42)),
            RenderCommand::Draw { entity: 1, function: DrawFunction::Opaque },
            RenderCommand::Draw { entity: 3, function: DrawFunction::Opaque },
        ]
    );
}

#[test]
fn emit_of_empty_phase_records_nothing() {
    let mut phase = RenderPhase::new(SortOrder::Descending);
    phase.sort();
    let mut out = Vec::new();
    assert_eq!(phase.emit(&vec![], &mut out), Ok(()));
    assert!(out.is_empty());
}

#[test]
fn clear_empties_and_unsorts() {
    let mut phase = RenderPhase::new(SortOrder::Ascending);
    phase.insert(item(1, 0, 0, 0));
    phase.sort();
    phase.clear();
    assert_eq!(phase.len(), 0);
    assert!(!phase.is_sorted());
    assert_eq!(phase.order(), SortOrder::Ascending);
}
