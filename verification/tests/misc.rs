use ykcode::autosave::{document_url, http_outcome, Autosave, AutosaveAction, AutosaveEvent};
use ykcode::catalogue::PanelState as Dock;
use ykcode::document::{Document, Node};
use ykcode::editor_state::PanelState;
use ykcode::shared::{
    corner_positions, Artboard, Bounds, CanvasComponent, ComponentId, ComponentKind, Project, ProjectId,
};
use ykcode::status::{component_count, count_label, SaveStatus};
use ykcode::style::NodeKind;
use ykcode::text::{contains_text, slugify};

#[test]
fn slugs() {
    assert_eq!(slugify("My Site!"), "My-Site");
    assert_eq!(slugify("--a__b--"), "a--b");
    assert_eq!(slugify("!!!"), "export");
    assert_eq!(slugify(""), "export");
    assert_eq!(slugify("héllo wörld"), "h-llo-w-rld");
}

#[test]
fn substring_search() {
    assert!(contains_text("container", "tai"));
    assert!(contains_text("abc", ""));
    assert!(contains_text("", ""));
    assert!(!contains_text("ab", "abc"));
    assert!(contains_text("aab", "ab"));
    assert!(!contains_text("abc", "ac"));
}

#[test]
fn save_status_texts() {
    assert_eq!(SaveStatus::Idle.as_str(), "idle");
    assert_eq!(SaveStatus::Error("x".into()).as_str(), "error");
    assert_eq!(SaveStatus::Saving.label(), "Saving…");
    assert_eq!(SaveStatus::Error("disk full".into()).label(), "Error: disk full");
}

#[test]
fn component_counts() {
    let mut doc = Document::default();
    assert_eq!(component_count(&doc), 0);
    assert_eq!(count_label(0), "Empty page");
    doc.insert_node(Node::new(NodeKind::Text));
    assert_eq!(component_count(&doc), 1);
    assert_eq!(count_label(1), "1 component");
    assert_eq!(count_label(12), "12 components");
}

#[test]
fn project_new_has_mobile_artboard_with_button() {
    let p = Project::new("Demo");
    assert_eq!(p.name, "Demo");
    assert_eq!(p.artboards.len(), 1);
    let a = &p.artboards[0];
    assert_eq!(a.name, "Mobile");
    assert_eq!((f32::from_bits(a.width), f32::from_bits(a.height)), (390.0, 844.0));
    let b = &a.components[0];
    assert_eq!(b.name, "Primary Button");
    assert!(matches!(b.kind, ComponentKind::Button));
    assert_eq!(
        (
            f32::from_bits(b.bounds.x),
            f32::from_bits(b.bounds.y),
            f32::from_bits(b.bounds.width),
            f32::from_bits(b.bounds.height)
        ),
        (100.0, 200.0, 160.0, 48.0)
    );
    assert_eq!(p.created_at, p.updated_at);
    assert!(p.created_at.secs > 1_600_000_000);
}

#[test]
fn artboards_and_ids() {
    let d = Artboard::desktop("D");
    assert_eq!((f32::from_bits(d.width), f32::from_bits(d.height)), (1440.0, 900.0));
    let c = CanvasComponent::new(ComponentKind::Card, "Card", Bounds::new(1, 2, 3, 4));
    assert_eq!(c.bounds, Bounds::new(1, 2, 3, 4));
    assert!(c.children.is_empty());
    let id = ComponentId::new();
    assert_eq!(id.to_string(), uuid::Uuid::from_u128(id.0).to_string());
    let pid = ProjectId::new();
    assert_eq!(uuid::Uuid::from_u128(pid.0).get_version_num(), 4);
}

#[test]
fn resize_handles() {
    let h = corner_positions();
    assert_eq!(h.len(), 8);
    assert_eq!((f32::from_bits(h[3].0), f32::from_bits(h[3].1), h[3].2), (100.0, 50.0, "ew-resize"));
    assert_eq!((f32::from_bits(h[6].0), f32::from_bits(h[6].1), h[6].2), (0.0, 100.0, "nesw-resize"));
}

#[test]
fn autosave_skips_first_document_then_saves() {
    let mut a = Autosave::new();
    assert_eq!(a.step(AutosaveEvent::DocumentChanged), AutosaveAction::Nothing);
    assert!(matches!(a.status, SaveStatus::Idle));
    assert_eq!(a.step(AutosaveEvent::DocumentChanged), AutosaveAction::StartSave);
    assert!(matches!(a.status, SaveStatus::Unsaved));
    a.step(AutosaveEvent::SaveStarted);
    assert!(matches!(a.status, SaveStatus::Saving));
    a.step(AutosaveEvent::SaveFinished(Ok(())));
    assert!(matches!(a.status, SaveStatus::Saved));
    a.step(AutosaveEvent::SaveFinished(Err("HTTP 500".into())));
    assert_eq!(a.status.label(), "Error: HTTP 500");
}

#[test]
fn autosave_request_texts() {
    let doc = Document::new("x");
    assert_eq!(document_url(doc.id), format!("/api/documents/{}", uuid::Uuid::from_u128(doc.id)));
    assert_eq!(http_outcome(true, 200), Ok(()));
    assert_eq!(http_outcome(false, 404), Err("HTTP 404".to_string()));
    assert_eq!(http_outcome(false, 0), Err("HTTP 0".to_string()));
}

#[test]
fn panel_toggles() {
    assert_eq!(PanelState::Expanded.toggled(), PanelState::Collapsed);
    assert_eq!(PanelState::Collapsed.toggled(), PanelState::Expanded);
    assert_eq!(PanelState::Hidden.toggled(), PanelState::Expanded);
    assert_eq!(Dock::default(), Dock::Hidden);
    assert_eq!(Dock::Overlay.toggled_overlay(), Dock::Hidden);
    assert_eq!(Dock::Pinned.toggled_overlay(), Dock::Overlay);
}
