use nitum_pdf_core::document::{open_action, DocumentPicker, DocumentRef, OpenAction, OpenDocument, OpenReply};
use nitum_pdf_core::viewer::{Viewport, ViewerState};
use std::path::PathBuf;

struct FixedPicker;

impl DocumentPicker for FixedPicker {
    fn pick_pdf(&self) -> Option<DocumentRef> {
        Some(DocumentRef::from_path(PathBuf::from("sample.pdf")))
    }
}

#[test]
fn open_document_depends_on_a_port() {
    assert_eq!(
        OpenDocument::new(FixedPicker)
            .execute()
            .unwrap()
            .display_name(),
        "sample.pdf"
    );
}

#[test]
fn viewer_navigation_never_leaves_document_bounds() {
    let mut state = ViewerState::default();
    state.opened(2);
    assert_eq!(state.previous_page(), None);
    assert_eq!(state.next_page().unwrap().page_index, 1);
    assert_eq!(state.next_page(), None);
    assert_eq!(state.previous_page().unwrap().page_index, 0);
}

#[test]
fn viewer_zoom_is_bounded_and_fit_is_predictable() {
    let mut state = ViewerState::default();
    state.opened(1);
    assert_eq!(state.zoom_by(-1000).zoom_percent, 10);
    assert_eq!(state.zoom_by(2000).zoom_percent, 800);
    assert_eq!(state.fit_width().zoom_percent, 100);
}

#[test]
fn derives_a_safe_display_name() {
    let document = DocumentRef::from_path(PathBuf::from("/tmp/contrato.pdf"));
    assert_eq!(document.display_name(), "contrato.pdf");
}

#[test]
fn a_path_without_a_file_name_gets_the_generic_title() {
    let document = DocumentRef::from_path(PathBuf::from("/"));
    assert_eq!(document.display_name(), "Documento PDF");
    assert_eq!(document.path(), &PathBuf::from("/"));
    assert_eq!(
        nitum_pdf_core::document::display_name_for(Some(String::new())),
        "Documento PDF"
    );
    assert_eq!(
        nitum_pdf_core::document::display_name_for(Some("informe.pdf".to_string())),
        "informe.pdf"
    );
    assert_eq!(nitum_pdf_core::document::display_name_for(None), "Documento PDF");
}

#[test]
fn an_empty_document_stays_on_its_first_page() {
    let mut state = ViewerState::default();
    assert_eq!(state.next_page(), None);
    assert_eq!(state.previous_page(), None);
    assert_eq!(state.go_to(0), None);
    assert_eq!(
        state.fit_width(),
        Viewport {
            page_index: 0,
            zoom_percent: 100
        }
    );
}

#[test]
fn going_forward_and_back_returns_to_the_same_page() {
    let mut state = ViewerState::default();
    state.opened(5);
    state.zoom_by(50);
    let start = state.go_to(2).unwrap();
    let forward = state.next_page().unwrap();
    assert_eq!(forward.page_index, 3);
    assert_eq!(state.previous_page(), Some(start));
}

#[test]
fn jumps_only_reach_existing_pages_and_keep_the_zoom() {
    let mut state = ViewerState::default();
    state.opened(3);
    assert_eq!(state.zoom_by(-25).zoom_percent, 75);
    assert_eq!(
        state.go_to(2),
        Some(Viewport {
            page_index: 2,
            zoom_percent: 75
        })
    );
    assert_eq!(state.go_to(3), None);
    assert_eq!(state.next_page(), None);
    assert_eq!(state.opened(4), Viewport { page_index: 0, zoom_percent: 100 });
}

#[test]
fn zoom_steps_clamp_at_each_end() {
    let mut state = ViewerState::default();
    state.opened(1);
    assert_eq!(state.zoom_by(25).zoom_percent, 125);
    assert_eq!(state.zoom_by(700).zoom_percent, 800);
    assert_eq!(state.zoom_by(25).zoom_percent, 800);
    assert_eq!(state.zoom_by(-795).zoom_percent, 10);
    assert_eq!(state.zoom_by(-25).zoom_percent, 10);
}

#[test]
fn a_picked_document_always_has_a_title() {
    struct RootPicker;
    impl DocumentPicker for RootPicker {
        fn pick_pdf(&self) -> Option<DocumentRef> {
            Some(DocumentRef::from_path(PathBuf::from("/")))
        }
    }
    let picked = OpenDocument::new(RootPicker).execute().unwrap();
    assert_eq!(picked.display_name(), "Documento PDF");
    let copy = picked.clone();
    assert_eq!(copy, picked);
    assert_eq!(copy.path(), &PathBuf::from("/"));
}

#[test]
fn an_open_answer_is_shown_only_for_the_latest_request() {
    assert_eq!(open_action(1, 2, OpenReply::Opened(3), false), OpenAction::Ignore);
    assert_eq!(open_action(2, 2, OpenReply::Opened(3), false), OpenAction::Show { page_count: 3 });
    assert_eq!(
        open_action(2, 2, OpenReply::Opened(0), false),
        OpenAction::ShowError { message: "El PDF no contiene páginas.".into() }
    );
    assert_eq!(
        open_action(2, 2, OpenReply::PasswordRequired, false),
        OpenAction::AskPassword { status: String::new() }
    );
    assert_eq!(
        open_action(2, 2, OpenReply::PasswordRequired, true),
        OpenAction::AskPassword { status: "La contraseña no es correcta. Inténtalo de nuevo.".into() }
    );
    assert_eq!(
        open_action(2, 2, OpenReply::Failed("archivo dañado".into()), true),
        OpenAction::ShowError { message: "archivo dañado".into() }
    );
    assert_eq!(open_action(3, 2, OpenReply::PasswordRequired, true), OpenAction::Ignore);
}
