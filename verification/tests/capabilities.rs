//! The capability flags, read from every depth of the optional chains.

use texlab::capabilities::{
    ClientCapabilities, DocumentSymbolCapability, GotoCapability, HoverCapability, MarkupKind,
    TextDocumentClientCapabilities, WindowClientCapabilities,
};

#[test]
fn has_definition_link_support_true() {
    let capabilities = ClientCapabilities {
        text_document: Some(TextDocumentClientCapabilities {
            definition: Some(GotoCapability {
                link_support: Some(true),
                ..GotoCapability::default()
            }),
            ..TextDocumentClientCapabilities::default()
        }),
        ..ClientCapabilities::default()
    };
    assert!(capabilities.has_definition_link_support());
}

#[test]
fn has_definition_link_support_false() {
    let capabilities = ClientCapabilities::default();
    assert!(!capabilities.has_definition_link_support());
}

#[test]
fn has_hierarchical_document_symbol_support_true() {
    let capabilities = ClientCapabilities {
        text_document: Some(TextDocumentClientCapabilities {
            document_symbol: Some(DocumentSymbolCapability {
                hierarchical_document_symbol_support: Some(true),
                ..DocumentSymbolCapability::default()
            }),
            ..TextDocumentClientCapabilities::default()
        }),
        ..ClientCapabilities::default()
    };
    assert!(capabilities.has_hierarchical_document_symbol_support());
}

#[test]
fn has_hierarchical_document_symbol_support_false() {
    let capabilities = ClientCapabilities::default();
    assert!(!capabilities.has_hierarchical_document_symbol_support());
}

#[test]
fn has_work_done_progress_support_true() {
    let capabilities = ClientCapabilities {
        window: Some(WindowClientCapabilities {
            work_done_progress: Some(true),
            ..WindowClientCapabilities::default()
        }),
        ..ClientCapabilities::default()
    };
    assert!(capabilities.has_work_done_progress_support());
}

#[test]
fn has_work_done_progress_support_false() {
    let capabilities = ClientCapabilities::default();
    assert!(!capabilities.has_work_done_progress_support());
}

#[test]
fn has_hover_markdown_support_true() {
    let capabilities = ClientCapabilities {
        text_document: Some(TextDocumentClientCapabilities {
            hover: Some(HoverCapability {
                content_format: Some(vec![MarkupKind::PlainText, MarkupKind::Markdown]),
                ..HoverCapability::default()
            }),
            ..TextDocumentClientCapabilities::default()
        }),
        ..ClientCapabilities::default()
    };
    assert!(capabilities.has_hover_markdown_support());
}

#[test]
fn has_hover_markdown_support_false() {
    let capabilities = ClientCapabilities::default();
    assert!(!capabilities.has_hover_markdown_support());
}

#[test]
fn hover_markdown_absent_from_formats() {
    let capabilities = ClientCapabilities {
        text_document: Some(TextDocumentClientCapabilities {
            hover: Some(HoverCapability {
                content_format: Some(vec![MarkupKind::PlainText]),
                ..HoverCapability::default()
            }),
            ..TextDocumentClientCapabilities::default()
        }),
        ..ClientCapabilities::default()
    };
    assert!(!capabilities.has_hover_markdown_support());
}

#[test]
fn pull_and_push_configuration_default_off() {
    let capabilities = ClientCapabilities::default();
    assert!(!capabilities.has_pull_configuration_support());
    assert!(!capabilities.has_push_configuration_support());
}
