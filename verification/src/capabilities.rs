//! What the editor client declared it can handle, reduced to the few
//! capability flags this server reads. Every flag sits at the bottom of a
//! chain of optional capability groups; an absent group means the capability
//! was not declared.

use vstd::prelude::*;

verus! {

/// How hover contents may be written.
#[derive(Debug, Clone, Copy, PartialEq, Eq, Structural)]
pub enum MarkupKind {
    PlainText,
    Markdown,
}

/// What the client's go-to-definition can handle.
pub struct GotoCapability {
    pub link_support: Option<bool>,
}

/// What the client's document-symbol view can handle.
pub struct DocumentSymbolCapability {
    pub hierarchical_document_symbol_support: Option<bool>,
}

/// What the client's hover display can handle.
pub struct HoverCapability {
    pub content_format: Option<Vec<MarkupKind>>,
}

/// The text-document capability groups this server reads.
pub struct TextDocumentClientCapabilities {
    pub definition: Option<GotoCapability>,
    pub document_symbol: Option<DocumentSymbolCapability>,
    pub hover: Option<HoverCapability>,
}

/// The window capability group this server reads.
pub struct WindowClientCapabilities {
    pub work_done_progress: Option<bool>,
}

/// Whether the client registers configuration-change notifications
/// dynamically.
pub struct DidChangeConfigurationCapability {
    pub dynamic_registration: Option<bool>,
}

/// The workspace capability groups this server reads.
pub struct WorkspaceClientCapabilities {
    pub configuration: Option<bool>,
    pub did_change_configuration: Option<DidChangeConfigurationCapability>,
}

/// Everything the client declared, reduced to what this server reads.
pub struct ClientCapabilities {
    pub text_document: Option<TextDocumentClientCapabilities>,
    pub window: Option<WindowClientCapabilities>,
    pub workspace: Option<WorkspaceClientCapabilities>,
}

/// The client can take definition links.
pub open spec fn declares_definition_link_support(c: ClientCapabilities) -> bool {
    match c.text_document {
        Some(td) => match td.definition {
            Some(d) => d.link_support == Some(true),
            None => false,
        },
        None => false,
    }
}

/// The client can take hierarchical document symbols.
pub open spec fn declares_hierarchical_document_symbol_support(c: ClientCapabilities) -> bool {
    match c.text_document {
        Some(td) => match td.document_symbol {
            Some(d) => d.hierarchical_document_symbol_support == Some(true),
            None => false,
        },
        None => false,
    }
}

/// The client can take progress reporting.
pub open spec fn declares_work_done_progress_support(c: ClientCapabilities) -> bool {
    match c.window {
        Some(w) => w.work_done_progress == Some(true),
        None => false,
    }
}

/// The client can take markdown hover contents.
pub open spec fn declares_hover_markdown_support(c: ClientCapabilities) -> bool {
    match c.text_document {
        Some(td) => match td.hover {
            Some(h) => match h.content_format {
                Some(f) => exists|i: int| 0 <= i < f@.len() && f@[i] == MarkupKind::Markdown,
                None => false,
            },
            None => false,
        },
        None => false,
    }
}

/// The server may pull configuration from the client.
pub open spec fn declares_pull_configuration_support(c: ClientCapabilities) -> bool {
    match c.workspace {
        Some(w) => w.configuration == Some(true),
        None => false,
    }
}

/// The client pushes configuration changes under dynamic registration.
pub open spec fn declares_push_configuration_support(c: ClientCapabilities) -> bool {
    match c.workspace {
        Some(w) => match w.did_change_configuration {
            Some(d) => d.dynamic_registration == Some(true),
            None => false,
        },
        None => false,
    }
}

impl ClientCapabilities {
    /// Whether the client can take definition links.
    pub fn has_definition_link_support(&self) -> (r: bool)
        ensures
            r == declares_definition_link_support(*self),
    {
        match &self.text_document {
            Some(td) => match &td.definition {
                Some(d) => match d.link_support {
                    Some(true) => true,
                    _ => false,
                },
                None => false,
            },
            None => false,
        }
    }

    /// Whether the client can take hierarchical document symbols.
    pub fn has_hierarchical_document_symbol_support(&self) -> (r: bool)
        ensures
            r == declares_hierarchical_document_symbol_support(*self),
    {
        match &self.text_document {
            Some(td) => match &td.document_symbol {
                Some(d) => match d.hierarchical_document_symbol_support {
                    Some(true) => true,
                    _ => false,
                },
                None => false,
            },
            None => false,
        }
    }

    /// Whether the client can take progress reporting; builds only report
    /// progress when this holds.
    pub fn has_work_done_progress_support(&self) -> (r: bool)
        ensures
            r == declares_work_done_progress_support(*self),
    {
        match &self.window {
            Some(w) => match w.work_done_progress {
                Some(true) => true,
                _ => false,
            },
            None => false,
        }
    }

    /// Whether the client can take markdown hover contents.
    pub fn has_hover_markdown_support(&self) -> (r: bool)
        ensures
            r == declares_hover_markdown_support(*self),
    {
        match &self.text_document {
            Some(td) => match &td.hover {
                Some(h) => match &h.content_format {
                    Some(f) => {
                        let n = f.len();
                        let mut i: usize = 0;
                        while i < n
                            invariant
                                0 <= i <= n,
                                n == f@.len(),
                                declares_hover_markdown_support(*self) == (exists|k: int|
                                    0 <= k < f@.len() && f@[k] == MarkupKind::Markdown),
                                forall|k: int| 0 <= k < i ==> f@[k] != MarkupKind::Markdown,
                            decreases n - i,
                        {
                            if f[i] == MarkupKind::Markdown {
                                return true;
                            }
                            i = i + 1;
                        }
                        false
                    },
                    None => false,
                },
                None => false,
            },
            None => false,
        }
    }

    /// Whether the server may pull configuration from the client.
    pub fn has_pull_configuration_support(&self) -> (r: bool)
        ensures
            r == declares_pull_configuration_support(*self),
    {
        match &self.workspace {
            Some(w) => match w.configuration {
                Some(true) => true,
                _ => false,
            },
            None => false,
        }
    }

    /// Whether the client pushes configuration changes under dynamic
    /// registration.
    pub fn has_push_configuration_support(&self) -> (r: bool)
        ensures
            r == declares_push_configuration_support(*self),
    {
        match &self.workspace {
            Some(w) => match &w.did_change_configuration {
                Some(d) => match d.dynamic_registration {
                    Some(true) => true,
                    _ => false,
                },
                None => false,
            },
            None => false,
        }
    }
}

impl Default for GotoCapability {
    /// Nothing declared.
    fn default() -> (r: GotoCapability)
        ensures
            r.link_support is None,
    {
        GotoCapability { link_support: None }
    }
}

impl Default for DocumentSymbolCapability {
    /// Nothing declared.
    fn default() -> (r: DocumentSymbolCapability)
        ensures
            r.hierarchical_document_symbol_support is None,
    {
        DocumentSymbolCapability { hierarchical_document_symbol_support: None }
    }
}

impl Default for HoverCapability {
    /// Nothing declared.
    fn default() -> (r: HoverCapability)
        ensures
            r.content_format is None,
    {
        HoverCapability { content_format: None }
    }
}

impl Default for TextDocumentClientCapabilities {
    /// Nothing declared.
    fn default() -> (r: TextDocumentClientCapabilities)
        ensures
            r.definition is None,
            r.document_symbol is None,
            r.hover is None,
    {
        TextDocumentClientCapabilities { definition: None, document_symbol: None, hover: None }
    }
}

impl Default for WindowClientCapabilities {
    /// Nothing declared.
    fn default() -> (r: WindowClientCapabilities)
        ensures
            r.work_done_progress is None,
    {
        WindowClientCapabilities { work_done_progress: None }
    }
}

impl Default for DidChangeConfigurationCapability {
    /// Nothing declared.
    fn default() -> (r: DidChangeConfigurationCapability)
        ensures
            r.dynamic_registration is None,
    {
        DidChangeConfigurationCapability { dynamic_registration: None }
    }
}

impl Default for WorkspaceClientCapabilities {
    /// Nothing declared.
    fn default() -> (r: WorkspaceClientCapabilities)
        ensures
            r.configuration is None,
            r.did_change_configuration is None,
    {
        WorkspaceClientCapabilities { configuration: None, did_change_configuration: None }
    }
}

impl Default for ClientCapabilities {
    /// Nothing declared.
    fn default() -> (r: ClientCapabilities)
        ensures
            r.text_document is None,
            r.window is None,
            r.workspace is None,
    {
        ClientCapabilities { text_document: None, window: None, workspace: None }
    }
}

} // verus!
