//! What the server tells the client it can do: a plain record with one
//! named field for every option.

use vstd::prelude::*;

verus! {

/// How the client reports changes to an open document.
#[derive(Clone, Copy, Debug, PartialEq, Eq, Structural)]
pub enum SyncKind {
    /// Changes are not reported.
    Disabled,
    /// Every change carries the whole text.
    Full,
    /// A change may carry the new text of a range only.
    Incremental,
}

#[derive(Clone, Copy, Debug, PartialEq, Eq, Structural)]
pub struct TextDocumentSync {
    /// Opening and closing of documents is reported.
    pub open_close: bool,
    pub change: SyncKind,
    pub will_save: bool,
    pub will_save_wait_until: bool,
}

#[derive(Clone, Debug, PartialEq, Eq)]
pub struct CompletionOptions {
    /// Items can be resolved further in a second request.
    pub resolve_provider: bool,
    /// Typing one of these asks for completion.
    pub trigger_characters: Vec<String>,
}

#[derive(Clone, Copy, Debug, PartialEq, Eq, Structural)]
pub struct DiagnosticOptions {
    /// A change in one file can change the diagnostics of another.
    pub inter_file_dependencies: bool,
    /// Diagnostics can be pulled for the whole workspace.
    pub workspace_diagnostics: bool,
}

#[derive(Clone, Copy, Debug, PartialEq, Eq, Structural)]
pub struct WorkspaceFolders {
    /// More than one root folder is supported.
    pub supported: bool,
    /// The server wants to hear of changes to the folders.
    pub change_notifications: bool,
}

/// The capabilities of a server.
#[derive(Clone, Debug, PartialEq, Eq)]
pub struct ServerCapabilities {
    pub text_document_sync: TextDocumentSync,
    pub completion: CompletionOptions,
    pub diagnostics: DiagnosticOptions,
    pub workspace_folders: WorkspaceFolders,
}

pub struct ServerCapabilitiesView {
    pub text_document_sync: TextDocumentSync,
    pub resolve_provider: bool,
    pub trigger_characters: Seq<Seq<char>>,
    pub diagnostics: DiagnosticOptions,
    pub workspace_folders: WorkspaceFolders,
}

impl View for ServerCapabilities {
    type V = ServerCapabilitiesView;

    open spec fn view(&self) -> ServerCapabilitiesView {
        ServerCapabilitiesView {
            text_document_sync: self.text_document_sync,
            resolve_provider: self.completion.resolve_provider,
            trigger_characters: self.completion.trigger_characters.deep_view(),
            diagnostics: self.diagnostics,
            workspace_folders: self.workspace_folders,
        }
    }
}

/// Capabilities with every option switched off.
pub open spec fn no_capabilities() -> ServerCapabilitiesView {
    ServerCapabilitiesView {
        text_document_sync: TextDocumentSync {
            open_close: false,
            change: SyncKind::Disabled,
            will_save: false,
            will_save_wait_until: false,
        },
        resolve_provider: false,
        trigger_characters: Seq::empty(),
        diagnostics: DiagnosticOptions {
            inter_file_dependencies: false,
            workspace_diagnostics: false,
        },
        workspace_folders: WorkspaceFolders { supported: false, change_notifications: false },
    }
}

/// The capabilities that this server advertises: documents are tracked
/// from open to close with incremental changes; completion with resolve
/// support, asked for by a dot; diagnostics on request, for one file at a
/// time; one workspace folder, whose changes the server wants to hear of.
pub open spec fn advertised() -> ServerCapabilitiesView {
    ServerCapabilitiesView {
        text_document_sync: TextDocumentSync {
            open_close: true,
            change: SyncKind::Incremental,
            will_save: false,
            will_save_wait_until: false,
        },
        resolve_provider: true,
        trigger_characters: seq!["."@],
        diagnostics: DiagnosticOptions {
            inter_file_dependencies: false,
            workspace_diagnostics: false,
        },
        workspace_folders: WorkspaceFolders { supported: false, change_notifications: true },
    }
}

impl Default for ServerCapabilities {
    fn default() -> (c: ServerCapabilities)
        ensures
            c@ == no_capabilities(),
    {
        let c = ServerCapabilities {
            text_document_sync: TextDocumentSync {
                open_close: false,
                change: SyncKind::Disabled,
                will_save: false,
                will_save_wait_until: false,
            },
            completion: CompletionOptions {
                resolve_provider: false,
                trigger_characters: Vec::new(),
            },
            diagnostics: DiagnosticOptions {
                inter_file_dependencies: false,
                workspace_diagnostics: false,
            },
            workspace_folders: WorkspaceFolders { supported: false, change_notifications: false },
        };
        assert(c@.trigger_characters =~= Seq::<Seq<char>>::empty());
        c
    }
}

/// Builds the capabilities that this server advertises.
pub fn advertise() -> (c: ServerCapabilities)
    ensures
        c@ == advertised(),
{
    let mut triggers: Vec<String> = Vec::new();
    triggers.push(".".to_owned());
    let c = ServerCapabilities {
        text_document_sync: TextDocumentSync {
            open_close: true,
            change: SyncKind::Incremental,
            will_save: false,
            will_save_wait_until: false,
        },
        completion: CompletionOptions { resolve_provider: true, trigger_characters: triggers },
        diagnostics: DiagnosticOptions {
            inter_file_dependencies: false,
            workspace_diagnostics: false,
        },
        workspace_folders: WorkspaceFolders { supported: false, change_notifications: true },
    };
    assert(c@.trigger_characters =~= seq!["."@]);
    c
}

} // verus!
