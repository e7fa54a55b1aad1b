//! What the server asks of the language client.

use vstd::prelude::*;

verus! {

/// The client capabilities that the server relies on, each as the client announced it (`None`
/// when left out).
#[derive(Debug, Clone, Copy)]
pub struct ClientFeatures {
    pub workspace_folders: Option<bool>,
    pub watched_files_registration: Option<bool>,
    pub definition_links: Option<bool>,
    pub declaration_links: Option<bool>,
}

pub open spec fn announced(x: Option<bool>) -> bool {
    x == Some(true)
}

fn is_announced(x: Option<bool>) -> (r: bool)
    ensures
        r == announced(x),
{
    match x {
        Some(b) => b,
        None => false,
    }
}

/// The server works only with a client that announces workspace folders, dynamic registration
/// of watched files, and links as results of both definition and declaration requests.
pub fn client_supported(f: &ClientFeatures) -> (r: bool)
    ensures
        r == (announced(f.workspace_folders) && announced(f.watched_files_registration)
            && announced(f.definition_links) && announced(f.declaration_links)),
{
    is_announced(f.workspace_folders) && is_announced(f.watched_files_registration)
        && is_announced(f.definition_links) && is_announced(f.declaration_links)
}

} // verus!
