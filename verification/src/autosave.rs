//! Decisions of the editor's autosave: when to save, and what the save status
//! shows. The caller performs the saves and reports back.
use vstd::prelude::*;

use crate::ids::{uuid_hyphenated, uuid_to_string};
use crate::status::SaveStatus;
use crate::text::{dec_string, dec_text};

verus! {

/// What happened: the document changed, a save began, or a save ended.
#[derive(Debug)]
pub enum AutosaveEvent {
    DocumentChanged,
    SaveStarted,
    SaveFinished(Result<(), String>),
}

/// What the caller is to do next.
#[derive(Debug, Clone, Copy, PartialEq, Eq, Structural)]
pub enum AutosaveAction {
    Nothing,
    StartSave,
}

/// The autosave's state: whether the first document (the one loaded at
/// start) has been seen, and the status shown.
#[derive(Debug, Clone)]
pub struct Autosave {
    pub initialized: bool,
    pub status: SaveStatus,
}

impl Autosave {
    /// Nothing seen yet, status idle.
    pub fn new() -> (a: Self)
        ensures
            !a.initialized,
            a.status == SaveStatus::Idle,
    {
        Autosave { initialized: false, status: SaveStatus::Idle }
    }

    /// Takes one event. The first document seen is not saved; every later
    /// change marks the document unsaved and asks for a save. A save that
    /// begins shows "saving"; one that ends shows "saved" or its error.
    pub fn step(&mut self, event: AutosaveEvent) -> (r: AutosaveAction)
        ensures
            match event {
                AutosaveEvent::DocumentChanged => if !old(self).initialized {
                    final(self).initialized && final(self).status == old(self).status && r == AutosaveAction::Nothing
                } else {
                    final(self).initialized && final(self).status == SaveStatus::Unsaved && r
                        == AutosaveAction::StartSave
                },
                AutosaveEvent::SaveStarted => final(self).initialized == old(self).initialized && final(self).status
                    == SaveStatus::Saving && r == AutosaveAction::Nothing,
                AutosaveEvent::SaveFinished(Ok(())) => final(self).initialized == old(self).initialized
                    && final(self).status == SaveStatus::Saved && r == AutosaveAction::Nothing,
                AutosaveEvent::SaveFinished(Err(e)) => final(self).initialized == old(self).initialized
                    && final(self).status == SaveStatus::Error(e) && r == AutosaveAction::Nothing,
            },
    {
        match event {
            AutosaveEvent::DocumentChanged => {
                if !self.initialized {
                    self.initialized = true;
                    AutosaveAction::Nothing
                } else {
                    self.status = SaveStatus::Unsaved;
                    AutosaveAction::StartSave
                }
            },
            AutosaveEvent::SaveStarted => {
                self.status = SaveStatus::Saving;
                AutosaveAction::Nothing
            },
            AutosaveEvent::SaveFinished(Ok(())) => {
                self.status = SaveStatus::Saved;
                AutosaveAction::Nothing
            },
            AutosaveEvent::SaveFinished(Err(e)) => {
                self.status = SaveStatus::Error(e);
                AutosaveAction::Nothing
            },
        }
    }
}

/// The address a document is saved to: `/api/documents/` and its id.
pub fn document_url(id: u128) -> (s: String)
    ensures
        s@ == "/api/documents/"@ + uuid_hyphenated(id),
{
    let mut s = String::from_str("/api/documents/");
    let t = uuid_to_string(id);
    s.append(t.as_str());
    s
}

/// The outcome of a save request from the response's success flag and HTTP
/// status: success, or `HTTP` and the status code.
pub fn http_outcome(ok: bool, status: u16) -> (r: Result<(), String>)
    ensures
        ok ==> r == Ok::<(), String>(()),
        !ok ==> (r matches Err(m) && m@ == "HTTP "@ + dec_text(status as nat)),
{
    if ok {
        Ok(())
    } else {
        let mut m = String::from_str("HTTP ");
        let d = dec_string(status as u128);
        m.append(d.as_str());
        Err(m)
    }
}

} // verus!
