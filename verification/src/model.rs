use vstd::prelude::*;
use crate::clock::Timestamp;
use crate::identifier::IndexUuid;
use crate::updates;

verus! {

/// How added documents meet documents that are already in the index.
#[derive(Clone, Copy, Debug, PartialEq, Eq, Structural, Hash)]
pub enum IndexDocumentsMethod {
    /// A document replaces the stored document with the same key.
    ReplaceDocuments,
    /// A document is merged into the stored document with the same key.
    UpdateDocuments,
}

/// The encoding of a payload of documents.
#[derive(Clone, Copy, Debug, PartialEq, Eq, Structural, Hash)]
pub enum UpdateFormat {
    Csv,
    Json,
    JsonStream,
}

/// What the transport layer knows of an index.
#[derive(Debug, PartialEq, Eq)]
pub struct IndexMetadata {
    pub uuid: IndexUuid,
    pub created_at: Timestamp,
    pub updated_at: Timestamp,
    pub primary_key: Option<String>,
}

/// The parameters of a request to create or to change an index.
#[derive(Debug, PartialEq, Eq)]
pub struct IndexSettings {
    pub name: Option<String>,
    pub primary_key: Option<String>,
}

/// A copy of an optional string.
pub fn clone_optional_string(source: &Option<String>) -> (copy: Option<String>)
    ensures
        copy == *source,
{
    match source {
        Some(text) => Some(text.clone()),
        None => None,
    }
}

impl Clone for IndexMetadata {
    fn clone(&self) -> (copy: Self)
        ensures
            copy == *self,
    {
        IndexMetadata {
            uuid: self.uuid,
            created_at: self.created_at,
            updated_at: self.updated_at,
            primary_key: clone_optional_string(&self.primary_key),
        }
    }
}

impl Clone for IndexSettings {
    fn clone(&self) -> (copy: Self)
        ensures
            copy == *self,
    {
        IndexSettings {
            name: clone_optional_string(&self.name),
            primary_key: clone_optional_string(&self.primary_key),
        }
    }
}

/// The settings of an index, carried as the text of the settings document.
#[derive(Debug, PartialEq, Eq)]
pub struct Settings {
    pub document: String,
}

/// The facet parameters of an index, carried as the text of the facets
/// document.
#[derive(Debug, PartialEq, Eq)]
pub struct Facets {
    pub document: String,
}

/// What a submitted update asks for. Only `DocumentsAddition` comes with a
/// payload of bytes.
#[derive(Debug, PartialEq, Eq)]
pub enum UpdateMeta {
    DocumentsAddition {
        method: IndexDocumentsMethod,
        format: UpdateFormat,
        primary_key: Option<String>,
    },
    ClearDocuments,
    DeleteDocuments,
    Settings(Settings),
    Facets(Facets),
}

/// What the index engine reports of an update that it applied.
#[derive(Clone, Copy, Debug, PartialEq, Eq, Structural, Hash)]
pub enum UpdateResult {
    DocumentsAddition { nb_documents: u64 },
    DocumentDeletion { deleted: u64 },
    Other,
}

/// The status of an update of this control plane: its metadata is an
/// `UpdateMeta`, its success an `UpdateResult`, its error a message.
pub type UpdateStatus = updates::UpdateStatus<UpdateMeta, UpdateResult, String>;

impl Clone for Settings {
    fn clone(&self) -> (copy: Self)
        ensures
            copy == *self,
    {
        Settings { document: self.document.clone() }
    }
}

impl Clone for Facets {
    fn clone(&self) -> (copy: Self)
        ensures
            copy == *self,
    {
        Facets { document: self.document.clone() }
    }
}

impl Clone for UpdateMeta {
    fn clone(&self) -> (copy: Self)
        ensures
            copy == *self,
    {
        match self {
            UpdateMeta::DocumentsAddition { method, format, primary_key } => {
                UpdateMeta::DocumentsAddition {
                    method: *method,
                    format: *format,
                    primary_key: clone_optional_string(primary_key),
                }
            },
            UpdateMeta::ClearDocuments => UpdateMeta::ClearDocuments,
            UpdateMeta::DeleteDocuments => UpdateMeta::DeleteDocuments,
            UpdateMeta::Settings(settings) => UpdateMeta::Settings(settings.clone()),
            UpdateMeta::Facets(facets) => UpdateMeta::Facets(facets.clone()),
        }
    }
}

/// A copy of a status, equal to the status that it was made from.
pub fn clone_status(status: &UpdateStatus) -> (copy: UpdateStatus)
    ensures
        copy == *status,
{
    status.clone()
}

} // verus!
