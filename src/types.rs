//! Records exchanged with the drive service.
use vstd::prelude::*;
use crate::versions::opt_view;

verus! {

/// The mime type that marks a folder.
pub const FOLDER_MIME_TYPE: &'static str = "application/vnd.google-apps.folder";

/// Metadata of one remote file or folder, as the service reports it; a field
/// the service left out is none.
#[derive(Clone, Debug)]
pub struct File {
    pub id: Option<String>,
    pub name: Option<String>,
    pub trashed: Option<bool>,
    pub mime_type: Option<String>,
    pub md5: Option<String>,
    pub version: Option<String>,
    pub parents: Option<Vec<String>>,
}

/// What the engine reads of a remote record.
pub struct FileView {
    pub id: Option<Seq<char>>,
    pub name: Option<Seq<char>>,
    pub trashed: Option<bool>,
    pub mime_type: Option<Seq<char>>,
    pub md5: Option<Seq<char>>,
    pub version: Option<Seq<char>>,
}

impl View for File {
    type V = FileView;

    open spec fn view(&self) -> FileView {
        FileView {
            id: opt_view(self.id),
            name: opt_view(self.name),
            trashed: self.trashed,
            mime_type: opt_view(self.mime_type),
            md5: opt_view(self.md5),
            version: opt_view(self.version),
        }
    }
}

/// A record is a folder exactly when its mime type is the folder type.
pub open spec fn is_folder_view(f: FileView) -> bool {
    f.mime_type == Some(FOLDER_MIME_TYPE@)
}

/// A record counts as trashed only where the service says so.
pub open spec fn is_trashed_view(f: FileView) -> bool {
    f.trashed == Some(true)
}

impl File {
    /// Whether this record is a folder.
    pub fn is_folder(&self) -> (r: bool)
        ensures
            r == is_folder_view(self@),
    {
        match &self.mime_type {
            Some(m) => crate::text::same_text(m.as_str(), FOLDER_MIME_TYPE),
            None => false,
        }
    }

    /// Whether the service reported this record as trashed.
    pub fn is_trashed(&self) -> (r: bool)
        ensures
            r == is_trashed_view(self@),
    {
        match self.trashed {
            Some(t) => t,
            None => false,
        }
    }
}

/// The answer to a listing request.
#[derive(Clone, Debug)]
pub struct FileList {
    pub files: Vec<File>,
}

/// The metadata sent when a file or folder is created remotely.
#[derive(Clone, Debug)]
pub struct FileUploadBody {
    pub name: String,
    pub parents: Vec<String>,
    pub mime_type: Option<String>,
}

} // verus!
