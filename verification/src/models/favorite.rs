//! Favorites: named collections of files.

use crate::models::files::FileType;
use vstd::prelude::*;

verus! {

/// A favorite as the user interface sees it.
#[derive(Debug)]
pub struct FavoriteDto {
    pub id: i64,
    pub name: String,
    /// In milliseconds since the epoch.
    pub created_at: i64,
    /// In milliseconds since the epoch.
    pub updated_at: i64,
    pub sort_order: i32,
    pub files: Vec<FavoriteFileDto>,
}

/// A file of a favorite as the user interface sees it.
#[derive(Debug)]
pub struct FavoriteFileDto {
    pub id: i64,
    pub favorite_id: i64,
    pub filename: String,
    pub file_size: u64,
    pub file_type: FileType,
    pub file_path: String,
    pub last_modified: i64,
    pub is_directory: bool,
    /// In milliseconds since the epoch.
    pub created_at: i64,
}

/// The request to add a file to a favorite.
#[derive(Debug)]
pub struct AddFileToFavoriteRequest {
    pub filename: String,
    pub file_path: String,
    pub is_directory: bool,
    pub file_type: FileType,
    pub last_modified: u64,
    pub file_size: u64,
}

/// The request to create a favorite.
#[derive(Debug)]
pub struct CreateFavoriteRequest {
    pub name: String,
    pub sort_order: i32,
}

/// A favorite as the database holds it, its times in milliseconds since the
/// epoch.
#[derive(Debug)]
pub struct Favorite {
    pub id: i64,
    pub name: String,
    pub created_at: i64,
    pub updated_at: i64,
    pub sort_order: i32,
}

/// A file of a favorite as the database holds it: its type by name, its time
/// in milliseconds since the epoch.
#[derive(Debug)]
pub struct FavoriteFile {
    pub id: i64,
    pub favorite_id: i64,
    pub filename: String,
    pub file_size: u64,
    pub file_type: String,
    pub file_path: String,
    pub last_modified: i64,
    pub is_directory: bool,
    pub created_at: i64,
}

impl FavoriteDto {
    /// What the user interface sees of a stored favorite. The files are
    /// looked up apart: the list starts empty.
    pub fn from_favorite(favorite: Favorite) -> (dto: Self)
        ensures
            dto.id == favorite.id,
            dto.name == favorite.name,
            dto.created_at == favorite.created_at,
            dto.updated_at == favorite.updated_at,
            dto.sort_order == favorite.sort_order,
            dto.files@.len() == 0,
    {
        FavoriteDto {
            id: favorite.id,
            name: favorite.name,
            created_at: favorite.created_at,
            updated_at: favorite.updated_at,
            sort_order: favorite.sort_order,
            files: Vec::new(),
        }
    }
}

impl FavoriteFileDto {
    /// What the user interface sees of a stored file. The type is read from
    /// its name; an unknown name stands for `Other`.
    pub fn from_file(file: FavoriteFile) -> (dto: Self)
        ensures
            dto.id == file.id,
            dto.favorite_id == file.favorite_id,
            dto.filename == file.filename,
            dto.file_size == file.file_size,
            dto.file_type == FileType::of_label(file.file_type@),
            dto.file_path == file.file_path,
            dto.last_modified == file.last_modified,
            dto.is_directory == file.is_directory,
            dto.created_at == file.created_at,
    {
        let file_type = FileType::from_label(file.file_type.as_str());
        FavoriteFileDto {
            id: file.id,
            favorite_id: file.favorite_id,
            filename: file.filename,
            file_size: file.file_size,
            file_type,
            file_path: file.file_path,
            last_modified: file.last_modified,
            is_directory: file.is_directory,
            created_at: file.created_at,
        }
    }
}

} // verus!
