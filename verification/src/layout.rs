//! The on-disk layout of a recipe library: one directory per recipe, named by
//! the recipe's identifier, holding the record and, where there is one, its
//! image.

use crate::id::{hyphenated, RecipeId};
use crate::image::Image;
use crate::recipe::Recipe;
use std::sync::Arc;
use vstd::prelude::*;

verus! {

/// The name of the file that holds a recipe's record.
pub const SAVE_FILE: &'static str = "save.json";

/// The name of the file that holds a recipe's image.
pub const IMG_FILE: &'static str = "img.png";

/// The name of the record file, as a sequence of characters.
pub open spec fn save_file_name() -> Seq<char> {
    "save.json"@
}

/// The name of the image file, as a sequence of characters.
pub open spec fn image_file_name() -> Seq<char> {
    "img.png"@
}

/// A file of one recipe, relative to the library's base directory: the name
/// of the recipe's directory and the name of the file in it.
#[derive(Clone, Debug)]
pub struct RecordFile {
    pub dir_name: String,
    pub file_name: String,
}

impl RecordFile {
    /// Whether this is the file called `file_name` in the directory of `id`.
    /// The directory's name is the identifier's text.
    pub open spec fn is_file_of(&self, id: RecipeId, file_name: Seq<char>) -> bool {
        &&& self.dir_name@ == hyphenated(id.0)
        &&& self.file_name@ == file_name
    }

    /// The record file of the recipe `id`.
    pub fn record_of(id: RecipeId) -> (file: RecordFile)
        ensures
            file.is_file_of(id, save_file_name()),
    {
        RecordFile { dir_name: id.to_string(), file_name: SAVE_FILE.to_owned() }
    }

    /// The image file of the recipe `id`.
    pub fn image_of(id: RecipeId) -> (file: RecordFile)
        ensures
            file.is_file_of(id, image_file_name()),
    {
        RecordFile { dir_name: id.to_string(), file_name: IMG_FILE.to_owned() }
    }
}

/// One record to write when the library is saved: the recipe stored under
/// `id`, and the file it goes to.
#[derive(Debug)]
pub struct SaveJob {
    pub id: RecipeId,
    pub file: RecordFile,
    pub recipe: Arc<Recipe>,
}

/// One image to write: the pixels, and the file they go to once encoded.
#[derive(Debug)]
pub struct ImageJob {
    pub file: RecordFile,
    pub image: Image,
}

/// What was found of one entry of the base directory: its name, and the
/// record read from the record file in it. The record is absent where the
/// file could not be opened or did not hold a record.
#[derive(Debug)]
pub struct FoundRecord {
    pub name: String,
    pub recipe: Option<Arc<Recipe>>,
}

} // verus!
