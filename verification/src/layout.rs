//! Where the files of a case lie.
//!
//! The working directory holds, for the case `name`, the fetched document
//! `name.pdf`, the text `name.txt` that the text-layer tool leaves beside it,
//! one image `name-N.jpg` and one recognized text `name-N.txt` for page `N`,
//! and the diagnostics `name_err.txt`. The output directory holds the final
//! text `name.txt`.

use vstd::prelude::*;
use crate::decimal::{decimal_digits, push_decimal};

verus! {

/// What all working files of the case begin with.
pub open spec fn working_base_of(tmp_dir: Seq<char>, name: Seq<char>) -> Seq<char> {
    tmp_dir + "/"@ + name
}

/// The fetched document.
pub open spec fn document_path_of(tmp_dir: Seq<char>, name: Seq<char>) -> Seq<char> {
    working_base_of(tmp_dir, name) + ".pdf"@
}

/// The text that the text-layer tool leaves beside the document.
pub open spec fn text_layer_path_of(tmp_dir: Seq<char>, name: Seq<char>) -> Seq<char> {
    working_base_of(tmp_dir, name) + ".txt"@
}

/// The diagnostics of the case.
pub open spec fn diagnostics_path_of(tmp_dir: Seq<char>, name: Seq<char>) -> Seq<char> {
    working_base_of(tmp_dir, name) + "_err.txt"@
}

/// The final text of the case.
pub open spec fn output_path_of(out_dir: Seq<char>, name: Seq<char>) -> Seq<char> {
    out_dir + "/"@ + name + ".txt"@
}

/// What the files of page `page` begin with.
pub open spec fn page_base_of(tmp_dir: Seq<char>, name: Seq<char>, page: nat) -> Seq<char> {
    working_base_of(tmp_dir, name) + "-"@ + decimal_digits(page)
}

/// The image of page `page`.
pub open spec fn page_image_path_of(tmp_dir: Seq<char>, name: Seq<char>, page: nat) -> Seq<char> {
    page_base_of(tmp_dir, name, page) + ".jpg"@
}

/// The recognized text of page `page`.
pub open spec fn page_text_path_of(tmp_dir: Seq<char>, name: Seq<char>, page: nat) -> Seq<char> {
    page_base_of(tmp_dir, name, page) + ".txt"@
}

/// What all working files of the case begin with.
pub fn working_base(tmp_dir: &str, name: &str) -> (path: String)
    ensures
        path@ == working_base_of(tmp_dir@, name@),
{
    String::from_str(tmp_dir).concat("/").concat(name)
}

/// The path of the fetched document.
pub fn document_path(tmp_dir: &str, name: &str) -> (path: String)
    ensures
        path@ == document_path_of(tmp_dir@, name@),
{
    working_base(tmp_dir, name).concat(".pdf")
}

/// The path of the text that the text-layer tool leaves beside the document.
pub fn text_layer_path(tmp_dir: &str, name: &str) -> (path: String)
    ensures
        path@ == text_layer_path_of(tmp_dir@, name@),
{
    working_base(tmp_dir, name).concat(".txt")
}

/// The path of the diagnostics of the case.
pub fn diagnostics_path(tmp_dir: &str, name: &str) -> (path: String)
    ensures
        path@ == diagnostics_path_of(tmp_dir@, name@),
{
    working_base(tmp_dir, name).concat("_err.txt")
}

/// The path of the final text of the case.
pub fn output_path(out_dir: &str, name: &str) -> (path: String)
    ensures
        path@ == output_path_of(out_dir@, name@),
{
    String::from_str(out_dir).concat("/").concat(name).concat(".txt")
}

/// What the paths of the files of page `page` begin with.
pub fn page_base(tmp_dir: &str, name: &str, page: usize) -> (path: String)
    ensures
        path@ == page_base_of(tmp_dir@, name@, page as nat),
{
    let mut path = working_base(tmp_dir, name).concat("-");
    push_decimal(&mut path, page as u64);
    path
}

/// The path of the image of page `page`.
pub fn page_image_path(tmp_dir: &str, name: &str, page: usize) -> (path: String)
    ensures
        path@ == page_image_path_of(tmp_dir@, name@, page as nat),
{
    page_base(tmp_dir, name, page).concat(".jpg")
}

/// The path of the recognized text of page `page`.
pub fn page_text_path(tmp_dir: &str, name: &str, page: usize) -> (path: String)
    ensures
        path@ == page_text_path_of(tmp_dir@, name@, page as nat),
{
    page_base(tmp_dir, name, page).concat(".txt")
}

/// The files of one page. The image is cropped in place, so the cropped image
/// lies where the raster image lay.
#[derive(Clone, Debug, PartialEq, Eq)]
pub struct PageArtifact {
    /// The number of the page, counted from 1.
    pub page_index: usize,
    /// The image that the rasterizer writes.
    pub raster_path: String,
    /// The image that the cropper leaves.
    pub cropped_path: String,
    /// The text that the recognizer writes.
    pub recognized_text_path: String,
}

impl PageArtifact {
    /// The artifact names the files of its page in the working directory of
    /// the case.
    pub open spec fn belongs_to(&self, tmp_dir: Seq<char>, name: Seq<char>) -> bool {
        &&& self.raster_path@ == page_image_path_of(tmp_dir, name, self.page_index as nat)
        &&& self.cropped_path@ == page_image_path_of(tmp_dir, name, self.page_index as nat)
        &&& self.recognized_text_path@ == page_text_path_of(tmp_dir, name, self.page_index as nat)
    }
}

/// The files of page `page`.
pub fn page_artifact(tmp_dir: &str, name: &str, page: usize) -> (artifact: PageArtifact)
    ensures
        artifact.page_index == page,
        artifact.belongs_to(tmp_dir@, name@),
{
    PageArtifact {
        page_index: page,
        raster_path: page_image_path(tmp_dir, name, page),
        cropped_path: page_image_path(tmp_dir, name, page),
        recognized_text_path: page_text_path(tmp_dir, name, page),
    }
}

/// The files of the pages `1..=page_count`, in order and without a gap.
pub fn page_artifacts(tmp_dir: &str, name: &str, page_count: usize) -> (artifacts: Vec<
    PageArtifact,
>)
    ensures
        artifacts.len() == page_count,
        forall|i: int|
            0 <= i < page_count ==> (#[trigger] artifacts[i]).page_index == i + 1
                && artifacts[i].belongs_to(tmp_dir@, name@),
{
    let mut artifacts: Vec<PageArtifact> = Vec::new();
    let mut done: usize = 0;
    while done < page_count
        invariant
            done <= page_count,
            artifacts.len() == done,
            forall|i: int|
                0 <= i < done ==> (#[trigger] artifacts[i]).page_index == i + 1
                    && artifacts[i].belongs_to(tmp_dir@, name@),
        decreases page_count - done,
    {
        artifacts.push(page_artifact(tmp_dir, name, done + 1));
        done += 1;
    }
    artifacts
}

} // verus!
