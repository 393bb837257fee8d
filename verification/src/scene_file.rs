//! The scene file: its header and what makes it acceptable.

use vstd::prelude::*;
use crate::element::Element;
use crate::scene::{copy_elements, views, Scene};
use crate::text::{decimal_text, joined, same_text};

verus! {

/// The type name in the header of a scene file.
pub const SCENE_TYPE: &'static str = "boundless-scene";

/// The newest version of the format.
pub const SCENE_VERSION: u32 = 1;

/// The view of a board: the world point at its top-left corner and the scale.
#[derive(Clone, Copy, Debug, PartialEq)]
pub struct Camera<F> {
    pub x: F,
    pub y: F,
    pub zoom: F,
}

/// What a scene file holds.
#[derive(Debug)]
pub struct SceneFile<F> {
    pub format: String,
    pub version: u32,
    pub camera: Camera<F>,
    pub elements: Vec<Element<F>>,
    pub show_grid: bool,
    pub background: Option<u32>,
}

impl<F: Copy> Clone for SceneFile<F> {
    fn clone(&self) -> (r: Self)
        ensures
            r.format@ == self.format@,
            r.version == self.version,
            r.camera == self.camera,
            views(r.elements@) == views(self.elements@),
            r.show_grid == self.show_grid,
            r.background == self.background,
    {
        SceneFile {
            format: self.format.clone(),
            version: self.version,
            camera: self.camera,
            elements: copy_elements(&self.elements),
            show_grid: self.show_grid,
            background: self.background,
        }
    }
}

/// A string in quotes with its special characters escaped, as the standard
/// library's `Debug` form of a string has it.
pub uninterp spec fn quoted(s: Seq<char>) -> Seq<char>;

/// `Debug` of `str`: the form depends on the characters alone.
#[verifier::external_body]
fn debug_text(s: &str) -> (r: String)
    ensures
        r@ == quoted(s@),
{
    format!("{:?}", s)
}

/// Whether a header names this format in a known version.
pub open spec fn header_ok(format: Seq<char>, version: u32) -> bool {
    format == SCENE_TYPE@ && version <= SCENE_VERSION
}

/// Why a scene file is refused.
#[derive(Debug, PartialEq)]
pub enum SceneFileError {
    /// The type name is another one.
    WrongType(String),
    /// The version is newer than [`SCENE_VERSION`].
    TooNew(u32),
}

impl SceneFileError {
    /// The message shown to the user.
    pub fn message(&self) -> (r: String)
        ensures
            r@ == (match *self {
                SceneFileError::WrongType(t) => "不是 boundless 场景文件 (type = "@ + quoted(t@) + ")"@,
                SceneFileError::TooNew(v) => "场景文件版本 "@ + crate::text::decimal(v as nat)
                    + " 高于当前支持的 "@ + crate::text::decimal(1),
            }),
    {
        match self {
            SceneFileError::WrongType(t) => {
                let q: String = debug_text(t.as_str());
                let a: String = joined("不是 boundless 场景文件 (type = ", q.as_str());
                joined(a.as_str(), ")")
            },
            SceneFileError::TooNew(v) => {
                let n: String = decimal_text(*v as u64);
                let a: String = joined("场景文件版本 ", n.as_str());
                let b: String = joined(a.as_str(), " 高于当前支持的 ");
                let m: String = decimal_text(SCENE_VERSION as u64);
                joined(b.as_str(), m.as_str())
            },
        }
    }
}

impl<F: Copy> SceneFile<F> {
    /// The file of a scene, without grid and with the default background.
    pub fn new(scene: &Scene<F>, camera: Camera<F>) -> (r: Self)
        ensures
            r.format@ == SCENE_TYPE@,
            r.version == SCENE_VERSION,
            r.camera == camera,
            views(r.elements@) == scene@,
            !r.show_grid,
            r.background.is_none(),
    {
        SceneFile {
            format: SCENE_TYPE.to_owned(),
            version: SCENE_VERSION,
            camera,
            elements: copy_elements(&scene.elements),
            show_grid: false,
            background: None,
        }
    }

    /// Accepts a file whose header names this format in a known version.
    pub fn accept(self) -> (r: Result<SceneFile<F>, SceneFileError>)
        ensures
            match r {
                Ok(f) => header_ok(self.format@, self.version) && f == self,
                Err(SceneFileError::WrongType(t)) => self.format@ != SCENE_TYPE@ && t@
                    == self.format@,
                Err(SceneFileError::TooNew(v)) => self.format@ == SCENE_TYPE@ && self.version
                    > SCENE_VERSION && v == self.version,
            },
    {
        if !same_text(self.format.as_str(), SCENE_TYPE) {
            return Err(SceneFileError::WrongType(self.format));
        }
        if self.version > SCENE_VERSION {
            return Err(SceneFileError::TooNew(self.version));
        }
        Ok(self)
    }
}

/// The header that [`SceneFile::new`] writes is accepted; a header of another
/// format or a newer version is not.
pub proof fn law_written_headers_are_accepted(format: Seq<char>, version: u32)
    ensures
        header_ok(SCENE_TYPE@, SCENE_VERSION),
        format != SCENE_TYPE@ ==> !header_ok(format, version),
        version > SCENE_VERSION ==> !header_ok(format, version),
{
}

} // verus!
