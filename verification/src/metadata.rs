//! The metadata catalog schema: what the dataset's JSON catalog describes.
//!
//! These records only carry identifiers, names and dimensions between the
//! catalog and the pipeline; loading and saving them is the caller's
//! business.

use vstd::prelude::*;

verus! {

/// One labelled occurrence: which image shows which category in which
/// region.
#[derive(Clone, Debug, PartialEq)]
pub struct Annotation {
    pub id: i32,
    pub image_id: i32,
    pub category_id: i32,
    pub region_id: i32,
}

/// One plant category: the numeric label the classifiers learn.
#[derive(Clone, Debug, PartialEq)]
pub struct Category {
    pub id: i32,
    pub family: String,
    pub genus: String,
}

/// One source image of the catalog.
#[derive(Clone, Debug, PartialEq)]
pub struct Image {
    pub id: i32,
    pub width: i32,
    pub height: i32,
    pub file_name: String,
    pub license: i32,
}

/// The catalog's own description.
#[derive(Clone, Debug, PartialEq)]
pub struct Info {
    pub year: i32,
    pub version: String,
    pub url: String,
    pub description: String,
    pub contributor: String,
    pub date_created: String,
}

/// One license images may be published under.
#[derive(Clone, Debug, PartialEq)]
pub struct License {
    pub id: i32,
    pub name: String,
    pub url: String,
}

/// One geographic region of the collection.
#[derive(Clone, Debug, PartialEq)]
pub struct Region {
    pub id: i32,
    pub name: String,
}

/// The training catalog: annotations, categories, images and their
/// surroundings.
#[derive(Clone, Debug, PartialEq)]
pub struct TrainMetadata {
    pub annotations: Vec<Annotation>,
    pub categories: Vec<Category>,
    pub images: Vec<Image>,
    pub info: Info,
    pub licenses: Vec<License>,
    pub regions: Vec<Region>,
}

/// The test catalog: images without labels.
#[derive(Clone, Debug, PartialEq)]
pub struct TestMetadata {
    pub images: Vec<Image>,
    pub info: Info,
    pub licenses: Vec<License>,
}

} // verus!
