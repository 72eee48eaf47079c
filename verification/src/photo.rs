//! One candidate wallpaper and the pool that holds them.

use vstd::prelude::*;

verus! {

/// A candidate wallpaper: the camera that took it, where its image lies and
/// the name it is shown under.
#[derive(Debug, Clone, PartialEq)]
pub struct Photo {
    camera: String,
    src: String,
    pub name: String,
}

/// A photo as three sequences of characters.
pub struct PhotoView {
    pub camera: Seq<char>,
    pub src: Seq<char>,
    pub name: Seq<char>,
}

impl View for Photo {
    type V = PhotoView;

    closed spec fn view(&self) -> PhotoView {
        PhotoView { camera: self.camera@, src: self.src@, name: self.name@ }
    }
}

/// The photos of a pool, each by its view.
pub open spec fn gallery(photos: Seq<Photo>) -> Seq<PhotoView> {
    photos.map_values(|photo: Photo| photo@)
}

impl Photo {
    /// A photo with these three fields.
    pub fn new(camera: String, src: String, name: String) -> (photo: Photo)
        ensures
            photo@ == (PhotoView { camera: camera@, src: src@, name: name@ }),
    {
        Photo { camera, src, name }
    }

    /// The camera that took the photo.
    pub fn camera(&self) -> (camera: &str)
        ensures
            camera@ == self@.camera,
    {
        self.camera.as_str()
    }

    /// The address of the image.
    pub fn src(&self) -> (src: &str)
        ensures
            src@ == self@.src,
    {
        self.src.as_str()
    }

    /// The name the photo is shown under.
    pub fn name(&self) -> (name: &str)
        ensures
            name@ == self@.name,
    {
        self.name.as_str()
    }
}

/// Adding a photo to a pool adds its view to the pool's gallery.
pub proof fn lemma_gallery_push(photos: Seq<Photo>, photo: Photo)
    ensures
        gallery(photos.push(photo)) == gallery(photos).push(photo@),
{
    assert(gallery(photos.push(photo)) =~= gallery(photos).push(photo@));
}

/// The gallery of two pools joined is the two galleries joined.
pub proof fn lemma_gallery_add(first: Seq<Photo>, second: Seq<Photo>)
    ensures
        gallery(first + second) == gallery(first) + gallery(second),
{
    assert(gallery(first + second) =~= gallery(first) + gallery(second));
}

} // verus!
