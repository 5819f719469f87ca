//! Images that senders have uploaded, and which of them are wallpapers.
//!
//! The files lie in one directory. A list of them, the manifest, is remembered
//! beside it, and a manifest that is missing or damaged costs no more than
//! what it remembered.

use vstd::prelude::*;
use vstd::string::*;

use crate::fcast;
use crate::paths;
use crate::text;

verus! {

/// One uploaded image.
#[derive(Debug)]
pub struct StoredImage {
    pub id: String,
    /// The name of its file in the store's directory.
    pub file_name: String,
    /// Its MIME type, in lower case and without parameters.
    pub content_type: String,
    /// Whether it is shown as a wallpaper.
    pub wallpaper: bool,
}

/// An image, with its strings as texts.
#[verifier::ext_equal]
pub struct ImageView {
    pub id: Seq<char>,
    pub file_name: Seq<char>,
    pub content_type: Seq<char>,
    pub wallpaper: bool,
}

impl View for StoredImage {
    type V = ImageView;

    open spec fn view(&self) -> ImageView {
        ImageView {
            id: self.id@,
            file_name: self.file_name@,
            content_type: self.content_type@,
            wallpaper: self.wallpaper,
        }
    }
}

impl Clone for StoredImage {
    fn clone(&self) -> (r: StoredImage)
        ensures
            r@ == self@,
    {
        StoredImage {
            id: self.id.clone(),
            file_name: self.file_name.clone(),
            content_type: self.content_type.clone(),
            wallpaper: self.wallpaper,
        }
    }
}

/// The texts of a list of images.
pub open spec fn image_views(images: Seq<StoredImage>) -> Seq<ImageView> {
    Seq::new(images.len(), |i: int| images[i]@)
}

/// Every image that is stored.
#[derive(Debug)]
pub struct Manifest {
    pub images: Vec<StoredImage>,
}

impl View for Manifest {
    type V = Seq<ImageView>;

    open spec fn view(&self) -> Seq<ImageView> {
        image_views(self.images@)
    }
}

impl Default for Manifest {
    fn default() -> (r: Manifest)
        ensures
            r@ == Seq::<ImageView>::empty(),
    {
        let r: Manifest = Manifest { images: Vec::new() };
        assert(r@ =~= Seq::<ImageView>::empty());
        r
    }
}

/// What came of reading the remembered manifest.
#[derive(Debug)]
pub enum Remembered {
    /// There is no place to remember it in.
    NoPlace,
    /// Nothing was remembered yet.
    Missing,
    /// The file could not be read.
    Unreadable,
    /// The file does not hold a manifest.
    Unparsable,
    /// The manifest that the file holds.
    Found(Manifest),
}

impl Remembered {
    /// Whether something was remembered that is lost, which is worth a
    /// warning.
    pub fn is_lost(&self) -> (r: bool)
        ensures
            r == (self is Unreadable || self is Unparsable),
    {
        match self {
            Remembered::Unreadable => true,
            Remembered::Unparsable => true,
            _ => false,
        }
    }
}

impl Manifest {
    /// The manifest to start with: the one remembered, or an empty one.
    pub fn load(remembered: Remembered) -> (r: Manifest)
        ensures
            r@ == (match remembered {
                Remembered::Found(manifest) => manifest@,
                _ => Seq::<ImageView>::empty(),
            }),
    {
        match remembered {
            Remembered::Found(manifest) => manifest,
            _ => Manifest::default(),
        }
    }
}

// ---------------------------------------------------------------------------
// Naming an upload
// ---------------------------------------------------------------------------

/// Why an upload is refused.
#[derive(Debug)]
pub enum ImageError {
    /// Its content type, given here, is not that of an image.
    NotAnImage(String),
}

impl ImageError {
    /// The text of the error.
    pub open spec fn text(self) -> Seq<char> {
        match self {
            ImageError::NotAnImage(content_type) => "upload content type "@ + text::debug_quoted(
                content_type@,
            ) + " is not an image/* MIME type"@,
        }
    }

    /// Why the upload is refused, in words.
    pub fn message(&self) -> (r: String)
        ensures
            r@ == self.text(),
    {
        match self {
            ImageError::NotAnImage(content_type) => {
                let mut r: String = "upload content type ".to_string();
                r.append(text::quoted(content_type.as_str()).as_str());
                r.append(" is not an image/* MIME type");
                r
            },
        }
    }
}

/// Whether a media type, without parameters and in small letters, is that of an
/// image.
pub open spec fn is_image_type(media: Seq<char>) -> bool {
    text::begins(media, "image/"@)
}

/// Whether a MIME type is that of an image.
pub open spec fn is_image(content_type: Seq<char>) -> bool {
    is_image_type(fcast::media_type(content_type))
}

/// The file extension for a media type, by which the media player knows the
/// file for an image.
pub open spec fn extension(media: Seq<char>) -> Seq<char> {
    if media == "image/jpeg"@ || media == "image/jpg"@ {
        "jpg"@
    } else if media == "image/png"@ {
        "png"@
    } else if media == "image/gif"@ {
        "gif"@
    } else if media == "image/webp"@ {
        "webp"@
    } else if media == "image/bmp"@ {
        "bmp"@
    } else if media == "image/heic"@ {
        "heic"@
    } else if media == "image/heif"@ {
        "heif"@
    } else if media == "image/tiff"@ {
        "tiff"@
    } else if media == "image/svg+xml"@ {
        "svg"@
    } else {
        "img"@
    }
}

/// The file extension for a media type in lower case.
pub fn extension_for_content_type(media: &str) -> (r: String)
    ensures
        r@ == extension(media@),
{
    if text::same_text(media, "image/jpeg") || text::same_text(media, "image/jpg") {
        "jpg".to_string()
    } else if text::same_text(media, "image/png") {
        "png".to_string()
    } else if text::same_text(media, "image/gif") {
        "gif".to_string()
    } else if text::same_text(media, "image/webp") {
        "webp".to_string()
    } else if text::same_text(media, "image/bmp") {
        "bmp".to_string()
    } else if text::same_text(media, "image/heic") {
        "heic".to_string()
    } else if text::same_text(media, "image/heif") {
        "heif".to_string()
    } else if text::same_text(media, "image/tiff") {
        "tiff".to_string()
    } else if text::same_text(media, "image/svg+xml") {
        "svg".to_string()
    } else {
        "img".to_string()
    }
}

/// The id of the `seq`th upload of a process, made at `nanos`.
pub open spec fn id_text(nanos: nat, seq: nat) -> Seq<char> {
    text::hexadecimal(nanos) + "-"@ + text::hexadecimal(seq)
}

/// An id for an upload, made of the time in nanoseconds and of a count of the
/// uploads so far.
pub fn generate_id(nanos: u128, seq: u64) -> (r: String)
    ensures
        r@ == id_text(nanos as nat, seq as nat),
{
    let mut r: String = text::hex_text(nanos);
    r.append("-");
    r.append(text::hex_text(seq as u128).as_str());
    r
}

/// The image that an upload becomes.
pub open spec fn new_image(content_type: Seq<char>, nanos: nat, seq: nat) -> ImageView {
    let media = fcast::media_type(content_type);
    ImageView {
        id: id_text(nanos, seq),
        file_name: id_text(nanos, seq) + "."@ + extension(media),
        content_type: media,
        wallpaper: false,
    }
}

/// Name an upload of this content type, made at `nanos` as the `seq`th of the
/// process. What is not an image is refused.
pub fn name_upload(content_type: &str, nanos: u128, seq: u64) -> (r: Result<
    StoredImage,
    ImageError,
>)
    ensures
        match r {
            Ok(image) => is_image(content_type@) && image@ == new_image(
                content_type@,
                nanos as nat,
                seq as nat,
            ),
            Err(ImageError::NotAnImage(t)) => !is_image(content_type@) && t@ == content_type@,
        },
{
    let media: String = fcast::media_type_of(content_type);
    let chars: Vec<char> = text::chars_of(media.as_str());
    if !text::begins_with(&chars, "image/") {
        return Err(ImageError::NotAnImage(content_type.to_string()));
    }
    let id: String = generate_id(nanos, seq);
    let mut file_name: String = id.clone();
    file_name.append(".");
    file_name.append(extension_for_content_type(media.as_str()).as_str());
    Ok(StoredImage { id, file_name, content_type: media, wallpaper: false })
}

// ---------------------------------------------------------------------------
// The store
// ---------------------------------------------------------------------------

/// The images that are stored, where they are, and which wallpaper was shown
/// last.
#[derive(Debug)]
pub struct ImageStore {
    /// The directory of the image files.
    pub dir: String,
    /// Where the manifest is remembered, if anywhere.
    pub manifest_path: Option<String>,
    pub manifest: Manifest,
    pub last_wallpaper_id: Option<String>,
}

/// Where a store keeps its files and its manifest.
#[derive(Debug)]
pub struct StorePaths {
    pub dir: String,
    pub manifest_path: Option<String>,
}

/// The places for a store: in the state directory, or where there is none in
/// `temp_dir`, with nothing remembered. A place that is not absolute is taken
/// from `current_dir`, so that an image has one path wherever it is used.
pub fn store_paths(state_dir: Option<String>, temp_dir: &str, current_dir: &str) -> (r: StorePaths)
    ensures
        match state_dir {
            Some(state) => {
                let state = paths::join(current_dir@, state@);
                &&& r.dir@ == paths::join(state, "images"@)
                &&& text::opt_text(r.manifest_path) == Some(paths::join(state, "images.json"@))
            },
            None => {
                &&& r.dir@ == paths::join(paths::join(current_dir@, temp_dir@), "castoff-images"@)
                &&& r.manifest_path is None
            },
        },
        paths::is_absolute(current_dir@) ==> paths::is_absolute(r.dir@),
{
    match state_dir {
        Some(state) => {
            let state: String = paths::join_text(current_dir, state.as_str());
            StorePaths {
                dir: paths::join_text(state.as_str(), "images"),
                manifest_path: Some(paths::join_text(state.as_str(), "images.json")),
            }
        },
        None => {
            let temp: String = paths::join_text(current_dir, temp_dir);
            StorePaths {
                dir: paths::join_text(temp.as_str(), "castoff-images"),
                manifest_path: None,
            }
        },
    }
}

/// The index of the first image with this id; the number of images where there
/// is none.
pub open spec fn index_of(images: Seq<ImageView>, id: Seq<char>) -> int
    decreases images.len(),
{
    if images.len() == 0 || images[0].id == id {
        0
    } else {
        1 + index_of(images.drop_first(), id)
    }
}

/// Whether there is an image with this id.
pub open spec fn knows(images: Seq<ImageView>, id: Seq<char>) -> bool {
    index_of(images, id) < images.len()
}

/// The images with the first one of this id tagged or untagged.
pub open spec fn tagging(images: Seq<ImageView>, id: Seq<char>, wallpaper: bool) -> Seq<ImageView> {
    if knows(images, id) {
        let i = index_of(images, id);
        images.update(i, ImageView { wallpaper, ..images[i] })
    } else {
        images
    }
}

/// The images that are wallpapers.
pub open spec fn wallpapers(images: Seq<ImageView>) -> Seq<ImageView> {
    images.filter(|image: ImageView| image.wallpaper)
}

/// What the next pick is made from: the candidates but for the one picked last
/// or, where nothing else is left, all of them.
pub open spec fn pool(candidates: Seq<ImageView>, previous: Option<Seq<char>>) -> Seq<ImageView> {
    match previous {
        Some(id) => {
            let others = candidates.filter(|image: ImageView| image.id != id);
            if candidates.len() <= 1 || others.len() == 0 {
                candidates
            } else {
                others
            }
        },
        None => candidates,
    }
}

/// A number that varies with the time and with each call: the finisher of
/// splitmix64.
pub open spec fn mixed(nanos: u64, counter: u64) -> u64 {
    let a = nanos ^ counter.wrapping_mul(0x9E37_79B9_7F4A_7C15);
    let b = (a ^ (a >> 30)).wrapping_mul(0xBF58_476D_1CE4_E5B9);
    let c = (b ^ (b >> 27)).wrapping_mul(0x94D0_49BB_1331_11EB);
    c ^ (c >> 31)
}

/// The candidate that is picked, if there is any.
pub open spec fn picked(
    candidates: Seq<ImageView>,
    previous: Option<Seq<char>>,
    nanos: u64,
    counter: u64,
) -> Option<ImageView> {
    let from = pool(candidates, previous);
    if from.len() == 0 {
        None
    } else {
        Some(from[mixed(nanos, counter) as int % from.len() as int])
    }
}

/// An index below `len`, from the time and a counter.
pub fn random_index(len: usize, nanos: u64, counter: u64) -> (r: usize)
    requires
        len > 0,
    ensures
        r < len,
        r == mixed(nanos, counter) as int % len as int,
{
    let a: u64 = nanos ^ counter.wrapping_mul(0x9E37_79B9_7F4A_7C15);
    let b: u64 = (a ^ (a >> 30)).wrapping_mul(0xBF58_476D_1CE4_E5B9);
    let c: u64 = (b ^ (b >> 27)).wrapping_mul(0x94D0_49BB_1331_11EB);
    let d: u64 = c ^ (c >> 31);
    (d % (len as u64)) as usize
}

proof fn lemma_filter_keeps_only_what_was_there(
    images: Seq<ImageView>,
    pred: spec_fn(ImageView) -> bool,
    i: int,
)
    requires
        0 <= i < images.filter(pred).len(),
    ensures
        images.contains(images.filter(pred)[i]),
    decreases images.len(),
{
    reveal(Seq::filter);
    let fewer = images.drop_last();
    if i < fewer.filter(pred).len() {
        lemma_filter_keeps_only_what_was_there(fewer, pred, i);
        let j = choose|j: int| 0 <= j < fewer.len() && fewer[j] == fewer.filter(pred)[i];
        assert(images[j] == images.filter(pred)[i]);
    } else {
        assert(images[images.len() - 1] == images.filter(pred)[i]);
    }
}

proof fn lemma_filter_one_more(images: Seq<ImageView>, i: int, pred: spec_fn(ImageView) -> bool)
    requires
        0 <= i < images.len(),
    ensures
        images.take(i + 1).filter(pred) == if pred(images[i]) {
            images.take(i).filter(pred).push(images[i])
        } else {
            images.take(i).filter(pred)
        },
{
    reveal(Seq::filter);
    assert(images.take(i + 1).drop_last() =~= images.take(i));
}

/// The images at these indices.
spec fn at_indices(images: Seq<ImageView>, indices: Seq<usize>) -> Seq<ImageView> {
    Seq::new(indices.len(), |k: int| images[indices[k] as int])
}

/// The indices of the candidates that do not have the id `previous`.
fn others_than(candidates: &Vec<StoredImage>, previous: &str) -> (r: Vec<usize>)
    ensures
        at_indices(image_views(candidates@), r@) == image_views(candidates@).filter(
            |image: ImageView| image.id != previous@,
        ),
        forall|k: int| 0 <= k < r@.len() ==> #[trigger] r@[k] < candidates@.len(),
{
    let ghost pred = |image: ImageView| image.id != previous@;
    let ghost views = image_views(candidates@);
    let mut r: Vec<usize> = Vec::new();
    let mut i: usize = 0;
    proof {
        reveal(Seq::filter);
        assert(at_indices(views, r@) =~= views.take(0).filter(pred));
    }
    while i < candidates.len()
        invariant
            i <= candidates.len(),
            views == image_views(candidates@),
            pred == (|image: ImageView| image.id != previous@),
            at_indices(views, r@) == views.take(i as int).filter(pred),
            forall|k: int| 0 <= k < r@.len() ==> #[trigger] r@[k] < candidates@.len(),
        decreases candidates.len() - i,
    {
        proof {
            lemma_filter_one_more(views, i as int, pred);
        }
        assert(views[i as int] == candidates@[i as int]@);
        let ghost before = r@;
        if !text::same_text(candidates[i].id.as_str(), previous) {
            r.push(i);
            assert(at_indices(views, r@) =~= at_indices(views, before).push(views[i as int]));
        }
        i = i + 1;
    }
    assert(views.take(candidates.len() as int) =~= views);
    r
}

/// Pick a candidate by the time and a counter, and not the one picked last
/// where there is another.
pub fn pick_random_avoiding_repeat<'a>(
    candidates: &'a Vec<StoredImage>,
    previous: Option<&str>,
    nanos: u64,
    counter: u64,
) -> (r: Option<&'a StoredImage>)
    ensures
        match r {
            Some(image) => picked(
                image_views(candidates@),
                text::opt_str(previous),
                nanos,
                counter,
            ) == Some(image@),
            None => picked(
                image_views(candidates@),
                text::opt_str(previous),
                nanos,
                counter,
            ) is None,
        },
{
    let n: usize = candidates.len();
    if n == 0 {
        return None;
    }
    if n > 1 {
        if let Some(id) = previous {
            let others: Vec<usize> = others_than(candidates, id);
            if others.len() > 0 {
                let k: usize = random_index(others.len(), nanos, counter);
                assert(pool(image_views(candidates@), Some(id@)) == at_indices(
                    image_views(candidates@),
                    others@,
                ));
                return Some(&candidates[others[k]]);
            }
        }
    }
    let k: usize = random_index(n, nanos, counter);
    Some(&candidates[k])
}

impl ImageStore {
    /// Whether `other` has the same places and the same images.
    pub open spec fn same_images(self, other: ImageStore) -> bool {
        &&& other.dir == self.dir
        &&& other.manifest_path == self.manifest_path
        &&& other.manifest@ == self.manifest@
    }

    /// The path of an image's file.
    pub open spec fn file(self, image: ImageView) -> Seq<char> {
        paths::join(self.dir@, image.file_name)
    }

    /// The path of the first image with this id.
    pub open spec fn file_of(self, id: Seq<char>) -> Option<Seq<char>> {
        if knows(self.manifest@, id) {
            Some(self.file(self.manifest@[index_of(self.manifest@, id)]))
        } else {
            None
        }
    }

    /// A store in these places that remembers `manifest`.
    pub fn with_paths(paths: StorePaths, manifest: Manifest) -> (r: ImageStore)
        ensures
            r.dir == paths.dir,
            r.manifest_path == paths.manifest_path,
            r.manifest == manifest,
            r.last_wallpaper_id is None,
    {
        ImageStore {
            dir: paths.dir,
            manifest_path: paths.manifest_path,
            manifest,
            last_wallpaper_id: None,
        }
    }

    /// A store under the directory `dir` that remembers `manifest`.
    pub fn with_dir(dir: &str, manifest: Manifest) -> (r: ImageStore)
        requires
            paths::is_absolute(dir@),
        ensures
            paths::is_absolute(r.dir@),
            r.dir@ == paths::join(dir@, "images"@),
            text::opt_text(r.manifest_path) == Some(paths::join(dir@, "images.json"@)),
            r.manifest == manifest,
            r.last_wallpaper_id is None,
    {
        ImageStore {
            dir: paths::join_text(dir, "images"),
            manifest_path: Some(paths::join_text(dir, "images.json")),
            manifest,
            last_wallpaper_id: None,
        }
    }

    /// The path that the file of `image` has in this store.
    pub fn path_of(&self, image: &StoredImage) -> (r: String)
        ensures
            r@ == self.file(image@),
    {
        paths::join_text(self.dir.as_str(), image.file_name.as_str())
    }

    /// The file of `image` has been written: the image is stored. Whoever calls
    /// this, what is not an image is refused, and changes nothing.
    pub fn store(&mut self, image: StoredImage) -> (r: Result<(), ImageError>)
        ensures
            if is_image_type(image@.content_type) {
                &&& r is Ok
                &&& final(self).manifest@ == old(self).manifest@.push(image@)
            } else {
                &&& r matches Err(ImageError::NotAnImage(t)) && t@ == image@.content_type
                &&& final(self).manifest@ == old(self).manifest@
            },
            final(self).dir == old(self).dir,
            final(self).manifest_path == old(self).manifest_path,
            final(self).last_wallpaper_id == old(self).last_wallpaper_id,
    {
        let chars: Vec<char> = text::chars_of(image.content_type.as_str());
        if !text::begins_with(&chars, "image/") {
            return Err(ImageError::NotAnImage(image.content_type));
        }
        let ghost before = self.manifest@;
        self.manifest.images.push(image);
        assert(self.manifest@ =~= before.push(image@));
        Ok(())
    }

    fn find(&self, id: &str) -> (r: usize)
        ensures
            r == index_of(self.manifest@, id@),
            r <= self.manifest.images@.len(),
    {
        let n: usize = self.manifest.images.len();
        let ghost views = self.manifest@;
        let mut i: usize = 0;
        assert(views.skip(0) =~= views);
        while i < n
            invariant
                i <= n,
                n == self.manifest.images@.len(),
                views == self.manifest@,
                index_of(views, id@) == i + index_of(views.skip(i as int), id@),
            decreases n - i,
        {
            assert(views.skip(i as int)[0] == self.manifest.images@[i as int]@);
            if text::same_text(self.manifest.images[i].id.as_str(), id) {
                return i;
            }
            assert(views.skip(i as int).drop_first() =~= views.skip(i + 1));
            i = i + 1;
        }
        i
    }

    /// Tag or untag an image as a wallpaper. Says whether there is one of this
    /// id.
    pub fn set_wallpaper(&mut self, id: &str, wallpaper: bool) -> (r: bool)
        ensures
            r == knows(old(self).manifest@, id@),
            final(self).manifest@ == tagging(old(self).manifest@, id@, wallpaper),
            final(self).dir == old(self).dir,
            final(self).manifest_path == old(self).manifest_path,
            final(self).last_wallpaper_id == old(self).last_wallpaper_id,
    {
        let ghost before = self.manifest@;
        let i: usize = self.find(id);
        if i == self.manifest.images.len() {
            return false;
        }
        self.manifest.images[i].wallpaper = wallpaper;
        assert(self.manifest@ =~= tagging(before, id@, wallpaper));
        true
    }

    /// The path of the image with this id, or `None` if there is none. It is
    /// absolute where the store's directory is.
    pub fn path_for(&self, id: &str) -> (r: Option<String>)
        ensures
            text::opt_text(r) == self.file_of(id@),
            paths::is_absolute(self.dir@) && r is Some ==> paths::is_absolute(r->0@),
    {
        let i: usize = self.find(id);
        if i == self.manifest.images.len() {
            return None;
        }
        assert(self.manifest@[i as int] == self.manifest.images@[i as int]@);
        Some(self.path_of(&self.manifest.images[i]))
    }

    /// The `file://` URL of the image with this id, for a `Play`.
    pub fn file_url_for(&self, id: &str) -> (r: Option<String>)
        ensures
            text::opt_text(r) == (match self.file_of(id@) {
                Some(path) => Some("file://"@ + path),
                None => None,
            }),
    {
        match self.path_for(id) {
            Some(path) => Some(text::joined("file://", path.as_str())),
            None => None,
        }
    }

    /// The path of the next wallpaper, picked by the time and a counter, or
    /// `None` when no image is tagged. Which one it was is remembered.
    pub fn pick_next_wallpaper(&mut self, nanos: u64, counter: u64) -> (r: Option<String>)
        ensures
            old(self).same_images(*final(self)),
            match picked(
                wallpapers(old(self).manifest@),
                text::opt_text(old(self).last_wallpaper_id),
                nanos,
                counter,
            ) {
                Some(image) => {
                    &&& text::opt_text(r) == Some(old(self).file(image))
                    &&& text::opt_text(final(self).last_wallpaper_id) == Some(image.id)
                },
                None => r is None && final(self).last_wallpaper_id == old(self).last_wallpaper_id,
            },
    {
        let ghost pred = |image: ImageView| image.wallpaper;
        let ghost views = self.manifest@;
        let mut tagged: Vec<StoredImage> = Vec::new();
        let mut i: usize = 0;
        proof {
            reveal(Seq::filter);
            assert(image_views(tagged@) =~= views.take(0).filter(pred));
        }
        while i < self.manifest.images.len()
            invariant
                i <= self.manifest.images.len(),
                views == self.manifest@,
                pred == (|image: ImageView| image.wallpaper),
                image_views(tagged@) == views.take(i as int).filter(pred),
            decreases self.manifest.images.len() - i,
        {
            proof {
                lemma_filter_one_more(views, i as int, pred);
            }
            assert(views[i as int] == self.manifest.images@[i as int]@);
            let ghost before = tagged@;
            if self.manifest.images[i].wallpaper {
                tagged.push(self.manifest.images[i].clone());
                assert(image_views(tagged@) =~= image_views(before).push(views[i as int]));
            }
            i = i + 1;
        }
        assert(views.take(views.len() as int) =~= views);
        let previous: Option<&str> = match &self.last_wallpaper_id {
            Some(id) => Some(id.as_str()),
            None => None,
        };
        match pick_random_avoiding_repeat(&tagged, previous, nanos, counter) {
            None => None,
            Some(image) => {
                let path: String = self.path_of(image);
                self.last_wallpaper_id = Some(image.id.clone());
                Some(path)
            },
        }
    }
}

// ---------------------------------------------------------------------------
// Laws
// ---------------------------------------------------------------------------

proof fn lemma_no_dash_in_hexadecimal(n: nat, i: int)
    requires
        0 <= i < text::hexadecimal(n).len(),
    ensures
        text::hexadecimal(n)[i] != '-',
{
    text::lemma_numeral_is_digits(n, 16, i);
}

/// Two uploads have two ids, unless they are made in the same nanosecond with
/// the same count.
pub proof fn lemma_ids_are_unique(nanos: nat, seq: nat, other_nanos: nat, other_seq: nat)
    requires
        id_text(nanos, seq) == id_text(other_nanos, other_seq),
    ensures
        nanos == other_nanos,
        seq == other_seq,
{
    reveal_strlit("-");
    let id = id_text(nanos, seq);
    let a = text::hexadecimal(nanos);
    let b = text::hexadecimal(other_nanos);
    let c = text::hexadecimal(seq);
    let d = text::hexadecimal(other_seq);
    let other = id_text(other_nanos, other_seq);
    assert(id[a.len() as int] == '-');
    assert(other[b.len() as int] == '-');
    if a.len() < b.len() {
        lemma_no_dash_in_hexadecimal(other_nanos, a.len() as int);
        assert(other[a.len() as int] == b[a.len() as int]);
    }
    if b.len() < a.len() {
        lemma_no_dash_in_hexadecimal(nanos, b.len() as int);
        assert(id[b.len() as int] == a[b.len() as int]);
    }
    assert(id.take(a.len() as int) =~= a);
    assert(other.take(b.len() as int) =~= b);
    assert(id.skip(a.len() as int + 1) =~= c);
    assert(other.skip(b.len() as int + 1) =~= d);
    text::lemma_numeral_is_injective(nanos, other_nanos, 16);
    text::lemma_numeral_is_injective(seq, other_seq, 16);
}

proof fn lemma_index_of_is_first(images: Seq<ImageView>, id: Seq<char>)
    ensures
        0 <= index_of(images, id) <= images.len(),
        knows(images, id) ==> images[index_of(images, id)].id == id,
        forall|i: int| 0 <= i < index_of(images, id) ==> (#[trigger] images[i]).id != id,
    decreases images.len(),
{
    if images.len() > 0 && images[0].id != id {
        lemma_index_of_is_first(images.drop_first(), id);
        assert forall|i: int| 0 <= i < index_of(images, id) implies (#[trigger] images[i]).id
            != id by {
            if i > 0 {
                assert(images[i] == images.drop_first()[i - 1]);
            }
        }
    }
}

proof fn lemma_index_of_after_push(images: Seq<ImageView>, image: ImageView, id: Seq<char>)
    ensures
        index_of(images.push(image), id) == if knows(images, id) || image.id == id {
            index_of(images, id)
        } else {
            images.len() as int + 1
        },
    decreases images.len(),
{
    let more = images.push(image);
    lemma_index_of_is_first(images, id);
    if images.len() == 0 {
        assert(more[0] == image);
        assert(more.drop_first() =~= Seq::<ImageView>::empty());
        assert(index_of(more.drop_first(), id) == 0);
    } else {
        assert(more[0] == images[0]);
        if images[0].id != id {
            lemma_index_of_is_first(images.drop_first(), id);
            lemma_index_of_after_push(images.drop_first(), image, id);
            assert(more.drop_first() =~= images.drop_first().push(image));
        }
    }
}

/// An image that was stored under a new id is found by it, at its own file;
/// every other id is found where it was.
pub proof fn lemma_a_stored_image_is_found(
    before: ImageStore,
    after: ImageStore,
    image: ImageView,
    other: Seq<char>,
)
    requires
        !knows(before.manifest@, image.id),
        after.manifest@ == before.manifest@.push(image),
        after.dir == before.dir,
        other != image.id,
    ensures
        after.file_of(image.id) == Some(before.file(image)),
        after.file_of(other) == before.file_of(other),
{
    lemma_index_of_is_first(before.manifest@, image.id);
    lemma_index_of_after_push(before.manifest@, image, image.id);
    lemma_index_of_is_first(before.manifest@, other);
    lemma_index_of_after_push(before.manifest@, image, other);
}

/// A store in an absolute directory gives every image an absolute path.
pub proof fn lemma_paths_are_absolute(store: ImageStore, id: Seq<char>)
    requires
        paths::is_absolute(store.dir@),
    ensures
        store.file_of(id) matches Some(path) ==> paths::is_absolute(path),
{
}

/// An upload that was given a name is an image, so that storing it succeeds.
pub proof fn lemma_a_named_upload_can_be_stored(content_type: Seq<char>, nanos: nat, seq: nat)
    requires
        is_image(content_type),
    ensures
        is_image_type(new_image(content_type, nanos, seq).content_type),
{
}

/// A fresh upload is no wallpaper, and changes no wallpaper.
pub proof fn lemma_uploads_are_no_wallpapers(
    images: Seq<ImageView>,
    content_type: Seq<char>,
    nanos: nat,
    seq: nat,
)
    ensures
        wallpapers(images.push(new_image(content_type, nanos, seq))) == wallpapers(images),
{
    reveal(Seq::filter);
    let image = new_image(content_type, nanos, seq);
    assert(images.push(image).drop_last() =~= images);
}

/// Tagging an image makes it a wallpaper, and untagging it, where no other
/// image has its id, leaves no wallpaper of that id.
pub proof fn lemma_tags_say_what_is_a_wallpaper(images: Seq<ImageView>, id: Seq<char>)
    requires
        knows(images, id),
        forall|i: int|
            0 <= i < images.len() && (#[trigger] images[i]).id == id ==> i == index_of(images, id),
    ensures
        exists|i: int|
            0 <= i < wallpapers(tagging(images, id, true)).len() && (
            #[trigger] wallpapers(tagging(images, id, true))[i]).id == id,
        forall|i: int|
            0 <= i < wallpapers(tagging(images, id, false)).len() ==> (
            #[trigger] wallpapers(tagging(images, id, false))[i]).id != id,
{
    lemma_index_of_is_first(images, id);
    let pred = |image: ImageView| image.wallpaper;
    let k = index_of(images, id);
    let on = tagging(images, id, true);
    let off = tagging(images, id, false);
    broadcast use vstd::seq_lib::group_filter_ensures;

    assert(on[k].wallpaper && on[k].id == id);
    assert(wallpapers(on).contains(on[k]));
    let i = choose|i: int| 0 <= i < wallpapers(on).len() && wallpapers(on)[i] == on[k];
    assert(wallpapers(on)[i].id == id);
    assert forall|i: int| 0 <= i < wallpapers(off).len() implies (#[trigger] wallpapers(off)[i]).id
        != id by {
        let image = wallpapers(off)[i];
        assert(pred(image));
        lemma_filter_keeps_only_what_was_there(off, pred, i);
        let j = choose|j: int| 0 <= j < off.len() && off[j] == image;
        if image.id == id {
            assert(images[j].id == id);
        }
    }
}

/// A tag changes neither which images are stored nor their files.
pub proof fn lemma_a_tag_changes_only_the_tag(
    images: Seq<ImageView>,
    id: Seq<char>,
    wallpaper: bool,
    i: int,
)
    requires
        0 <= i < images.len(),
    ensures
        tagging(images, id, wallpaper).len() == images.len(),
        tagging(images, id, wallpaper)[i].id == images[i].id,
        tagging(images, id, wallpaper)[i].file_name == images[i].file_name,
        tagging(images, id, wallpaper)[i].content_type == images[i].content_type,
{
    lemma_index_of_is_first(images, id);
}

/// A pick is one of the candidates, and there is one exactly where there are
/// candidates.
pub proof fn lemma_a_pick_is_a_candidate(
    candidates: Seq<ImageView>,
    previous: Option<Seq<char>>,
    nanos: u64,
    counter: u64,
)
    ensures
        picked(candidates, previous, nanos, counter) is Some <==> candidates.len() > 0,
        picked(candidates, previous, nanos, counter) matches Some(image) ==> candidates.contains(
            image,
        ),
{
    let from = pool(candidates, previous);
    if from.len() > 0 {
        let k = mixed(nanos, counter) as int % from.len() as int;
        assert(0 <= k < from.len());
        if from == candidates {
            assert(candidates[k] == from[k]);
        } else {
            lemma_filter_keeps_only_what_was_there(
                candidates,
                |image: ImageView| image.id != previous->0,
                k,
            );
        }
    }
}

/// A wallpaper is never shown twice in a row while there is another one.
pub proof fn lemma_no_wallpaper_twice_in_a_row(
    candidates: Seq<ImageView>,
    previous: Seq<char>,
    nanos: u64,
    counter: u64,
    other: int,
)
    requires
        0 <= other < candidates.len(),
        candidates[other].id != previous,
        candidates.len() > 1,
    ensures
        picked(candidates, Some(previous), nanos, counter) matches Some(image) && image.id
            != previous,
{
    let pred = |image: ImageView| image.id != previous;
    let others = candidates.filter(pred);
    broadcast use vstd::seq_lib::group_filter_ensures;

    assert(others.contains(candidates[other]));
    let k = mixed(nanos, counter) as int % others.len() as int;
    assert(0 <= k < others.len());
    assert(pred(others[k]));
}

/// An upload is accepted exactly where its media type begins with `image/`,
/// and an image is stored exactly where its content type does.
pub proof fn lemma_only_images_are_accepted(content_type: Seq<char>)
    ensures
        is_image(content_type) <==> (fcast::media_type(content_type).len() >= 6
            && fcast::media_type(content_type).take(6) == "image/"@),
        is_image_type(content_type) <==> (content_type.len() >= 6 && content_type.take(6)
            == "image/"@),
{
    reveal_strlit("image/");
}

/// The extension of an image's file is the one that its type is known by, and
/// `img` for a type that has none.
pub proof fn lemma_the_extensions(media: Seq<char>)
    ensures
        extension("image/jpeg"@) == "jpg"@,
        extension("image/jpg"@) == "jpg"@,
        extension("image/png"@) == "png"@,
        extension("image/gif"@) == "gif"@,
        extension("image/webp"@) == "webp"@,
        extension("image/bmp"@) == "bmp"@,
        extension("image/heic"@) == "heic"@,
        extension("image/heif"@) == "heif"@,
        extension("image/tiff"@) == "tiff"@,
        extension("image/svg+xml"@) == "svg"@,
        media != "image/jpeg"@ && media != "image/jpg"@ && media != "image/png"@ && media
            != "image/gif"@ && media != "image/webp"@ && media != "image/bmp"@ && media
            != "image/heic"@ && media != "image/heif"@ && media != "image/tiff"@ && media
            != "image/svg+xml"@ ==> extension(media) == "img"@,
{
    reveal_strlit("image/jpeg");
    reveal_strlit("image/jpg");
    reveal_strlit("image/png");
    reveal_strlit("image/gif");
    reveal_strlit("image/webp");
    reveal_strlit("image/bmp");
    reveal_strlit("image/heic");
    reveal_strlit("image/heif");
    reveal_strlit("image/tiff");
    reveal_strlit("image/svg+xml");
    assert("image/png"@[6] == 'p' && "image/gif"@[6] == 'g' && "image/bmp"@[6] == 'b'
        && "image/jpg"@[6] == 'j');
    assert("image/jpeg"@[6] == 'j' && "image/webp"@[6] == 'w' && "image/tiff"@[6] == 't'
        && "image/heic"@[6] == 'h' && "image/heif"@[6] == 'h');
    assert("image/heic"@[9] == 'c' && "image/heif"@[9] == 'f');
}

/// An upload becomes an image whose file is its id and the extension of its
/// type, whose type is the media type it came with, and which is no wallpaper.
/// Its id is the time and the count in hexadecimal, with a dash between them.
pub proof fn lemma_what_an_upload_becomes(content_type: Seq<char>, nanos: nat, seq: nat)
    ensures
        ({
            let image = new_image(content_type, nanos, seq);
            &&& image.id == text::hexadecimal(nanos) + "-"@ + text::hexadecimal(seq)
            &&& image.file_name == image.id + "."@ + extension(image.content_type)
            &&& image.content_type == fcast::media_type(content_type)
            &&& !image.wallpaper
        }),
{
}

/// Nothing of an image is left out of account.
pub proof fn lemma_an_image_is_all_its_fields(images: Seq<StoredImage>, i: int)
    requires
        0 <= i < images.len(),
    ensures
        image_views(images).len() == images.len(),
        image_views(images)[i].id == images[i].id@,
        image_views(images)[i].file_name == images[i].file_name@,
        image_views(images)[i].content_type == images[i].content_type@,
        image_views(images)[i].wallpaper == images[i].wallpaper,
{
}

proof fn lemma_index_of_is(images: Seq<ImageView>, id: Seq<char>, k: int)
    requires
        0 <= k <= images.len(),
        k < images.len() ==> images[k].id == id,
        forall|i: int| 0 <= i < k ==> (#[trigger] images[i]).id != id,
    ensures
        index_of(images, id) == k,
{
    lemma_index_of_is_first(images, id);
}

/// An image is found by its id: the first that has it, at its file name in the
/// store's directory. An id that no image has is unknown.
pub proof fn lemma_an_image_is_found_by_its_id(store: ImageStore, id: Seq<char>, k: int)
    requires
        0 <= k <= store.manifest@.len(),
        k < store.manifest@.len() ==> store.manifest@[k].id == id,
        forall|i: int| 0 <= i < k ==> (#[trigger] store.manifest@[i]).id != id,
    ensures
        knows(store.manifest@, id) <==> k < store.manifest@.len(),
        k < store.manifest@.len() ==> store.file_of(id) == Some(
            paths::join(store.dir@, store.manifest@[k].file_name),
        ),
        k == store.manifest@.len() ==> store.file_of(id) is None,
{
    lemma_index_of_is(store.manifest@, id, k);
}

/// A tag is set on the first image with the id, to what was asked for, and on
/// no other; an id that no image has changes nothing.
pub proof fn lemma_a_tag_is_set_as_asked(
    images: Seq<ImageView>,
    id: Seq<char>,
    wallpaper: bool,
    k: int,
    other: int,
)
    requires
        0 <= k <= images.len(),
        k < images.len() ==> images[k].id == id,
        forall|i: int| 0 <= i < k ==> (#[trigger] images[i]).id != id,
    ensures
        tagging(images, id, wallpaper).len() == images.len(),
        k < images.len() ==> tagging(images, id, wallpaper)[k].wallpaper == wallpaper,
        0 <= other < images.len() && other != k ==> tagging(images, id, wallpaper)[other]
            == images[other],
        k == images.len() ==> tagging(images, id, wallpaper) == images,
{
    lemma_index_of_is(images, id, k);
}

/// The wallpapers are the tagged images, each of them and no other, in the order
/// they were stored.
pub proof fn lemma_the_wallpapers_are_the_tagged_images(
    images: Seq<ImageView>,
    image: ImageView,
)
    ensures
        wallpapers(Seq::empty()) == Seq::<ImageView>::empty(),
        wallpapers(images.push(image)) == if image.wallpaper {
            wallpapers(images).push(image)
        } else {
            wallpapers(images)
        },
        wallpapers(images).contains(image) <==> images.contains(image) && image.wallpaper,
{
    assert(wallpapers(images.push(image)) == if image.wallpaper {
        wallpapers(images).push(image)
    } else {
        wallpapers(images)
    }) by {
        reveal(Seq::filter);
        assert(images.push(image).drop_last() =~= images);
    }
    assert(wallpapers(Seq::empty()) == Seq::<ImageView>::empty()) by {
        reveal(Seq::filter);
    }
    let pred = |image: ImageView| image.wallpaper;
    broadcast use vstd::seq_lib::group_filter_ensures;

    if wallpapers(images).contains(image) {
        let i = choose|i: int| 0 <= i < wallpapers(images).len() && wallpapers(images)[i] == image;
        assert(pred(wallpapers(images)[i]));
        lemma_filter_keeps_only_what_was_there(images, pred, i);
    }
    if images.contains(image) && image.wallpaper {
        assert(pred(image));
    }
}

/// What the next pick is made from: the candidates that are not the one picked
/// last, each of them and no other, wherever there is one; and else every
/// candidate.
pub proof fn lemma_what_a_pick_is_made_from(
    candidates: Seq<ImageView>,
    previous: Seq<char>,
    image: ImageView,
)
    ensures
        pool(candidates, None) == candidates,
        (forall|i: int| 0 <= i < candidates.len() ==> (#[trigger] candidates[i]).id == previous)
            ==> pool(candidates, Some(previous)) == candidates,
        (exists|i: int| 0 <= i < candidates.len() && (#[trigger] candidates[i]).id != previous)
            ==> (pool(candidates, Some(previous)).contains(image) <==> candidates.contains(image)
            && image.id != previous),
{
    let pred = |image: ImageView| image.id != previous;
    let others = candidates.filter(pred);
    broadcast use vstd::seq_lib::group_filter_ensures;

    if others.len() > 0 {
        lemma_filter_keeps_only_what_was_there(candidates, pred, 0);
        let i = choose|i: int| 0 <= i < candidates.len() && candidates[i] == others[0];
        assert(pred(others[0]));
        assert(candidates[i].id != previous);
    }
    if exists|i: int| 0 <= i < candidates.len() && (#[trigger] candidates[i]).id != previous {
        let i = choose|i: int| 0 <= i < candidates.len() && (#[trigger] candidates[i]).id
            != previous;
        assert(pred(candidates[i]));
        assert(others.contains(candidates[i]));
        if candidates.len() == 1 {
            assert(candidates[0].id != previous);
            if candidates.contains(image) {
                assert(image == candidates[0]);
            }
        } else {
            if others.contains(image) {
                let j = choose|j: int| 0 <= j < others.len() && others[j] == image;
                assert(pred(others[j]));
                lemma_filter_keeps_only_what_was_there(candidates, pred, j);
            }
            if candidates.contains(image) && image.id != previous {
                assert(pred(image));
            }
        }
    }
}

proof fn lemma_times_inverse(x: u64, factor: u64, inverse: u64)
    requires
        (factor * inverse) % 0x1_0000_0000_0000_0000 == 1,
    ensures
        x.wrapping_mul(inverse).wrapping_mul(factor) == x,
{
    let m = 0x1_0000_0000_0000_0000int;
    let (a, b, y) = (factor as int, inverse as int, x as int);
    assert(x.wrapping_mul(inverse) as int == (y * b) % m);
    assert(x.wrapping_mul(inverse).wrapping_mul(factor) as int == ((y * b) % m * a) % m);
    vstd::arithmetic::div_mod::lemma_mul_mod_noop_left(y * b, a, m);
    assert(y * b * a == y * (a * b)) by (nonlinear_arith);
    vstd::arithmetic::div_mod::lemma_mul_mod_noop_right(y, a * b, m);
    assert(y * 1 == y);
    vstd::arithmetic::div_mod::lemma_small_mod(x as nat, m as nat);
}

/// A number whose mixing gives `v`.
spec fn unmixed(v: u64) -> u64 {
    let c = v ^ (v >> 31) ^ (v >> 62);
    let b = c.wrapping_mul(0x3196_42B2_D24D_8EC3);
    let a = (b ^ (b >> 27) ^ (b >> 54)).wrapping_mul(0x96DE_1B17_3F11_9089);
    a ^ (a >> 30) ^ (a >> 60)
}

proof fn lemma_mixing_can_give_any_number(nanos: u64, counter: u64, v: u64)
    requires
        nanos ^ counter.wrapping_mul(0x9E37_79B9_7F4A_7C15) == unmixed(v),
    ensures
        mixed(nanos, counter) == v,
{
    let c = v ^ (v >> 31) ^ (v >> 62);
    let b = c.wrapping_mul(0x3196_42B2_D24D_8EC3);
    let b2 = b ^ (b >> 27) ^ (b >> 54);
    let a = b2.wrapping_mul(0x96DE_1B17_3F11_9089);
    let a2 = a ^ (a >> 30) ^ (a >> 60);
    assert(a2 == a ^ (a >> 30) ^ (a >> 60) ==> a2 ^ (a2 >> 30) == a) by (bit_vector);
    assert(b2 == b ^ (b >> 27) ^ (b >> 54) ==> b2 ^ (b2 >> 27) == b) by (bit_vector);
    assert(c == v ^ (v >> 31) ^ (v >> 62) ==> c ^ (c >> 31) == v) by (bit_vector);
    lemma_times_inverse(b2, 0xBF58_476D_1CE4_E5B9, 0x96DE_1B17_3F11_9089);
    lemma_times_inverse(c, 0x94D0_49BB_1331_11EB, 0x3196_42B2_D24D_8EC3);
}

/// The random source can give every number: whatever the count, at some time;
/// and whatever the time, with some count.
pub proof fn lemma_any_number_can_come_up(v: u64, nanos: u64, counter: u64)
    ensures
        exists|t: u64| #[trigger] mixed(t, counter) == v,
        exists|n: u64| #[trigger] mixed(nanos, n) == v,
{
    let k = counter.wrapping_mul(0x9E37_79B9_7F4A_7C15);
    let x = unmixed(v);
    let t = x ^ k;
    assert(t == x ^ k ==> t ^ k == x) by (bit_vector);
    lemma_mixing_can_give_any_number(t, counter, v);
    let y = x ^ nanos;
    let n = y.wrapping_mul(0xF1DE_83E1_9937_733D);
    lemma_times_inverse(y, 0x9E37_79B9_7F4A_7C15, 0xF1DE_83E1_9937_733D);
    assert(y == x ^ nanos ==> nanos ^ y == x) by (bit_vector);
    lemma_mixing_can_give_any_number(nanos, n, v);
}

/// The pick is random: it is the image at the random index among those it is
/// made from, so that every one of them is picked at some time, whatever the
/// count, and with some count, whatever the time.
pub proof fn lemma_every_wallpaper_has_its_turn(
    candidates: Seq<ImageView>,
    previous: Option<Seq<char>>,
    nanos: u64,
    counter: u64,
    k: int,
)
    requires
        0 <= k < pool(candidates, previous).len() <= u64::MAX,
    ensures
        mixed(nanos, counter) as int % pool(candidates, previous).len() as int == k ==> picked(
            candidates,
            previous,
            nanos,
            counter,
        ) == Some(pool(candidates, previous)[k]),
        exists|t: u64|
            #[trigger] picked(candidates, previous, t, counter) == Some(
                pool(candidates, previous)[k],
            ),
        exists|n: u64|
            #[trigger] picked(candidates, previous, nanos, n) == Some(
                pool(candidates, previous)[k],
            ),
{
    let from = pool(candidates, previous);
    lemma_any_number_can_come_up(k as u64, nanos, counter);
    vstd::arithmetic::div_mod::lemma_small_mod(k as nat, from.len());
    let t = choose|t: u64| #[trigger] mixed(t, counter) == k as u64;
    assert(picked(candidates, previous, t, counter) == Some(from[k]));
    let n = choose|n: u64| #[trigger] mixed(nanos, n) == k as u64;
    assert(picked(candidates, previous, nanos, n) == Some(from[k]));
}

/// Where something else can be shown, the pick is the random one of the images
/// that were not shown last; two indices of two different images are two
/// different picks.
pub proof fn lemma_the_pick_is_the_random_one_of_the_others(
    candidates: Seq<ImageView>,
    previous: Seq<char>,
    nanos: u64,
    counter: u64,
    other: int,
)
    requires
        0 <= other < candidates.len(),
        candidates[other].id != previous,
    ensures
        ({
            let others = candidates.filter(|image: ImageView| image.id != previous);
            &&& others.len() > 0
            &&& picked(candidates, Some(previous), nanos, counter) == Some(
                others[mixed(nanos, counter) as int % others.len() as int],
            )
        }),
{
    let pred = |image: ImageView| image.id != previous;
    let others = candidates.filter(pred);
    broadcast use vstd::seq_lib::group_filter_ensures;

    assert(pred(candidates[other]));
    assert(others.contains(candidates[other]));
    if candidates.len() == 1 {
        assert(others =~= candidates) by {
            reveal(Seq::filter);
            assert(candidates.drop_last() =~= Seq::<ImageView>::empty());
            assert(candidates.drop_last().filter(pred) == Seq::<ImageView>::empty());
        }
    }
}

/// What is said of an upload that is no image names its content type.
pub proof fn lemma_what_is_said_of_no_image(content_type: String)
    ensures
        ImageError::NotAnImage(content_type).text() == "upload content type "@
            + text::debug_quoted(content_type@) + " is not an image/* MIME type"@,
{
}

/// A manifest is the list of its images; two stores with the same images have
/// the same places and the same list.
pub proof fn lemma_what_the_same_images_are(store: ImageStore, other: ImageStore, image: ImageView)
    ensures
        store.manifest@ == image_views(store.manifest.images@),
        store.same_images(other) ==> other.dir == store.dir && other.manifest_path
            == store.manifest_path && other.manifest@ == store.manifest@,
        store.file(image) == paths::join(store.dir@, image.file_name),
{
}

/// The random source is the finisher of splitmix64, on the time and the count
/// spread over all bits: three shifts, and two odd factors between them.
pub proof fn lemma_how_numbers_come_up(nanos: u64, counter: u64, a: u64, b: u64, c: u64)
    requires
        a == nanos ^ counter.wrapping_mul(0x9E37_79B9_7F4A_7C15),
        b == (a ^ (a >> 30)).wrapping_mul(0xBF58_476D_1CE4_E5B9),
        c == (b ^ (b >> 27)).wrapping_mul(0x94D0_49BB_1331_11EB),
    ensures
        mixed(nanos, counter) == c ^ (c >> 31),
{
}

} // verus!
