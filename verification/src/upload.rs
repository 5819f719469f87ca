//! The image upload endpoint: what a request is answered.
//!
//! One image per `POST /images`, with the image as the body and its MIME type
//! as the content type. Everything else is refused, a body over the limit
//! without being held in memory.

use vstd::prelude::*;

use crate::images;
use crate::images::{ImageStore, StoredImage};
use crate::text;

verus! {

/// Port of the upload server.
pub const DEFAULT_UPLOAD_PORT: u16 = 46900;

/// Upper bound on an image's bytes.
pub const MAX_UPLOAD_BYTES: usize = 32 * 1024 * 1024;

/// How many bytes of a body are read: one more than the limit, so that a body
/// over the limit is seen to be one whatever length was announced.
pub const READ_LIMIT: usize = 32 * 1024 * 1024 + 1;

/// The only path that is served.
pub open spec fn upload_path() -> Seq<char> {
    "/images"@
}

/// One header of a request.
#[derive(Debug)]
pub struct Header {
    pub field: String,
    pub value: String,
}

/// A request, without its body.
#[derive(Debug)]
pub struct Request {
    /// Whether its method is `POST`.
    pub post: bool,
    pub url: String,
    /// The length that it announces.
    pub body_length: Option<usize>,
    pub headers: Vec<Header>,
}

/// A refusal.
#[derive(Debug)]
pub struct Refusal {
    pub status: u16,
    pub body: String,
}

/// What a sender is told of an image that was stored: ready to be played, and
/// the id by which it is tagged.
#[derive(Debug)]
pub struct UploadResponse {
    pub id: String,
    pub url: String,
    pub container: String,
}

/// Whether a refusal has this status and this text.
pub open spec fn refuses(refusal: Refusal, status: u16, body: Seq<char>) -> bool {
    refusal.status == status && refusal.body@ == body
}

/// Whether `response` tells of `image` as `store` has it: its id, its MIME type
/// and the URL of the file found under its id.
pub open spec fn answers(
    response: UploadResponse,
    store: ImageStore,
    image: images::ImageView,
) -> bool {
    &&& response.id@ == image.id
    &&& response.container@ == image.content_type
    &&& response.url@ == match store.file_of(image.id) {
        Some(path) => "file://"@ + path,
        None => Seq::empty(),
    }
}

/// What a sender is told whose upload is no image.
pub open spec fn not_an_image(content_type: Seq<char>) -> Seq<char> {
    "upload content type "@ + text::debug_quoted(content_type) + " is not an image/* MIME type"@
}

/// Whether a request is for this endpoint.
pub open spec fn is_upload(request: Request) -> bool {
    request.post && request.url@ == upload_path()
}

/// Whether a request announces more than the limit.
pub open spec fn announces_too_much(request: Request) -> bool {
    request.body_length matches Some(n) && n > MAX_UPLOAD_BYTES
}

/// The value of the first content type header; empty where there is none. The
/// name of a header is the same in any letter case.
pub open spec fn content_type(headers: Seq<Header>) -> Seq<char>
    decreases headers.len(),
{
    if headers.len() == 0 {
        Seq::empty()
    } else if text::lowered(headers[0].field@) == "content-type"@ {
        headers[0].value@
    } else {
        content_type(headers.drop_first())
    }
}

/// Refuses a request that is none for this endpoint, or that announces too
/// much, before its body is read.
pub fn check_request(request: &Request) -> (r: Result<(), Refusal>)
    ensures
        match r {
            Ok(_) => is_upload(*request) && !announces_too_much(*request),
            Err(refusal) => if !is_upload(*request) {
                refuses(refusal, 404, Seq::empty())
            } else {
                announces_too_much(*request) && refuses(refusal, 413, "upload too large"@)
            },
        },
{
    if !request.post || !text::same_text(request.url.as_str(), "/images") {
        return Err(Refusal { status: 404, body: String::new() });
    }
    if let Some(n) = request.body_length {
        if n > MAX_UPLOAD_BYTES {
            return Err(Refusal { status: 413, body: "upload too large".to_string() });
        }
    }
    Ok(())
}

/// The content type of a request.
pub fn content_type_of(request: &Request) -> (r: String)
    ensures
        r@ == content_type(request.headers@),
{
    let headers: &Vec<Header> = &request.headers;
    let mut i: usize = 0;
    assert(headers@.skip(0) =~= headers@);
    while i < headers.len()
        invariant
            i <= headers.len(),
            headers@ == request.headers@,
            content_type(headers@) == content_type(headers@.skip(i as int)),
        decreases headers.len() - i,
    {
        assert(headers@.skip(i as int)[0] == headers@[i as int]);
        let field: String = text::lower_text(headers[i].field.as_str());
        if text::same_text(field.as_str(), "content-type") {
            return headers[i].value.clone();
        }
        assert(headers@.skip(i as int).drop_first() =~= headers@.skip(i + 1));
        i = i + 1;
    }
    String::new()
}

/// Refuses a body that could not be read, or of which more than the limit was
/// read. `read` is the number of bytes, at most `READ_LIMIT`.
pub fn check_body(read: Option<usize>) -> (r: Result<(), Refusal>)
    ensures
        match read {
            None => r matches Err(refusal) && refuses(
                refusal,
                400,
                "failed to read request body"@,
            ),
            Some(n) => if n > MAX_UPLOAD_BYTES {
                r matches Err(refusal) && refuses(refusal, 413, "upload too large"@)
            } else {
                r is Ok
            },
        },
{
    match read {
        None => Err(Refusal { status: 400, body: "failed to read request body".to_string() }),
        Some(n) => if n > MAX_UPLOAD_BYTES {
            Err(Refusal { status: 413, body: "upload too large".to_string() })
        } else {
            Ok(())
        },
    }
}

/// Names the image of an upload with this content type, made at `nanos` as the
/// `seq`th of the process, or refuses what is none.
pub fn name_image(content_type: &str, nanos: u128, seq: u64) -> (r: Result<StoredImage, Refusal>)
    ensures
        match r {
            Ok(image) => images::is_image(content_type@) && image@ == images::new_image(
                content_type@,
                nanos as nat,
                seq as nat,
            ),
            Err(refusal) => !images::is_image(content_type@) && refuses(
                refusal,
                400,
                not_an_image(content_type@),
            ),
        },
{
    match images::name_upload(content_type, nanos, seq) {
        Ok(image) => Ok(image),
        Err(e) => Err(Refusal { status: 400, body: e.message() }),
    }
}

/// The file of `image` has been written, or could not be, for the reason
/// given. A written image is stored, and the sender told how to play it; what
/// is no image is refused here too.
pub fn accept(store: &mut ImageStore, image: StoredImage, written: Result<(), String>) -> (r: Result<
    UploadResponse,
    Refusal,
>)
    ensures
        final(store).dir == old(store).dir,
        final(store).manifest_path == old(store).manifest_path,
        final(store).last_wallpaper_id == old(store).last_wallpaper_id,
        match written {
            Err(reason) => {
                &&& r matches Err(refusal) && refuses(refusal, 400, reason@)
                &&& final(store).manifest@ == old(store).manifest@
            },
            Ok(_) => if images::is_image_type(image@.content_type) {
                &&& final(store).manifest@ == old(store).manifest@.push(image@)
                &&& r matches Ok(response) && answers(response, *final(store), image@)
            } else {
                &&& final(store).manifest@ == old(store).manifest@
                &&& r matches Err(refusal) && refuses(
                    refusal,
                    400,
                    not_an_image(image@.content_type),
                )
            },
        },
{
    match written {
        Err(reason) => Err(Refusal { status: 400, body: reason }),
        Ok(_) => {
            let id: String = image.id.clone();
            let container: String = image.content_type.clone();
            if let Err(e) = store.store(image) {
                return Err(Refusal { status: 400, body: e.message() });
            }
            let url: String = match store.file_url_for(id.as_str()) {
                Some(url) => url,
                None => String::new(),
            };
            Ok(UploadResponse { id, url, container })
        },
    }
}

/// An upload under way.
#[derive(Debug)]
pub struct Upload {
    pub content_type: String,
    /// The image, once its body has been read.
    pub image: Option<StoredImage>,
}

/// What is answered.
#[derive(Debug)]
pub enum Answer {
    Refused(Refusal),
    Stored(UploadResponse),
}

impl Answer {
    /// The HTTP status of this answer.
    pub fn status(&self) -> (r: u16)
        ensures
            r == (match self {
                Answer::Refused(refusal) => refusal.status,
                Answer::Stored(_) => 200,
            }),
    {
        match self {
            Answer::Refused(refusal) => refusal.status,
            Answer::Stored(_) => 200,
        }
    }
}

/// What an upload takes next.
#[derive(Debug)]
pub enum UploadStep {
    /// Read the body, up to `READ_LIMIT` bytes.
    ReadBody,
    /// Write the body to this file.
    WriteFile(String),
    /// Answer, and be done.
    Answer(Answer),
}

impl Upload {
    /// A request came in.
    pub fn begin(request: &Request) -> (r: (Upload, UploadStep))
        ensures
            r.0.content_type@ == content_type(request.headers@),
            r.0.image is None,
            if !is_upload(*request) {
                r.1 matches UploadStep::Answer(Answer::Refused(refusal)) && refuses(
                    refusal,
                    404,
                    Seq::empty(),
                )
            } else if announces_too_much(*request) {
                r.1 matches UploadStep::Answer(Answer::Refused(refusal)) && refuses(
                    refusal,
                    413,
                    "upload too large"@,
                )
            } else {
                r.1 is ReadBody
            },
    {
        let upload: Upload = Upload { content_type: content_type_of(request), image: None };
        match check_request(request) {
            Ok(_) => (upload, UploadStep::ReadBody),
            Err(refusal) => (upload, UploadStep::Answer(Answer::Refused(refusal))),
        }
    }

    /// So many bytes of the body were read, or it could not be. `nanos` and
    /// `seq` name the image.
    pub fn body_read(
        &mut self,
        store: &ImageStore,
        read: Option<usize>,
        nanos: u128,
        seq: u64,
    ) -> (r: UploadStep)
        ensures
            final(self).content_type == old(self).content_type,
            if read is None {
                &&& r matches UploadStep::Answer(Answer::Refused(refusal)) && refuses(
                    refusal,
                    400,
                    "failed to read request body"@,
                )
                &&& final(self).image == old(self).image
            } else if read->0 > MAX_UPLOAD_BYTES {
                &&& r matches UploadStep::Answer(Answer::Refused(refusal)) && refuses(
                    refusal,
                    413,
                    "upload too large"@,
                )
                &&& final(self).image == old(self).image
            } else if !images::is_image(old(self).content_type@) {
                &&& r matches UploadStep::Answer(Answer::Refused(refusal)) && refuses(
                    refusal,
                    400,
                    not_an_image(old(self).content_type@),
                )
                &&& final(self).image == old(self).image
            } else {
                &&& final(self).image matches Some(image) && image@ == images::new_image(
                    old(self).content_type@,
                    nanos as nat,
                    seq as nat,
                ) && (r matches UploadStep::WriteFile(path) && path@ == store.file(image@))
            },
    {
        if let Err(refusal) = check_body(read) {
            return UploadStep::Answer(Answer::Refused(refusal));
        }
        match name_image(self.content_type.as_str(), nanos, seq) {
            Err(refusal) => UploadStep::Answer(Answer::Refused(refusal)),
            Ok(image) => {
                let path: String = store.path_of(&image);
                self.image = Some(image);
                UploadStep::WriteFile(path)
            },
        }
    }

    /// The image's file has been written, or could not be, for the reason
    /// given.
    pub fn file_written(&mut self, store: &mut ImageStore, written: Result<(), String>) -> (r:
        UploadStep)
        requires
            old(self).image is Some,
        ensures
            final(self).content_type == old(self).content_type,
            final(self).image is None,
            final(store).dir == old(store).dir,
            final(store).manifest_path == old(store).manifest_path,
            final(store).last_wallpaper_id == old(store).last_wallpaper_id,
            match written {
                Err(reason) => {
                    &&& r matches UploadStep::Answer(Answer::Refused(refusal)) && refuses(
                        refusal,
                        400,
                        reason@,
                    )
                    &&& final(store).manifest@ == old(store).manifest@
                },
                Ok(_) => {
                    let image = old(self).image->0@;
                    if images::is_image_type(image.content_type) {
                        &&& final(store).manifest@ == old(store).manifest@.push(image)
                        &&& r matches UploadStep::Answer(Answer::Stored(response)) && answers(
                            response,
                            *final(store),
                            image,
                        )
                    } else {
                        &&& final(store).manifest@ == old(store).manifest@
                        &&& r matches UploadStep::Answer(Answer::Refused(refusal)) && refuses(
                            refusal,
                            400,
                            not_an_image(image.content_type),
                        )
                    }
                },
            },
    {
        let image: StoredImage = self.image.take().unwrap();
        match accept(store, image, written) {
            Ok(response) => UploadStep::Answer(Answer::Stored(response)),
            Err(refusal) => UploadStep::Answer(Answer::Refused(refusal)),
        }
    }
}

// ---------------------------------------------------------------------------
// Laws
// ---------------------------------------------------------------------------

/// A sender can play what it uploaded by the URL it is told: it is that of the
/// image's own file, where the image's id is new.
pub proof fn lemma_the_answer_names_the_upload(
    before: ImageStore,
    after: ImageStore,
    image: images::ImageView,
    response: UploadResponse,
)
    requires
        !images::knows(before.manifest@, image.id),
        after.manifest@ == before.manifest@.push(image),
        after.dir == before.dir,
        answers(response, after, image),
    ensures
        after.file_of(image.id) == Some(before.file(image)),
        response.url@ == "file://"@ + before.file(image),
{
    let other = image.id.push('x');
    assert(other.len() != image.id.len());
    images::lemma_a_stored_image_is_found(before, after, image, other);
}

/// An upload is a `POST` to `/images` of at most 32 MiB; one byte more than
/// that is read of a body, so that a longer one is noticed.
pub proof fn lemma_what_an_upload_is(request: Request, n: usize)
    ensures
        is_upload(request) <==> request.post && request.url@ == "/images"@,
        request.body_length == Some(n) ==> (announces_too_much(request) <==> n > 33554432),
        request.body_length is None ==> !announces_too_much(request),
        MAX_UPLOAD_BYTES == 33554432,
        READ_LIMIT == 33554433,
        DEFAULT_UPLOAD_PORT == 46900,
{
}

/// A refusal is its status and its text.
pub proof fn lemma_what_a_refusal_is(refusal: Refusal, status: u16, body: Seq<char>)
    ensures
        refuses(refusal, status, body) <==> refusal.status == status && refusal.body@ == body,
        not_an_image(body) == "upload content type "@ + text::debug_quoted(body)
            + " is not an image/* MIME type"@,
{
}

/// The content type of an upload is the value of its first header of that name,
/// in whatever letter case; without one it is empty.
pub proof fn lemma_which_header_is_the_content_type(headers: Seq<Header>, k: int)
    requires
        0 <= k <= headers.len(),
        k < headers.len() ==> text::lowered(headers[k].field@) == "content-type"@,
        forall|i: int|
            0 <= i < k ==> text::lowered((#[trigger] headers[i]).field@) != "content-type"@,
    ensures
        k < headers.len() ==> content_type(headers) == headers[k].value@,
        k == headers.len() ==> content_type(headers).len() == 0,
    decreases headers.len(),
{
    if k > 0 {
        assert(text::lowered(headers[0].field@) != "content-type"@);
        let rest = headers.drop_first();
        assert forall|i: int| 0 <= i < k - 1 implies text::lowered((#[trigger] rest[i]).field@)
            != "content-type"@ by {
            assert(rest[i] == headers[i + 1]);
        }
        if k < headers.len() {
            assert(rest[k - 1] == headers[k]);
        }
        lemma_which_header_is_the_content_type(rest, k - 1);
    }
}

/// A sender is told its image's own id and media type, and the `file://` URL of
/// the file found under that id.
pub proof fn lemma_what_a_sender_is_told_of_its_image(
    response: UploadResponse,
    store: ImageStore,
    image: images::ImageView,
    path: Seq<char>,
)
    requires
        answers(response, store, image),
    ensures
        response.id@ == image.id,
        response.container@ == image.content_type,
        store.file_of(image.id) == Some(path) ==> response.url@ == "file://"@ + path,
{
}

} // verus!
