//! The serving layer: a stateless router over the immutable store and the
//! process-lifetime version token.

use vstd::prelude::*;
use crate::hexstr::{lemma_spec_hex_len, spec_hex};
use crate::image::ImageModel;
use crate::outside::{hex_encode, random_bytes_32};
use crate::store::{
    build_store, spec_files_view, spec_sources, store_inv, store_matches, CatalogError, Store,
};

verus! {

/// A request, already stripped of transport concerns: the three served
/// paths. For an image request the first path segment (a commit-shaped
/// token accepted for URL compatibility) is kept but never examined.
pub enum Request {
    Root,
    Latest,
    Image { commit: String, file: String },
}

/// The mathematical content of a request.
pub enum ReqModel {
    Root,
    Latest,
    Image { commit: Seq<char>, file: Seq<char> },
}

impl View for Request {
    type V = ReqModel;

    open spec fn view(&self) -> ReqModel {
        match self {
            Request::Root => ReqModel::Root,
            Request::Latest => ReqModel::Latest,
            Request::Image { commit, file } => ReqModel::Image {
                commit: commit@,
                file: file@,
            },
        }
    }
}

/// Why a request gets a 404.
#[derive(Debug, PartialEq, Eq, Clone, Copy)]
pub enum NotFoundReason {
    MissingExtension,
    ImageNotFound,
    UnknownExtension,
}

/// The message a 404 carries.
pub open spec fn spec_reason_message(r: NotFoundReason) -> Seq<char> {
    match r {
        NotFoundReason::MissingExtension => "missing file extension"@,
        NotFoundReason::ImageNotFound => "image not found"@,
        NotFoundReason::UnknownExtension => "unknown file extension"@,
    }
}

impl NotFoundReason {
    /// The short explanatory message sent to the client.
    pub fn message(&self) -> (r: String)
        ensures
            r@ == spec_reason_message(*self),
    {
        match self {
            NotFoundReason::MissingExtension => String::from_str("missing file extension"),
            NotFoundReason::ImageNotFound => String::from_str("image not found"),
            NotFoundReason::UnknownExtension => String::from_str("unknown file extension"),
        }
    }
}

/// A response: plain text, artifact bytes, or a 404 with its reason.
#[derive(Debug, PartialEq, Eq)]
pub enum Response {
    OkText(String),
    OkBytes(Vec<u8>),
    NotFound(NotFoundReason),
}

/// The mathematical content of a response; a 404 carries its message.
pub enum RespModel {
    OkText(Seq<char>),
    OkBytes(Seq<u8>),
    NotFound(Seq<char>),
}

impl View for Response {
    type V = RespModel;

    open spec fn view(&self) -> RespModel {
        match self {
            Response::OkText(s) => RespModel::OkText(s@),
            Response::OkBytes(b) => RespModel::OkBytes(b@),
            Response::NotFound(r) => RespModel::NotFound(spec_reason_message(*r)),
        }
    }
}

/// The HTTP status a response is sent with.
pub open spec fn spec_status(m: RespModel) -> int {
    match m {
        RespModel::NotFound(_) => 404,
        _ => 200,
    }
}

impl Response {
    /// The HTTP status code: 404 for a miss, 200 otherwise.
    pub fn status(&self) -> (c: u16)
        ensures
            c == spec_status(self@),
    {
        match self {
            Response::NotFound(_) => 404,
            _ => 200,
        }
    }
}

/// Index `i` holds the first `.` of `s`.
pub open spec fn is_first_dot(s: Seq<char>, i: int) -> bool {
    &&& 0 <= i < s.len()
    &&& s[i] == '.'
    &&& forall|j: int| 0 <= j < i ==> s[j] != '.'
}

/// Split a file name on its first `.`: everything after it is the
/// extension, so multi-part extensions like `qcow2.zst` stay whole.
pub open spec fn spec_split_dot(s: Seq<char>) -> Option<(Seq<char>, Seq<char>)> {
    if exists|i: int| is_first_dot(s, i) {
        let i = choose|i: int| is_first_dot(s, i);
        Some((s.subrange(0, i), s.subrange(i + 1, s.len() as int)))
    } else {
        None
    }
}

/// A sequence has at most one first dot.
pub proof fn lemma_first_dot_unique(s: Seq<char>, i: int, j: int)
    requires
        is_first_dot(s, i),
        is_first_dot(s, j),
    ensures
        i == j,
{
    if i < j {
        assert(s[i] != '.');
    }
    if j < i {
        assert(s[j] != '.');
    }
}

/// Split a file name on the first `.` into name and extension; `None` when
/// there is no dot at all.
pub fn split_first_dot(file: &str) -> (r: Option<(String, String)>)
    ensures
        match r {
            None => spec_split_dot(file@) is None,
            Some(p) => spec_split_dot(file@) == Some((p.0@, p.1@)),
        },
{
    let len = file.unicode_len();
    let mut i: usize = 0;
    while i < len
        invariant
            i <= len,
            len == file@.len(),
            forall|j: int| 0 <= j < i ==> file@[j] != '.',
        decreases len - i,
    {
        if file.get_char(i) == '.' {
            let name = file.substring_char(0, i).to_owned();
            let ext = file.substring_char(i + 1, len).to_owned();
            proof {
                assert(is_first_dot(file@, i as int));
                let w = choose|w: int| is_first_dot(file@, w);
                lemma_first_dot_unique(file@, i as int, w);
            }
            return Some((name, ext));
        }
        i = i + 1;
    }
    proof {
        if exists|w: int| is_first_dot(file@, w) {
            let w = choose|w: int| is_first_dot(file@, w);
            assert(file@[w] != '.');
        }
    }
    None
}

/// The mathematical content of a running server: its images and its
/// version token.
pub struct ServerModel {
    pub images: Map<Seq<char>, ImageModel>,
    pub token: Seq<char>,
}

/// A running server: the immutable store and the version token, fixed for
/// the process's lifetime.
pub struct Server {
    pub store: Store,
    pub token: String,
    pub token_raw: Ghost<Seq<u8>>,
}

impl View for Server {
    type V = ServerModel;

    open spec fn view(&self) -> ServerModel {
        ServerModel { images: self.store@, token: self.token@ }
    }
}

/// Every served image is well formed and the token renders 32 bytes in hex.
pub open spec fn server_inv(s: ServerModel) -> bool {
    &&& store_inv(s.images)
    &&& s.token.len() == 64
}

/// The fixed confirmation string served at the root path.
pub open spec fn spec_root_message() -> Seq<char> {
    "local-images-server is running"@
}

/// What the router answers: the root confirmation, the constant token, or
/// the dispatch on the image file name — split on the first dot, then the
/// name looked up, then the extension examined.
pub open spec fn spec_handle(s: ServerModel, req: ReqModel) -> RespModel {
    match req {
        ReqModel::Root => RespModel::OkText(spec_root_message()),
        ReqModel::Latest => RespModel::OkText(s.token),
        ReqModel::Image { commit: _, file } => match spec_split_dot(file) {
            None => RespModel::NotFound("missing file extension"@),
            Some(p) => {
                if !s.images.contains_key(p.0) {
                    RespModel::NotFound("image not found"@)
                } else if p.1 == "qcow2.zst"@ {
                    RespModel::OkBytes(s.images[p.0].compressed)
                } else if p.1 == "qcow2.sha256"@ {
                    RespModel::OkText(s.images[p.0].hash)
                } else {
                    RespModel::NotFound("unknown file extension"@)
                }
            },
        },
    }
}

/// Why starting the server failed: the catalog could not be built, or the
/// version token could not be generated.
#[derive(Debug)]
pub enum BootError {
    Catalog(CatalogError),
    TokenGeneration { cause: String },
}

impl Server {
    /// The store is well formed and the token is the hex rendering of the
    /// 32 random bytes drawn at startup.
    pub open spec fn wf(&self) -> bool {
        &&& self.store.wf()
        &&& self.token_raw@.len() == 32
        &&& self.token@ == spec_hex(self.token_raw@)
    }

    /// A well-formed server satisfies the model-level invariant.
    pub proof fn lemma_wf_inv(&self)
        requires
            self.wf(),
        ensures
            server_inv(self@),
    {
        self.store.lemma_wf_inv();
        lemma_spec_hex_len(self.token_raw@);
    }

    /// Wrap a store for serving: draw the 32-byte version token once, for
    /// the process's lifetime, and hex-encode it.
    pub fn start(store: Store) -> (r: Result<Server, String>)
        ensures
            r matches Ok(s) ==> {
                &&& s@.images == store@
                &&& s@.token.len() == 64
                &&& store.wf() ==> s.wf()
            },
    {
        match random_bytes_32() {
            Err(e) => Err(e),
            Ok(raw) => {
                let token = hex_encode(raw.as_slice());
                proof {
                    lemma_spec_hex_len(raw@);
                }
                Ok(Server { store, token, token_raw: Ghost(raw@) })
            },
        }
    }

    /// Answer one request against the immutable store and token. The
    /// response is a function of the server's state and the request alone.
    pub fn handle(&self, req: &Request) -> (r: Response)
        ensures
            r@ == spec_handle(self@, req@),
    {
        match req {
            Request::Root => Response::OkText(
                String::from_str("local-images-server is running"),
            ),
            Request::Latest => Response::OkText(self.token.clone()),
            Request::Image { commit: _, file } => {
                match split_first_dot(file.as_str()) {
                    None => Response::NotFound(NotFoundReason::MissingExtension),
                    Some((name, ext)) => {
                        match self.store.lookup(&name) {
                            None => Response::NotFound(NotFoundReason::ImageNotFound),
                            Some(img) => {
                                if ext == String::from_str("qcow2.zst") {
                                    Response::OkBytes(img.artifact_bytes())
                                } else if ext == String::from_str("qcow2.sha256") {
                                    Response::OkText(img.hash_string())
                                } else {
                                    Response::NotFound(NotFoundReason::UnknownExtension)
                                }
                            },
                        }
                    },
                }
            },
        }
    }
}

/// Everything the process does before it serves: build the store from the
/// directory listing, then draw the version token. Fail-fast: no server
/// exists unless every image was prepared.
pub fn boot(files: &Vec<(String, Vec<u8>)>) -> (r: Result<Server, BootError>)
    ensures
        match r {
            Ok(s) => {
                &&& s.wf()
                &&& server_inv(s@)
                &&& store_matches(s@.images, spec_sources(spec_files_view(files@)))
                &&& s@.token.len() == 64
            },
            Err(e) => match e {
                BootError::Catalog(ce) => ce matches CatalogError::ImagePreparation {
                    name: n,
                    cause: _,
                } && exists|j: int|
                    0 <= j < files@.len() && crate::image::spec_image_name(
                        spec_files_view(files@)[j].0,
                    ) == Some(n@),
                BootError::TokenGeneration { .. } => true,
            },
        },
{
    match build_store(files) {
        Err(e) => Err(BootError::Catalog(e)),
        Ok(st) => match Server::start(st) {
            Err(cause) => Err(BootError::TokenGeneration { cause }),
            Ok(s) => {
                proof {
                    s.lemma_wf_inv();
                }
                Ok(s)
            },
        },
    }
}

} // verus!
