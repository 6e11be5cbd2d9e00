//! The laws the serving layer obeys, stated over the router's model and
//! proved once and for all.

use vstd::prelude::*;
use crate::hexstr::spec_hex;
use crate::image::ImageModel;
use crate::outside::{sha256_of, zstd_decompress_of};
use crate::server::{
    is_first_dot, lemma_first_dot_unique, server_inv, spec_handle, spec_root_message,
    spec_split_dot, ReqModel, RespModel, ServerModel,
};

verus! {

/// Splitting `name + "." + ext` on the first dot recovers `name` and
/// `ext`, as long as the name itself holds no dot.
pub proof fn lemma_split_at_first_dot(name: Seq<char>, ext: Seq<char>)
    requires
        forall|i: int| 0 <= i < name.len() ==> name[i] != '.',
    ensures
        spec_split_dot(name + seq!['.'] + ext) == Some((name, ext)),
{
    let f = name + seq!['.'] + ext;
    assert(f[name.len() as int] == '.');
    assert(forall|j: int| 0 <= j < name.len() ==> f[j] == name[j]);
    assert(is_first_dot(f, name.len() as int));
    let w = choose|w: int| is_first_dot(f, w);
    lemma_first_dot_unique(f, name.len() as int, w);
    assert(f.subrange(0, name.len() as int) =~= name);
    assert(f.subrange(name.len() as int + 1, f.len() as int) =~= ext);
}

/// Requesting `{name}.qcow2.zst` for an image present in the store returns
/// the stored artifact's bytes, and decompressing those bytes yields the
/// original source file, byte for byte. (A name that itself holds a dot is
/// split at that dot instead and cannot be addressed this way.)
pub proof fn lemma_artifact_round_trip(s: ServerModel, commit: Seq<char>, name: Seq<char>)
    requires
        server_inv(s),
        s.images.contains_key(name),
        forall|i: int| 0 <= i < name.len() ==> name[i] != '.',
    ensures
        spec_handle(s, ReqModel::Image { commit, file: name + ".qcow2.zst"@ })
            == RespModel::OkBytes(s.images[name].compressed),
        zstd_decompress_of(s.images[name].compressed) == s.images[name].source,
{
    reveal_strlit(".qcow2.zst");
    reveal_strlit("qcow2.zst");
    assert(".qcow2.zst"@ =~= seq!['.'] + "qcow2.zst"@);
    assert(name + ".qcow2.zst"@ =~= name + seq!['.'] + "qcow2.zst"@);
    lemma_split_at_first_dot(name, "qcow2.zst"@);
}

/// Requesting `{name}.qcow2.sha256` for an image present in the store
/// returns the lowercase hex SHA-256 digest of the original, uncompressed
/// source bytes. (Again only for names without a dot of their own.)
pub proof fn lemma_hash_is_source_digest(s: ServerModel, commit: Seq<char>, name: Seq<char>)
    requires
        server_inv(s),
        s.images.contains_key(name),
        forall|i: int| 0 <= i < name.len() ==> name[i] != '.',
    ensures
        spec_handle(s, ReqModel::Image { commit, file: name + ".qcow2.sha256"@ })
            == RespModel::OkText(spec_hex(sha256_of(s.images[name].source))),
{
    reveal_strlit(".qcow2.sha256");
    reveal_strlit("qcow2.sha256");
    reveal_strlit("qcow2.zst");
    assert(".qcow2.sha256"@ =~= seq!['.'] + "qcow2.sha256"@);
    assert(name + ".qcow2.sha256"@ =~= name + seq!['.'] + "qcow2.sha256"@);
    lemma_split_at_first_dot(name, "qcow2.sha256"@);
    assert("qcow2.sha256"@.len() == 12);
    assert("qcow2.zst"@.len() == 9);
}

/// The `latest` endpoint returns the version token, so every request
/// within one process lifetime sees the same value.
pub proof fn lemma_latest_constant(s: ServerModel)
    ensures
        spec_handle(s, ReqModel::Latest) == RespModel::OkText(s.token),
{
}

/// Requesting a name absent from the store answers 404 "image not found",
/// whatever the extension.
pub proof fn lemma_absent_image(
    s: ServerModel,
    commit: Seq<char>,
    file: Seq<char>,
    name: Seq<char>,
    ext: Seq<char>,
)
    requires
        spec_split_dot(file) == Some((name, ext)),
        !s.images.contains_key(name),
    ensures
        spec_handle(s, ReqModel::Image { commit, file }) == RespModel::NotFound(
            "image not found"@,
        ),
{
}

/// Requesting a present name with an extension that is neither `qcow2.zst`
/// nor `qcow2.sha256` answers 404 "unknown file extension".
pub proof fn lemma_unknown_extension(
    s: ServerModel,
    commit: Seq<char>,
    file: Seq<char>,
    name: Seq<char>,
    ext: Seq<char>,
)
    requires
        spec_split_dot(file) == Some((name, ext)),
        s.images.contains_key(name),
        ext != "qcow2.zst"@,
        ext != "qcow2.sha256"@,
    ensures
        spec_handle(s, ReqModel::Image { commit, file }) == RespModel::NotFound(
            "unknown file extension"@,
        ),
{
}

/// Requesting a file name without any dot answers 404 "missing file
/// extension".
pub proof fn lemma_missing_extension(s: ServerModel, commit: Seq<char>, file: Seq<char>)
    requires
        spec_split_dot(file) is None,
    ensures
        spec_handle(s, ReqModel::Image { commit, file }) == RespModel::NotFound(
            "missing file extension"@,
        ),
{
}

/// Over an empty store every image request is a 404 — "image not found"
/// when the file name has an extension, "missing file extension" when it
/// has none — while the root and `latest` endpoints answer normally.
pub proof fn lemma_empty_store(s: ServerModel, commit: Seq<char>, file: Seq<char>)
    requires
        s.images == Map::<Seq<char>, ImageModel>::empty(),
    ensures
        spec_split_dot(file) is Some ==> spec_handle(s, ReqModel::Image { commit, file })
            == RespModel::NotFound("image not found"@),
        spec_split_dot(file) is None ==> spec_handle(s, ReqModel::Image { commit, file })
            == RespModel::NotFound("missing file extension"@),
        spec_handle(s, ReqModel::Root) == RespModel::OkText(spec_root_message()),
        spec_handle(s, ReqModel::Latest) == RespModel::OkText(s.token),
{
}

/// The response is a function of the server's state and the request alone:
/// within one process run, repeating a request yields an identical answer.
pub proof fn lemma_repeat_request(s: ServerModel, req: ReqModel, r1: RespModel, r2: RespModel)
    requires
        r1 == spec_handle(s, req),
        r2 == spec_handle(s, req),
    ensures
        r1 == r2,
{
}

} // verus!
