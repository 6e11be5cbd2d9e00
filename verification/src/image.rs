//! Prepared images: one source file turned into a compressed artifact and a
//! content hash.

use vstd::prelude::*;
use crate::hexstr::spec_hex;
use crate::outside::{hex_encode, sha256_bytes, sha256_of, zstd_compress, zstd_decompress_of};

verus! {

/// The mathematical content of a prepared image: the source bytes it was
/// made from, the compressed artifact, and the content hash.
pub struct ImageModel {
    pub source: Seq<u8>,
    pub compressed: Seq<u8>,
    pub hash: Seq<char>,
}

/// What preparation promises of an image: the artifact decompresses back to
/// the source, and the hash is the lowercase hex SHA-256 digest of the
/// source bytes (not of the artifact).
pub open spec fn image_inv(m: ImageModel) -> bool {
    &&& zstd_decompress_of(m.compressed) == m.source
    &&& m.hash == spec_hex(sha256_of(m.source))
}

/// An image ready to be served: its name, the zstd-compressed artifact, and
/// the lowercase hex SHA-256 digest of the uncompressed source.
pub struct PreparedImage {
    pub name: String,
    pub compressed: Vec<u8>,
    pub hash: String,
    pub source: Ghost<Seq<u8>>,
}

impl View for PreparedImage {
    type V = ImageModel;

    open spec fn view(&self) -> ImageModel {
        ImageModel { source: self.source@, compressed: self.compressed@, hash: self.hash@ }
    }
}

impl PreparedImage {
    /// The image is well formed: its artifact and hash really belong to its
    /// source bytes.
    pub open spec fn wf(&self) -> bool {
        image_inv(self@)
    }

    pub open spec fn spec_name(&self) -> Seq<char> {
        self.name@
    }

    /// Compress and hash one source image. On success the result is well
    /// formed; compression failing yields the underlying error's message.
    pub fn prepare(name: String, source: &Vec<u8>) -> (r: Result<PreparedImage, String>)
        ensures
            r matches Ok(img) ==> {
                &&& img.wf()
                &&& img.spec_name() == name@
                &&& img@.source == source@
            },
    {
        match zstd_compress(source.as_slice()) {
            Err(e) => Err(e),
            Ok(compressed) => {
                let digest = sha256_bytes(source.as_slice());
                let hash = hex_encode(digest.as_slice());
                Ok(PreparedImage { name, compressed, hash, source: Ghost(source@) })
            },
        }
    }

    /// A fresh copy of the compressed artifact's bytes.
    pub fn artifact_bytes(&self) -> (r: Vec<u8>)
        ensures
            r@ == self@.compressed,
    {
        vstd::slice::slice_to_vec(self.compressed.as_slice())
    }

    /// A fresh copy of the content hash.
    pub fn hash_string(&self) -> (r: String)
        ensures
            r@ == self@.hash,
    {
        self.hash.clone()
    }
}

/// The derived name of an eligible source file: a file is eligible when its
/// name ends in `.qcow2` with a nonempty part before the suffix, and that
/// part is the image's name.
pub open spec fn spec_image_name(f: Seq<char>) -> Option<Seq<char>> {
    if f.len() > 6 && f.subrange(f.len() - 6, f.len() as int) == ".qcow2"@ {
        Some(f.subrange(0, f.len() - 6))
    } else {
        None
    }
}

/// Decide whether a directory entry's file name marks a raw image, and if
/// so derive the image name by stripping the `.qcow2` suffix.
pub fn image_name_of(file_name: &String) -> (r: Option<String>)
    ensures
        match r {
            Some(n) => spec_image_name(file_name@) == Some(n@),
            None => spec_image_name(file_name@) is None,
        },
{
    let f = file_name.as_str();
    let len = f.unicode_len();
    proof {
        reveal_strlit(".qcow2");
    }
    if len < 7 {
        return None;
    }
    let suffix_ok = f.get_char(len - 6) == '.' && f.get_char(len - 5) == 'q' && f.get_char(
        len - 4,
    ) == 'c' && f.get_char(len - 3) == 'o' && f.get_char(len - 2) == 'w' && f.get_char(len - 1)
        == '2';
    if suffix_ok {
        proof {
            assert(f@.subrange(f@.len() - 6, f@.len() as int) =~= ".qcow2"@);
        }
        let stem = f.substring_char(0, len - 6);
        Some(stem.to_owned())
    } else {
        proof {
            let s = f@.subrange(f@.len() - 6, f@.len() as int);
            assert(s[0] == f@[f@.len() - 6]);
            assert(s[1] == f@[f@.len() - 5]);
            assert(s[2] == f@[f@.len() - 4]);
            assert(s[3] == f@[f@.len() - 3]);
            assert(s[4] == f@[f@.len() - 2]);
            assert(s[5] == f@[f@.len() - 1]);
            assert(s != ".qcow2"@);
        }
        None
    }
}

} // verus!
