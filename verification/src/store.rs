//! The prepared-image store: built once from a directory listing, read-only
//! afterwards, modelled as a map from image name to image content.

use vstd::prelude::*;
use crate::image::{image_inv, image_name_of, spec_image_name, ImageModel, PreparedImage};

verus! {

/// Why building the catalog failed. The whole build fails as soon as one
/// image cannot be prepared: no partial catalog is ever served.
#[derive(Debug)]
pub enum CatalogError {
    /// The source directory could not be read.
    DirectoryAccess { cause: String },
    /// One image's hashing or compression failed.
    ImagePreparation { name: String, cause: String },
}

/// The mapping that a sequence of prepared images denotes: later entries
/// overwrite earlier ones of the same name (last write wins).
pub open spec fn map_of(s: Seq<PreparedImage>) -> Map<Seq<char>, ImageModel>
    decreases s.len(),
{
    if s.len() == 0 {
        Map::empty()
    } else {
        map_of(s.drop_last()).insert(s.last().spec_name(), s.last()@)
    }
}

/// Every image of the mapping is well formed.
pub open spec fn store_inv(m: Map<Seq<char>, ImageModel>) -> bool {
    forall|n: Seq<char>| #[trigger] m.contains_key(n) ==> image_inv(m[n])
}

/// An immutable mapping from image name to prepared image.
pub struct Store {
    pub entries: Vec<PreparedImage>,
}

impl View for Store {
    type V = Map<Seq<char>, ImageModel>;

    open spec fn view(&self) -> Map<Seq<char>, ImageModel> {
        map_of(self.entries@)
    }
}

proof fn lemma_map_of_absent(s: Seq<PreparedImage>, k: Seq<char>)
    requires
        forall|j: int| 0 <= j < s.len() ==> (#[trigger] s[j]).spec_name() != k,
    ensures
        !map_of(s).contains_key(k),
    decreases s.len(),
{
    if s.len() > 0 {
        assert(s.last() == s[s.len() - 1]);
        assert(forall|j: int| 0 <= j < s.drop_last().len() ==> s.drop_last()[j] == s[j]);
        lemma_map_of_absent(s.drop_last(), k);
    }
}

proof fn lemma_map_of_found(s: Seq<PreparedImage>, i: int, k: Seq<char>)
    requires
        0 <= i < s.len(),
        s[i].spec_name() == k,
        forall|j: int| i < j < s.len() ==> (#[trigger] s[j]).spec_name() != k,
    ensures
        map_of(s).contains_key(k),
        map_of(s)[k] == s[i]@,
    decreases s.len(),
{
    assert(s.last() == s[s.len() - 1]);
    if i < s.len() - 1 {
        assert(forall|j: int| 0 <= j < s.drop_last().len() ==> s.drop_last()[j] == s[j]);
        lemma_map_of_found(s.drop_last(), i, k);
    }
}

proof fn lemma_map_of_inv(s: Seq<PreparedImage>)
    requires
        forall|i: int| 0 <= i < s.len() ==> (#[trigger] s[i]).wf(),
    ensures
        store_inv(map_of(s)),
    decreases s.len(),
{
    if s.len() > 0 {
        assert(s.last() == s[s.len() - 1]);
        assert(forall|j: int| 0 <= j < s.drop_last().len() ==> s.drop_last()[j] == s[j]);
        lemma_map_of_inv(s.drop_last());
    }
}

impl Store {
    /// Every entry is well formed.
    pub open spec fn wf(&self) -> bool {
        forall|i: int| 0 <= i < self.entries@.len() ==> (#[trigger] self.entries@[i]).wf()
    }

    /// A well-formed store maps every name it holds to a well-formed image.
    pub proof fn lemma_wf_inv(&self)
        requires
            self.wf(),
        ensures
            store_inv(self@),
    {
        lemma_map_of_inv(self.entries@);
    }

    /// An empty store.
    pub fn new() -> (s: Store)
        ensures
            s@ == Map::<Seq<char>, ImageModel>::empty(),
            s.wf(),
    {
        Store { entries: Vec::new() }
    }

    /// Add one prepared image; an image of the same name already present is
    /// overwritten (last write wins).
    pub fn add(&mut self, img: PreparedImage)
        ensures
            final(self)@ == old(self)@.insert(img.spec_name(), img@),
            old(self).wf() && img.wf() ==> final(self).wf(),
    {
        self.entries.push(img);
        proof {
            assert(self.entries@.drop_last() =~= old(self).entries@);
        }
    }

    /// Look an image up by name; `None` exactly when the name is absent.
    pub fn lookup(&self, name: &String) -> (r: Option<&PreparedImage>)
        ensures
            match r {
                Some(img) => {
                    &&& self@.contains_key(name@)
                    &&& img@ == self@[name@]
                    &&& img.spec_name() == name@
                },
                None => !self@.contains_key(name@),
            },
    {
        let n = self.entries.len();
        let mut i: usize = n;
        while i > 0
            invariant
                i <= n,
                n == self.entries@.len(),
                forall|j: int| i <= j < n ==> (#[trigger] self.entries@[j]).spec_name() != name@,
            decreases i,
    {
            i = i - 1;
            if self.entries[i].name == *name {
                proof {
                    lemma_map_of_found(self.entries@, i as int, name@);
                }
                return Some(&self.entries[i]);
            }
        }
        proof {
            lemma_map_of_absent(self.entries@, name@);
        }
        None
    }
}

/// A directory listing as the builder's model sees it: file name and file
/// contents, in enumeration order.
pub open spec fn spec_files_view(s: Seq<(String, Vec<u8>)>) -> Seq<(Seq<char>, Seq<u8>)> {
    s.map_values(|p: (String, Vec<u8>)| (p.0@, p.1@))
}

/// The source bytes that a directory listing assigns to each image name:
/// ineligible files are skipped, and of two files with the same derived
/// name the later one wins.
pub open spec fn spec_sources(files: Seq<(Seq<char>, Seq<u8>)>) -> Map<Seq<char>, Seq<u8>>
    decreases files.len(),
{
    if files.len() == 0 {
        Map::empty()
    } else {
        let m = spec_sources(files.drop_last());
        match spec_image_name(files.last().0) {
            Some(n) => m.insert(n, files.last().1),
            None => m,
        }
    }
}

/// The store serves exactly the images that the listing assigns: same names,
/// and each image made from the listing's bytes for that name.
pub open spec fn store_matches(
    m: Map<Seq<char>, ImageModel>,
    sources: Map<Seq<char>, Seq<u8>>,
) -> bool {
    &&& m.dom() == sources.dom()
    &&& forall|n: Seq<char>| #[trigger] m.contains_key(n) ==> m[n].source == sources[n]
}

/// Build the store from a directory listing: skip ineligible entries,
/// prepare each eligible file, and fail fast on the first image whose
/// preparation fails.
pub fn build_store(files: &Vec<(String, Vec<u8>)>) -> (r: Result<Store, CatalogError>)
    ensures
        match r {
            Ok(st) => {
                &&& st.wf()
                &&& store_matches(st@, spec_sources(spec_files_view(files@)))
            },
            Err(e) => e matches CatalogError::ImagePreparation { name: n, cause: _ }
                && exists|j: int|
                    0 <= j < files@.len() && spec_image_name(
                        spec_files_view(files@)[j].0,
                    ) == Some(n@),
        },
{
    let ghost fv = spec_files_view(files@);
    let mut st = Store::new();
    let mut i: usize = 0;
    while i < files.len()
        invariant
            i <= files@.len(),
            fv == spec_files_view(files@),
            st.wf(),
            store_matches(st@, spec_sources(fv.take(i as int))),
        decreases files@.len() - i,
    {
        let pair = &files[i];
        proof {
            assert(fv.take(i + 1).drop_last() =~= fv.take(i as int));
            assert(fv.take(i + 1).last() == fv[i as int]);
        }
        match image_name_of(&pair.0) {
            None => {
            },
            Some(name) => {
                match PreparedImage::prepare(name.clone(), &pair.1) {
                    Ok(img) => {
                        st.add(img);
                        proof {
                            assert(st@.dom() =~= spec_sources(fv.take(i + 1)).dom());
                        }
                    },
                    Err(cause) => {
                        proof {
                            assert(spec_image_name(fv[i as int].0) == Some(name@));
                        }
                        return Err(CatalogError::ImagePreparation { name, cause });
                    },
                }
            },
        }
        i = i + 1;
    }
    proof {
        assert(fv.take(files@.len() as int) =~= fv);
    }
    Ok(st)
}

} // verus!
