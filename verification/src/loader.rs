//! The loader facade: seeds the ledger for a batch of resource identifiers
//! and offers the lookup API used once loading has completed.
//!
//! The loader itself performs no I/O. A platform driver dispatches one fetch
//! per seeded identifier, reports each result through [`LoadBatch::resolve`],
//! and calls [`LoadBatch::tick`] at a fixed interval until the batch is done.

use vstd::prelude::*;
use crate::batch::LoadBatch;
use crate::outcome::Error;
use crate::outcome::LoadOutcome;
use crate::result_map::ResultMap;

verus! {

/// Declares `image::DynamicImage`, the image crate's decoded image, so that
/// [`Loader::get_image`] can hand it through opaquely.
#[verifier::external_type_specification]
#[verifier::external_body]
pub struct ExDynamicImage(image::DynamicImage);

/// Whether these bytes decode as a PNG image under the image crate's
/// default limits.
pub uninterp spec fn png_decodable(bytes: Seq<u8>) -> bool;

/// Relies on `image::codecs::png::PngDecoder::with_limits` and
/// `image::DynamicImage::from_decoder`, under `image::Limits::default()` (a
/// fixed constant): the PNG decoder reads the byte buffer alone and consults
/// no global state, so the result depends on nothing but `bytes`.
#[verifier::external_body]
fn decode_image(bytes: &Vec<u8>) -> (r: Result<image::DynamicImage, image::ImageError>)
    ensures
        r is Ok <==> png_decodable(bytes@),
{
    let reader = std::io::Cursor::new(bytes.as_slice());
    let decoder = image::codecs::png::PngDecoder::with_limits(reader, image::Limits::default())?;
    image::DynamicImage::from_decoder(decoder)
}

pub struct Loader {
}

impl Loader {
    /// Starts one load batch over `paths`: seeds the ledger with one
    /// `Pending` entry per distinct identifier and hands back the batch in
    /// its initial `Polling` state. Convenience entry point; identical to
    /// [`Loader::load_with_progress`], whose per-tick progress report a
    /// driver may simply discard or log.
    pub fn load(paths: &Vec<String>) -> (b: LoadBatch)
        ensures
            b.wf(),
            !b.done(),
            forall|j: int|
                0 <= j < paths@.len() ==> b.ledger().contains_id(paths@[j]@),
            forall|id: Seq<char>|
                b.ledger().contains_id(id) ==> exists|j: int|
                    0 <= j < paths@.len() && paths@[j]@ == id,
            forall|id: Seq<char>|
                b.ledger().contains_id(id) ==> b.ledger().outcome_of(id) is Pending,
            b.ledger().resolved_count() == 0,
            b.ledger().total() <= paths@.len(),
    {
        Self::load_with_progress(paths)
    }

    /// Seeds the ledger for one batch over `paths`.
    ///
    /// The key set is fixed here, before any fetch starts: exactly one entry
    /// per distinct requested identifier, each `Pending`, so the progress
    /// denominator never changes during the batch. A driver then fetches
    /// every identifier concurrently, resolves each entry once, and polls the
    /// batch until it is done; each tick's `Progress` is what the original
    /// progress callback is fed with.
    pub fn load_with_progress(paths: &Vec<String>) -> (b: LoadBatch)
        ensures
            b.wf(),
            !b.done(),
            forall|j: int|
                0 <= j < paths@.len() ==> b.ledger().contains_id(paths@[j]@),
            forall|id: Seq<char>|
                b.ledger().contains_id(id) ==> exists|j: int|
                    0 <= j < paths@.len() && paths@[j]@ == id,
            forall|id: Seq<char>|
                b.ledger().contains_id(id) ==> b.ledger().outcome_of(id) is Pending,
            b.ledger().resolved_count() == 0,
            b.ledger().total() <= paths@.len(),
    {
        let mut map = ResultMap::new();
        let n = paths.len();
        let mut k: usize = 0;
        while k < n
            invariant
                0 <= k <= n,
                n == paths@.len(),
                map.wf(),
                forall|j: int| 0 <= j < k ==> map.contains_id(paths@[j]@),
                forall|id: Seq<char>|
                    map.contains_id(id) ==> exists|j: int| 0 <= j < k && paths@[j]@ == id,
                forall|id: Seq<char>| map.contains_id(id) ==> map.outcome_of(id) is Pending,
                map.resolved_count() == 0,
                map.total() <= k,
            decreases n - k,
        {
            let ghost pre = map;
            map.seed(&paths[k]);
            proof {
                let p = paths@[k as int]@;
                if !pre.contains_id(p) {
                    assert(map.ids() == pre.ids().push(p));
                    assert(map.ids()[map.ids().len() - 1] == p);
                    assert(map.contains_id(p)) by {
                        assert(map.ids()[map.ids().len() - 1] == p);
                    }
                    crate::result_map::lemma_count_terminal_agree(
                        map.outcomes(),
                        pre.outcomes(),
                        pre.outcomes().len() as int,
                    );
                }
                assert forall|id: Seq<char>| map.contains_id(id) implies (exists|j: int|
                    0 <= j < k + 1 && paths@[j]@ == id) && map.outcome_of(id) is Pending by {
                    let w = choose|w: int| 0 <= w < map.ids().len() && map.ids()[w] == id;
                    map.lemma_index_of(id);
                    if w < pre.ids().len() {
                        assert(pre.contains_id(id)) by {
                            assert(pre.ids()[w] == id);
                        }
                        pre.lemma_index_of(id);
                        assert(pre.outcome_of(id) is Pending);
                        assert(map.index_of(id) == pre.index_of(id));
                        assert(map.outcomes()[pre.index_of(id)] == pre.outcomes()[pre.index_of(
                            id,
                        )]);
                    } else {
                        assert(!pre.contains_id(p));
                        assert(id == p);
                        assert(map.index_of(id) == map.ids().len() - 1);
                        assert(map.outcomes()[map.ids().len() - 1] == LoadOutcome::Pending);
                    }
                }
                assert forall|j: int| 0 <= j < k + 1 implies map.contains_id(paths@[j]@) by {
                    if j < k {
                        let w = choose|w: int| 0 <= w < pre.ids().len() && pre.ids()[w] == paths@[j]@;
                        assert(map.ids()[w] == paths@[j]@);
                    }
                }
            }
            k = k + 1;
        }
        LoadBatch::from_map(map)
    }

    /// Looks up the bytes fetched for `path` in a finished ledger.
    ///
    /// Returns `Error::NotLoaded` when `path` was never requested (or has not
    /// resolved), `Error::LoadFailed` when its fetch terminated in failure,
    /// and otherwise a reference to the exact bytes that were fetched.
    pub fn get<'a>(loaded: &'a ResultMap, path: &String) -> (r: Result<&'a Vec<u8>, Error>)
        requires
            loaded.wf(),
        ensures
            r is Ok <==> loaded.contains_id(path@) && loaded.outcome_of(path@) is Success,
            r matches Ok(bytes) ==> loaded.outcome_of(path@) == LoadOutcome::Success(
                *bytes,
            ),
            r matches Err(e) ==> match e {
                Error::NotLoaded => !loaded.contains_id(path@) || loaded.outcome_of(
                    path@,
                ) is Pending,
                Error::LoadFailed => loaded.contains_id(path@) && loaded.outcome_of(
                    path@,
                ) is Failure,
                Error::Image(_) => false,
            },
    {
        loaded.get(path)
    }

    /// Decodes the bytes fetched for `path` as a PNG image: a decoder
    /// layered on [`Loader::get`]. A lookup failure propagates unchanged; a
    /// fetch that succeeded but did not yield a decodable image is reported
    /// as `Error::Image` without touching the ledger.
    pub fn get_image(loaded: &ResultMap, path: &String) -> (r: Result<
        image::DynamicImage,
        Error,
    >)
        requires
            loaded.wf(),
        ensures
            r is Ok <==> loaded.contains_id(path@) && loaded.outcome_of(path@) is Success
                && png_decodable(loaded.outcome_of(path@).success_bytes()),
            r matches Err(e) ==> match e {
                Error::NotLoaded => !loaded.contains_id(path@) || loaded.outcome_of(
                    path@,
                ) is Pending,
                Error::LoadFailed => loaded.contains_id(path@) && loaded.outcome_of(
                    path@,
                ) is Failure,
                Error::Image(_) => loaded.contains_id(path@) && loaded.outcome_of(
                    path@,
                ) is Success && !png_decodable(loaded.outcome_of(path@).success_bytes()),
            },
    {
        match Self::get(loaded, path) {
            Err(e) => Err(e),
            Ok(bytes) => match decode_image(bytes) {
                Ok(img) => Ok(img),
                Err(e) => Err(Error::Image(e)),
            },
        }
    }
}

} // verus!
