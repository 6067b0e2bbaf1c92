//! A receipt log that is authenticated once: an unchanged file is not checked
//! again, and of a grown one only the new receipts are.
use crate::receipts;
use crate::receipts::{
    verify_persisted_chain_range, PersistedReceipt, ReceiptBody, ReceiptChainError,
};
use vstd::prelude::*;
use vstd::string::StringExecFns;

verus! {

/// What tells two versions of a file apart.
#[derive(Clone, Copy, Debug, PartialEq, Eq, Structural)]
pub struct FileStamp {
    pub len: u64,
    /// Nanoseconds since the Unix epoch, where the file system says.
    pub modified: Option<i128>,
}

/// How much work the cache did and saved.
#[derive(Clone, Copy, Debug, PartialEq, Eq, Structural)]
pub struct ReceiptCacheStats {
    /// Loads that were answered from the cache.
    pub hits: u64,
    /// Receipts authenticated with their whole chain.
    pub receipts_fully_verified: u64,
    /// Receipts authenticated as the new end of a known chain.
    pub receipts_tail_verified: u64,
}

impl Default for ReceiptCacheStats {
    fn default() -> (r: Self)
        ensures
            r.hits == 0,
            r.receipts_fully_verified == 0,
            r.receipts_tail_verified == 0,
    {
        ReceiptCacheStats { hits: 0, receipts_fully_verified: 0, receipts_tail_verified: 0 }
    }
}

/// A chain that was loaded, with the reason if it does not authenticate.
#[derive(Debug)]
pub struct LoadedReceiptChain {
    receipts: Vec<PersistedReceipt>,
    verify_error: Option<ReceiptChainError>,
}

/// A loaded chain over mathematical values.
#[verifier::ext_equal]
pub ghost struct LoadedModel {
    pub receipts: Seq<receipts::PersistedModel>,
    pub error: Option<ReceiptChainError>,
}

impl View for LoadedReceiptChain {
    type V = LoadedModel;

    closed spec fn view(&self) -> LoadedModel {
        LoadedModel {
            receipts: receipts::chain_views(self.receipts@),
            error: self.verify_error,
        }
    }
}

impl LoadedReceiptChain {
    /// The receipts in the order of the log, whether they authenticate or not.
    pub fn receipts(&self) -> (r: &Vec<PersistedReceipt>)
        ensures
            receipts::chain_views(r@) == self@.receipts,
    {
        &self.receipts
    }

    /// The number of receipts.
    pub fn len(&self) -> (r: usize)
        ensures
            r == self@.receipts.len(),
    {
        self.receipts.len()
    }

    /// Whether there is no receipt.
    pub fn is_empty(&self) -> (r: bool)
        ensures
            r == (self@.receipts.len() == 0),
    {
        self.receipts.len() == 0
    }

    /// Whether every receipt authenticates.
    pub fn verified(&self) -> (r: bool)
        ensures
            r == (self@.error is None),
    {
        self.verify_error.is_none()
    }

    /// Why the chain does not authenticate.
    pub fn verify_error(&self) -> (r: Option<ReceiptChainError>)
        ensures
            r == self@.error,
    {
        self.verify_error
    }
}

/// The cache over mathematical values.
#[verifier::ext_equal]
pub ghost struct CacheModel {
    pub path: Option<Seq<char>>,
    pub stamp: FileStamp,
    pub loaded: LoadedModel,
    pub stats: ReceiptCacheStats,
}

impl CacheModel {
    /// The file was loaded before and has not changed since. A file that is
    /// missing is known as an empty, authenticated chain.
    pub open spec fn is_hit(self, path: Seq<char>, stamp: Option<FileStamp>) -> bool {
        self.path == Some(path) && match stamp {
            Some(stamp) => self.stamp == stamp,
            None => self.stamp.len == 0 && self.loaded.receipts.len() == 0
                && self.loaded.error is None,
        }
    }

    /// How many receipts of a chain need no check: all of the cached chain if
    /// it authenticated and the loaded one continues it, and none otherwise.
    pub open spec fn known(
        self,
        path: Seq<char>,
        chain: Seq<receipts::PersistedModel>,
    ) -> nat {
        let cached = self.loaded.receipts;
        if self.path == Some(path) && self.loaded.error is None && cached.len() <= chain.len() && (
        forall|i: int| 0 <= i < cached.len() ==> (#[trigger] cached[i]).jws == chain[i].jws) {
            cached.len()
        } else {
            0
        }
    }

    /// The cache after a chain was loaded and checked.
    pub open spec fn loads(
        self,
        path: Seq<char>,
        stamp: Option<FileStamp>,
        chain: Seq<receipts::PersistedModel>,
        signed: Seq<Option<receipts::BodyModel>>,
    ) -> CacheModel {
        let known = self.known(path, chain);
        let fresh = (chain.len() - known) as u64;
        CacheModel {
            path: Some(path),
            stamp: match stamp {
                Some(stamp) => stamp,
                None => FileStamp { len: 0, modified: None },
            },
            loaded: LoadedModel {
                receipts: chain,
                error: receipts::first_error(chain, signed, known as int),
            },
            stats: if known == 0 {
                ReceiptCacheStats {
                    receipts_fully_verified: self.stats.receipts_fully_verified.wrapping_add(fresh),
                    ..self.stats
                }
            } else {
                ReceiptCacheStats {
                    receipts_tail_verified: self.stats.receipts_tail_verified.wrapping_add(fresh),
                    ..self.stats
                }
            },
        }
    }
}

/// An authenticated receipt log, kept in memory.
pub struct VerifiedReceiptCache {
    path: Option<String>,
    stamp: FileStamp,
    receipts: Vec<PersistedReceipt>,
    verify_error: Option<ReceiptChainError>,
    stats: ReceiptCacheStats,
}

impl View for VerifiedReceiptCache {
    type V = CacheModel;

    closed spec fn view(&self) -> CacheModel {
        CacheModel {
            path: receipts::text_option(self.path),
            stamp: self.stamp,
            loaded: LoadedModel {
                receipts: receipts::chain_views(self.receipts@),
                error: self.verify_error,
            },
            stats: self.stats,
        }
    }
}

fn clone_chain(chain: &Vec<PersistedReceipt>) -> (r: Vec<PersistedReceipt>)
    ensures
        receipts::chain_views(r@) == receipts::chain_views(chain@),
{
    let mut copy: Vec<PersistedReceipt> = Vec::new();
    let mut i: usize = 0;
    while i < chain.len()
        invariant
            i <= chain@.len(),
            copy@.len() == i,
            forall|k: int| 0 <= k < i ==> (#[trigger] copy@[k])@ == chain@[k]@,
        decreases chain@.len() - i,
    {
        copy.push(chain[i].clone());
        i = i + 1;
    }
    assert(receipts::chain_views(copy@) =~= receipts::chain_views(chain@));
    copy
}

impl Default for VerifiedReceiptCache {
    fn default() -> (r: VerifiedReceiptCache)
        ensures
            r@ == (CacheModel {
                path: None,
                stamp: FileStamp { len: 0, modified: None },
                loaded: LoadedModel { receipts: Seq::empty(), error: None },
                stats: ReceiptCacheStats {
                    hits: 0,
                    receipts_fully_verified: 0,
                    receipts_tail_verified: 0,
                },
            }),
    {
        VerifiedReceiptCache::new()
    }
}

impl VerifiedReceiptCache {
    /// A cache that has loaded nothing.
    pub fn new() -> (r: VerifiedReceiptCache)
        ensures
            r@ == (CacheModel {
                path: None,
                stamp: FileStamp { len: 0, modified: None },
                loaded: LoadedModel { receipts: Seq::empty(), error: None },
                stats: ReceiptCacheStats {
                    hits: 0,
                    receipts_fully_verified: 0,
                    receipts_tail_verified: 0,
                },
            }),
    {
        let r = VerifiedReceiptCache {
            path: None,
            stamp: FileStamp { len: 0, modified: None },
            receipts: Vec::new(),
            verify_error: None,
            stats: ReceiptCacheStats {
                hits: 0,
                receipts_fully_verified: 0,
                receipts_tail_verified: 0,
            },
        };
        assert(receipts::chain_views(r.receipts@) =~= Seq::empty());
        r
    }

    /// How much work the cache did and saved.
    pub fn stats(&self) -> (r: ReceiptCacheStats)
        ensures
            r == self@.stats,
    {
        self.stats
    }

    fn at_path(&self, path: &str) -> (r: bool)
        ensures
            r == (self@.path == Some(path@)),
    {
        match &self.path {
            Some(known) => *known == String::from_str(path),
            None => false,
        }
    }

    /// The cached chain, if the file at `path` is the one that was loaded last
    /// and still carries its stamp (`None` if there is no file).
    pub fn try_hit(&mut self, path: &str, stamp: Option<FileStamp>) -> (r: Option<
        LoadedReceiptChain,
    >)
        ensures
            old(self)@.is_hit(path@, stamp) ==> {
                &&& r matches Some(loaded) && loaded@ == old(self)@.loaded
                &&& final(self)@ == (CacheModel {
                    stats: ReceiptCacheStats {
                        hits: old(self)@.stats.hits.wrapping_add(1),
                        ..old(self)@.stats
                    },
                    ..old(self)@
                })
            },
            !old(self)@.is_hit(path@, stamp) ==> r is None && final(self)@ == old(self)@,
    {
        if !self.at_path(path) {
            return None;
        }
        let hit: bool = match stamp {
            Some(stamp) => self.stamp == stamp,
            None => self.stamp.len == 0 && self.receipts.len() == 0 && self.verify_error.is_none(),
        };
        if !hit {
            return None;
        }
        self.stats.hits = self.stats.hits.wrapping_add(1);
        Some(
            LoadedReceiptChain {
                receipts: clone_chain(&self.receipts),
                verify_error: self.verify_error,
            },
        )
    }

    /// How many receipts of a loaded chain need no check.
    pub fn known_prefix(&self, path: &str, chain: &Vec<PersistedReceipt>) -> (r: usize)
        ensures
            r == self@.known(path@, receipts::chain_views(chain@)),
            r <= chain@.len(),
    {
        let ghost cached = self@.loaded.receipts;
        let ghost views = receipts::chain_views(chain@);
        if !self.at_path(path) || self.verify_error.is_some() || self.receipts.len()
            > chain.len() {
            return 0;
        }
        let mut i: usize = 0;
        while i < self.receipts.len()
            invariant
                i <= self.receipts@.len() <= chain@.len(),
                cached == receipts::chain_views(self.receipts@),
                views == receipts::chain_views(chain@),
                cached == self@.loaded.receipts,
                forall|k: int| 0 <= k < i ==> (#[trigger] cached[k]).jws == views[k].jws,
            decreases self.receipts@.len() - i,
        {
            assert(cached[i as int] == self.receipts@[i as int]@);
            assert(views[i as int] == chain@[i as int]@);
            if self.receipts[i].jws_compact != chain[i].jws_compact {
                assert(cached[i as int].jws != views[i as int].jws);
                return 0;
            }
            i = i + 1;
        }
        self.receipts.len()
    }

    /// Takes a chain that was read from the file at `path`, checks what is not
    /// known of it, and keeps it. `signed` holds for each receipt the body
    /// that its signature vouches for; that of a known receipt is not used.
    pub fn load(
        &mut self,
        path: &str,
        stamp: Option<FileStamp>,
        chain: Vec<PersistedReceipt>,
        signed: &Vec<Option<ReceiptBody>>,
    ) -> (r: LoadedReceiptChain)
        requires
            signed@.len() == chain@.len(),
        ensures
            final(self)@ == old(self)@.loads(
                path@,
                stamp,
                receipts::chain_views(chain@),
                receipts::decoded_views(signed@),
            ),
            r@ == final(self)@.loaded,
    {
        let known: usize = self.known_prefix(path, &chain);
        let verify_error: Option<ReceiptChainError> = match verify_persisted_chain_range(
            &chain,
            signed,
            known,
        ) {
            Ok(_) => None,
            Err(error) => Some(error),
        };
        let fresh: u64 = (chain.len() - known) as u64;
        if known == 0 {
            self.stats.receipts_fully_verified =
            self.stats.receipts_fully_verified.wrapping_add(fresh);
        } else {
            self.stats.receipts_tail_verified =
            self.stats.receipts_tail_verified.wrapping_add(fresh);
        }
        self.path = Some(String::from_str(path));
        self.stamp = match stamp {
            Some(stamp) => stamp,
            None => FileStamp { len: 0, modified: None },
        };
        let receipts: Vec<PersistedReceipt> = clone_chain(&chain);
        self.receipts = chain;
        self.verify_error = verify_error;
        LoadedReceiptChain { receipts, verify_error }
    }
}

/// What the outside says of each receipt of a chain: the body it decodes to
/// and the body its signature vouches for depend on its signed form alone.
pub open spec fn answers_to(
    chain: Seq<receipts::PersistedModel>,
    signed: Seq<Option<receipts::BodyModel>>,
    decode: spec_fn(Seq<char>) -> receipts::BodyModel,
    vouch: spec_fn(Seq<char>) -> Option<receipts::BodyModel>,
) -> bool {
    &&& signed.len() == chain.len()
    &&& forall|i: int|
        0 <= i < chain.len() ==> (#[trigger] chain[i]).body == decode(chain[i].jws) && signed[i]
            == vouch(chain[i].jws)
}

/// What the signatures of a chain vouch for.
pub open spec fn vouched(
    chain: Seq<receipts::PersistedModel>,
    vouch: spec_fn(Seq<char>) -> Option<receipts::BodyModel>,
) -> Seq<Option<receipts::BodyModel>> {
    chain.map_values(|receipt: receipts::PersistedModel| vouch(receipt.jws))
}

/// A cached chain without an error authenticates as a whole.
pub open spec fn sound(
    cache: CacheModel,
    decode: spec_fn(Seq<char>) -> receipts::BodyModel,
    vouch: spec_fn(Seq<char>) -> Option<receipts::BodyModel>,
) -> bool {
    let chain = cache.loaded.receipts;
    &&& answers_to(chain, vouched(chain, vouch), decode, vouch)
    &&& cache.loaded.error == receipts::first_error(chain, vouched(chain, vouch), 0)
}

/// What the cache reports of a chain is what checking every receipt would:
/// the receipts that it does not check again change nothing in the answer.
pub proof fn law_cached_answers_equal_full_checks(
    cache: CacheModel,
    path: Seq<char>,
    stamp: Option<FileStamp>,
    chain: Seq<receipts::PersistedModel>,
    signed: Seq<Option<receipts::BodyModel>>,
    decode: spec_fn(Seq<char>) -> receipts::BodyModel,
    vouch: spec_fn(Seq<char>) -> Option<receipts::BodyModel>,
)
    requires
        sound(cache, decode, vouch),
        answers_to(chain, signed, decode, vouch),
    ensures
        cache.loads(path, stamp, chain, signed).loaded.error == receipts::first_error(
            chain,
            signed,
            0,
        ),
        sound(cache.loads(path, stamp, chain, signed), decode, vouch),
{
    let known = cache.known(path, chain);
    let cached = cache.loaded.receipts;
    assert(vouched(chain, vouch) =~= signed);
    if known > 0 {
        let old_signed = vouched(cached, vouch);
        assert(chain.take(known as int) =~= cached) by {
            assert forall|i: int| 0 <= i < known implies chain[i] == #[trigger] cached[i] by {
                assert(cached[i].jws == chain[i].jws);
                assert(cached[i].body == decode(cached[i].jws));
                assert(chain[i].body == decode(chain[i].jws));
                assert(chain[i] =~= cached[i]);
            }
        }
        assert(signed.take(known as int) =~= old_signed) by {
            assert forall|i: int| 0 <= i < known implies signed[i] == #[trigger] old_signed[i] by {
                assert(old_signed[i] == vouch(cached[i].jws));
                assert(chain[i].jws == cached[i].jws);
            }
        }
        receipts::law_checking_the_tail_suffices(cached, old_signed, chain, signed);
    }
}

/// A cached chain is handed out only for the file that it was read from, and
/// only while that file is as it was; a file that is gone is known only as an
/// empty chain without a fault.
pub proof fn law_only_an_unchanged_file_is_a_hit(
    cache: CacheModel,
    path: Seq<char>,
    stamp: FileStamp,
)
    ensures
        cache.is_hit(path, Some(stamp)) <==> cache.path == Some(path) && cache.stamp == stamp,
        cache.is_hit(path, None) ==> cache.path == Some(path) && cache.loaded.receipts.len() == 0
            && cache.loaded.error is None,
        cache.path == Some(path) && cache.stamp.len == 0 && cache.loaded.receipts.len() == 0
            && cache.loaded.error is None ==> cache.is_hit(path, None),
{
}

/// A load keeps the file's name, its state and its receipts, and counts what it
/// checked: every receipt, unless the chain continues the cached one of the
/// same file and that one is not empty and has no fault; the count of the whole
/// checks and that of the checked tails grow by no more than that.
pub proof fn law_a_load_counts_what_it_checks(
    cache: CacheModel,
    path: Seq<char>,
    stamp: Option<FileStamp>,
    chain: Seq<receipts::PersistedModel>,
    signed: Seq<Option<receipts::BodyModel>>,
)
    requires
        chain.len() <= usize::MAX,
        cache.stats.receipts_fully_verified + chain.len() <= u64::MAX,
        cache.stats.receipts_tail_verified + chain.len() <= u64::MAX,
    ensures
        ({
            let next = cache.loads(path, stamp, chain, signed);
            let cached = cache.loaded.receipts;
            let continued = cache.path == Some(path) && cache.loaded.error is None && cached.len()
                > 0 && cached.len() <= chain.len() && forall|i: int|
                0 <= i < cached.len() ==> (#[trigger] cached[i]).jws == chain[i].jws;
            &&& next.path == Some(path)
            &&& stamp matches Some(stamp) ==> next.stamp == stamp
            &&& next.loaded.receipts == chain
            &&& next.stats.hits == cache.stats.hits
            &&& next.stats.receipts_fully_verified == cache.stats.receipts_fully_verified + (
            if continued {
                0
            } else {
                chain.len() as int
            })
            &&& next.stats.receipts_tail_verified == cache.stats.receipts_tail_verified + (
            if continued {
                chain.len() - cached.len()
            } else {
                0
            })
        }),
{
}

/// Loading a file that has not changed gives the chain again, with no receipt
/// checked.
pub proof fn law_an_unchanged_file_is_a_hit(
    cache: CacheModel,
    path: Seq<char>,
    stamp: FileStamp,
    chain: Seq<receipts::PersistedModel>,
    signed: Seq<Option<receipts::BodyModel>>,
)
    ensures
        cache.loads(path, Some(stamp), chain, signed).is_hit(path, Some(stamp)),
        cache.loads(path, Some(stamp), chain, signed).loaded.receipts == chain,
{
}

} // verus!
