//! The store that the shortening engine works against, the in-memory store,
//! and the engine itself.

use crate::hexstr::{hex_encode, hex_lower};
use crate::url::{code_at, code_len, digest, digest_of, trim, trimmed, truncate_base32};
use vstd::hash_map::StringHashMap;
use vstd::prelude::*;

verus! {

/// Why a store did not save a record.
#[derive(Clone, Copy, Debug, PartialEq, Eq, Structural)]
pub enum StoreError {
    /// The backend could not be reached.
    StoreUnavailable,
    /// A record already holds the short code.
    StoreConflict,
}

/// Why the engine gave no short code.
#[derive(Clone, Copy, Debug, PartialEq, Eq, Structural)]
pub enum ShortenError {
    /// The backend could not be reached.
    StoreUnavailable,
    /// Every prefix of the digest, up to the whole of it, is held by a record
    /// of another digest.
    CollisionExhausted,
}

/// What a lookup of a candidate code means for the engine.
#[derive(Clone, Copy, Debug, PartialEq, Eq, Structural)]
pub enum Probe {
    /// A record of the same digest holds the code: the URL was shortened before.
    Hit,
    /// No record was found: the code can be claimed.
    Vacant,
    /// A record of another digest holds the code.
    Taken,
}

/// The records of a store as contracts see them: each short code with the
/// hexadecimal digest and the long URL kept under it.
pub type Records = Map<Seq<char>, (Seq<char>, Seq<char>)>;

/// A key-value store of shortened URLs.
///
/// The contracts speak of the store through `records` and `reliable`, which
/// are never run. A store written outside verified code has to give both a
/// body all the same: one that does not return for `records`, and `false` for
/// `reliable` unless it is sure of the stronger promises.
pub trait UrlStore {
    /// The records that the store holds.
    spec fn records(&self) -> Records;

    /// Whether the store is always reached and seen whole: a lookup then
    /// misses only what is absent, and a save fails only on a conflict.
    spec fn reliable(&self) -> bool;

    /// The digest and the long URL kept under a short code.
    fn find_by_short_url(&self, short_url: &str) -> (found: Option<(String, String)>)
        ensures
            found matches Some(record) ==> self.records().contains_key(short_url@)
                && self.records()[short_url@] == (record.0@, record.1@),
            self.reliable() && found is None ==> !self.records().contains_key(short_url@),
    ;

    /// A short code under which the digest is kept.
    fn find_by_digest(&self, digest: &Vec<u8>) -> (found: Option<String>)
        ensures
            found matches Some(code) ==> self.records().contains_key(code@)
                && self.records()[code@].0 == hex_lower(digest@),
            self.reliable() && found is None ==> forall|code: Seq<char>|
                self.records().contains_key(code) ==> (#[trigger] self.records()[code]).0
                    != hex_lower(digest@),
    ;

    /// Creates the record of a short code, unless one holds the code already.
    fn save(&mut self, short_url: &str, digest: &Vec<u8>, long_url: &str) -> (saved: Result<
        (),
        StoreError,
    >)
        ensures
            final(self).reliable() == old(self).reliable(),
            match saved {
                Ok(()) => !old(self).records().contains_key(short_url@) && final(self).records()
                    == old(self).records().insert(
                    short_url@,
                    (hex_lower(digest@), long_url@),
                ),
                Err(StoreError::StoreConflict) => old(self).records().contains_key(short_url@)
                    && final(self).records() == old(self).records(),
                Err(StoreError::StoreUnavailable) => !old(self).reliable()
                    && final(self).records() == old(self).records(),
            },
    ;
}

/// A store in the memory of the process: the records by short code, and an
/// index from each digest to a short code that holds it.
pub struct MemoryUrlStore {
    db: StringHashMap<(String, String)>,
    digests: StringHashMap<String>,
}

impl MemoryUrlStore {
    /// The index names only records of its digest, and misses no digest.
    #[verifier::type_invariant]
    spec fn indexed(&self) -> bool {
        &&& forall|hex: Seq<char>| #[trigger]
            self.digests@.contains_key(hex) ==> self.db@.contains_key(self.digests@[hex]@)
                && self.db@[self.digests@[hex]@].0@ == hex
        &&& forall|code: Seq<char>| #[trigger]
            self.db@.contains_key(code) ==> self.digests@.contains_key(self.db@[code].0@)
    }

    /// A store without records.
    pub fn new() -> (store: MemoryUrlStore)
        ensures
            store.records() == Map::<Seq<char>, (Seq<char>, Seq<char>)>::empty(),
    {
        let db = StringHashMap::new();
        let digests = StringHashMap::new();
        let store = MemoryUrlStore { db, digests };
        assert(store.records() =~= Map::<Seq<char>, (Seq<char>, Seq<char>)>::empty());
        store
    }

    /// The number of records.
    pub fn len(&self) -> (n: usize)
        ensures
            n == self.records().len(),
    {
        assert(self.records().dom() =~= self.db@.dom());
        self.db.len()
    }
}

impl UrlStore for MemoryUrlStore {
    closed spec fn records(&self) -> Records {
        Map::new(
            |code: Seq<char>| self.db@.contains_key(code),
            |code: Seq<char>| (self.db@[code].0@, self.db@[code].1@),
        )
    }

    open spec fn reliable(&self) -> bool {
        true
    }

    fn find_by_short_url(&self, short_url: &str) -> (found: Option<(String, String)>) {
        match self.db.get(short_url) {
            Some(record) => Some((record.0.clone(), record.1.clone())),
            None => None,
        }
    }

    fn find_by_digest(&self, digest: &Vec<u8>) -> (found: Option<String>) {
        proof {
            use_type_invariant(self);
        }
        let digest_hex = hex_encode(digest);
        match self.digests.get(digest_hex.as_str()) {
            Some(code) => Some(code.clone()),
            None => None,
        }
    }

    fn save(&mut self, short_url: &str, digest: &Vec<u8>, long_url: &str) -> (saved: Result<
        (),
        StoreError,
    >) {
        proof {
            use_type_invariant(&*self);
        }
        if self.db.contains_key(short_url) {
            return Err(StoreError::StoreConflict);
        }
        let digest_hex = hex_encode(digest);
        // The two maps agree only once both have the record, so the store is
        // taken apart and put together again.
        let mut taken = MemoryUrlStore::new();
        std::mem::swap(self, &mut taken);
        let MemoryUrlStore { mut db, mut digests } = taken;
        db.insert(short_url.to_owned(), (digest_hex.clone(), long_url.to_owned()));
        digests.insert(digest_hex, short_url.to_owned());
        *self = MemoryUrlStore { db, digests };
        proof {
            assert(self.records() =~= old(self).records().insert(
                short_url@,
                (hex_lower(digest@), long_url@),
            ));
        }
        Ok(())
    }
}

/// Whether the engine settles on a code: nothing holds it, or the record that
/// does has the digest.
pub open spec fn fits(records: Records, code: Seq<char>, digest_hex: Seq<char>) -> bool {
    records.contains_key(code) ==> records[code].0 == digest_hex
}

/// The first prefix length from `n` on whose code fits, or the first one past
/// the digest's length where none does.
pub open spec fn first_fit(records: Records, digest: Seq<u8>, n: int) -> int
    decreases digest.len() - n + 1,
{
    if n <= digest.len() && !fits(
        records,
        code_at(digest, n),
        hex_lower(digest),
    ) {
        first_fit(records, digest, n + 1)
    } else {
        n
    }
}

/// The records once the engine has settled on the code of the prefix length
/// `n`: as they were where a record holds the code, with a new record of the
/// digest and the long URL where none does.
pub open spec fn settled_at(records: Records, digest: Seq<u8>, long_url: Seq<char>, n: int) -> Records {
    let code = code_at(digest, n);
    if records.contains_key(code) {
        records
    } else {
        records.insert(code, (hex_lower(digest), long_url))
    }
}

/// What shortening gives against a reliable store, and the records after it:
/// the code of the shortest prefix of at least two bytes that fits, with a new
/// record where nothing held the code; `CollisionExhausted`, and the records as
/// they were, where no prefix fits.
pub open spec fn settled(records: Records, digest: Seq<u8>, long_url: Seq<char>) -> (
    Result<Seq<char>, ShortenError>,
    Records,
) {
    let n = first_fit(records, digest, 2);
    if n > digest.len() {
        (Err(ShortenError::CollisionExhausted), records)
    } else {
        (Ok(code_at(digest, n)), settled_at(records, digest, long_url, n))
    }
}

/// `settled` for a URL as a caller gives it: trimmed, then hashed.
pub open spec fn shortened(records: Records, url: Seq<char>) -> (
    Result<Seq<char>, ShortenError>,
    Records,
) {
    settled(records, digest_of(trimmed(url)), trimmed(url))
}

/// The long URL kept under a short code.
pub open spec fn resolved(records: Records, code: Seq<char>) -> Option<Seq<char>> {
    if records.contains_key(code) {
        Some(records[code].1)
    } else {
        None
    }
}

/// What holds of shortening against any store, reliable or not. A code that is
/// given comes from a prefix of at least two bytes and has five characters for
/// every four of them, rounded up; every shorter one is held; and the code is
/// held by a record of the digest: one that was there, or a new one. Without
/// a code the records are as they were, and on `CollisionExhausted` every
/// prefix is held.
pub open spec fn outcome(
    before: Records,
    digest: Seq<u8>,
    long_url: Seq<char>,
    result: Result<Seq<char>, ShortenError>,
    after: Records,
) -> bool {
    match result {
        Ok(code) => {
            &&& exists|n: int|
                {
                    &&& 2 <= n <= digest.len()
                    &&& code == #[trigger] code_at(digest, n)
                    &&& code.len() == code_len(n)
                    &&& forall|k: int|
                        2 <= k < n ==> before.contains_key(#[trigger] code_at(digest, k))
                }
            &&& if before.contains_key(code) {
                before[code].0 == hex_lower(digest) && after == before
            } else {
                after == before.insert(code, (hex_lower(digest), long_url))
            }
        },
        Err(ShortenError::CollisionExhausted) => {
            &&& after == before
            &&& forall|k: int|
                2 <= k <= digest.len() ==> before.contains_key(
                    #[trigger] code_at(digest, k),
                )
        },
        Err(ShortenError::StoreUnavailable) => after == before,
    }
}

/// The result of the engine with the code as contracts see it.
pub open spec fn code_view(result: Result<String, ShortenError>) -> Result<
    Seq<char>,
    ShortenError,
> {
    match result {
        Ok(code) => Ok(code@),
        Err(e) => Err(e),
    }
}

/// What a lookup of a candidate code means: a hit where the record found has
/// the digest, taken where it has another, vacant where none was found.
pub fn judge(found: &Option<(String, String)>, digest_hex: &String) -> (probe: Probe)
    ensures
        probe == match found {
            Some(record) => if record.0@ == digest_hex@ {
                Probe::Hit
            } else {
                Probe::Taken
            },
            None => Probe::Vacant,
        },
{
    match found {
        Some(record) => if record.0 == *digest_hex {
            Probe::Hit
        } else {
            Probe::Taken
        },
        None => Probe::Vacant,
    }
}

/// Finds the short code of a digest, trying its prefixes from two bytes up to
/// the whole of it, the shortest first. A code that holds a record of the
/// digest is returned and nothing is written; a code that nothing holds is
/// claimed with a new record; a code that is held otherwise, or lost to
/// another writer, makes way for the next longer one. `CollisionExhausted`
/// where the whole digest made way too, `StoreUnavailable` where a save could
/// not reach the backend.
pub fn shorten_digest<S: UrlStore>(store: &mut S, digest: &Vec<u8>, long_url: &str) -> (result:
    Result<String, ShortenError>)
    ensures
        final(store).reliable() == old(store).reliable(),
        outcome(
            old(store).records(),
            digest@,
            long_url@,
            code_view(result),
            final(store).records(),
        ),
        old(store).reliable() ==> (code_view(result), final(store).records()) == settled(
            old(store).records(),
            digest@,
            long_url@,
        ),
        old(store).reliable() ==> (result matches Ok(code) ==> code@.len() == code_len(
            first_fit(old(store).records(), digest@, 2),
        )),
{
    let ghost before = store.records();
    let digest_hex = hex_encode(digest);
    let len = digest.len();
    if len < 2 {
        return Err(ShortenError::CollisionExhausted);
    }
    let mut n: usize = 2;
    loop
        invariant
            2 <= n <= len,
            len == digest@.len(),
            digest_hex@ == hex_lower(digest@),
            store.records() == before,
            before == old(store).records(),
            store.reliable() == old(store).reliable(),
            forall|k: int|
                2 <= k < n ==> before.contains_key(#[trigger] code_at(digest@, k)),
            store.reliable() ==> first_fit(before, digest@, 2) == first_fit(
                before,
                digest@,
                n as int,
            ),
        decreases len - n,
    {
        let code = truncate_base32(digest, n);
        let found = store.find_by_short_url(code.as_str());
        match judge(&found, &digest_hex) {
            Probe::Hit => {
                return Ok(code);
            },
            Probe::Taken => {},
            Probe::Vacant => {
                match store.save(code.as_str(), digest, long_url) {
                    Ok(()) => {
                        return Ok(code);
                    },
                    Err(StoreError::StoreConflict) => {},
                    Err(StoreError::StoreUnavailable) => {
                        return Err(ShortenError::StoreUnavailable);
                    },
                }
            },
        }
        assert(store.reliable() ==> first_fit(before, digest@, n as int) == first_fit(
            before,
            digest@,
            n + 1,
        ));
        if n == len {
            assert(first_fit(before, digest@, len + 1) == len + 1);
            return Err(ShortenError::CollisionExhausted);
        }
        n = n + 1;
    }
}

/// The short code of a long URL: the URL is trimmed and hashed, and the
/// shortest prefix of the digest that fits becomes the code. Shortening the
/// same URL again gives the same code and writes nothing.
pub fn shorten<S: UrlStore>(store: &mut S, long_url: &str) -> (result: Result<
    String,
    ShortenError,
>)
    ensures
        final(store).reliable() == old(store).reliable(),
        outcome(
            old(store).records(),
            digest_of(trimmed(long_url@)),
            trimmed(long_url@),
            code_view(result),
            final(store).records(),
        ),
        old(store).reliable() ==> (code_view(result), final(store).records()) == shortened(
            old(store).records(),
            long_url@,
        ),
        old(store).reliable() ==> (result matches Ok(code) ==> code@.len() == code_len(
            first_fit(
                old(store).records(),
                digest_of(trimmed(long_url@)),
                2,
            ),
        )),
        digest_of(trimmed(long_url@)).len() == 32,
{
    let long_url = trim(long_url);
    let hash = digest(long_url);
    shorten_digest(store, &hash, long_url)
}

/// The long URL that a short code stands for.
pub fn resolve<S: UrlStore>(store: &S, short_url: &str) -> (long_url: Option<String>)
    ensures
        long_url matches Some(url) ==> resolved(store.records(), short_url@) == Some(url@),
        store.reliable() && long_url is None ==> resolved(store.records(), short_url@) is None,
{
    match store.find_by_short_url(short_url) {
        Some(record) => Some(record.1),
        None => None,
    }
}

/// The prefix length that `first_fit` gives is the least one from `n` on whose
/// code fits: no length before it fits, and it fits itself unless it lies past
/// the digest.
pub proof fn lemma_first_fit_least(records: Records, digest: Seq<u8>, n: int)
    ensures
        n <= first_fit(records, digest, n),
        n <= digest.len() + 1 ==> first_fit(records, digest, n) <= digest.len() + 1,
        first_fit(records, digest, n) <= digest.len() ==> fits(
            records,
            code_at(digest, first_fit(records, digest, n)),
            hex_lower(digest),
        ),
        forall|k: int|
            n <= k < first_fit(records, digest, n) ==> !fits(
                records,
                #[trigger] code_at(digest, k),
                hex_lower(digest),
            ),
    decreases digest.len() - n + 1,
{
    if n <= digest.len() && !fits(
        records,
        code_at(digest, n),
        hex_lower(digest),
    ) {
        lemma_first_fit_least(records, digest, n + 1);
    }
}

/// Once the engine has settled on a code, it settles on the same code again.
proof fn lemma_first_fit_again(records: Records, digest: Seq<u8>, long_url: Seq<char>, n: int)
    requires
        first_fit(records, digest, n) <= digest.len(),
    ensures
        first_fit(settled_at(records, digest, long_url, first_fit(records, digest, n)), digest, n)
            == first_fit(records, digest, n),
    decreases digest.len() - n + 1,
{
    let hex = hex_lower(digest);
    if n <= digest.len() && !fits(records, code_at(digest, n), hex) {
        lemma_first_fit_again(records, digest, long_url, n + 1);
    }
}

/// Shortening is idempotent: against the records that shortening a URL left,
/// shortening the same URL gives the same result and leaves the records as
/// they are.
pub proof fn lemma_shorten_idempotent(records: Records, url: Seq<char>)
    ensures
        shortened(shortened(records, url).1, url) == shortened(records, url),
{
    let long_url = trimmed(url);
    let digest = digest_of(long_url);
    let n = first_fit(records, digest, 2);
    if n <= digest.len() {
        lemma_first_fit_again(records, digest, long_url, 2);
    }
}

/// Resolving the code that shortening gave finds the trimmed URL, unless the
/// code was held before by a record of the same digest and another URL.
pub proof fn lemma_resolve_shortened(records: Records, url: Seq<char>)
    requires
        shortened(records, url).0 matches Ok(code) && (records.contains_key(code)
            ==> records[code].1 == trimmed(url)),
    ensures
        resolved(shortened(records, url).1, shortened(records, url).0->Ok_0) == Some(
            trimmed(url),
        ),
{
}

/// A digest that no record held is held by one record after shortening: the
/// one of the code that was given.
pub proof fn lemma_shorten_claims_once(records: Records, url: Seq<char>)
    requires
        forall|code: Seq<char>| #[trigger]
            records.contains_key(code) ==> records[code].0 != hex_lower(
                digest_of(trimmed(url)),
            ),
    ensures
        shortened(records, url).0 matches Ok(given) ==> forall|code: Seq<char>|
            shortened(records, url).1.contains_key(code) && (#[trigger] shortened(
                records,
                url,
            ).1[code]).0 == hex_lower(
                digest_of(trimmed(url)),
            ) ==> code == given,
{
}

/// Shortening leaves every record as it was, and adds at most the record of
/// the code that it gives.
pub proof fn lemma_shorten_keeps_records(records: Records, url: Seq<char>)
    ensures
        forall|code: Seq<char>| #[trigger]
            records.contains_key(code) ==> shortened(records, url).1.contains_key(code)
                && shortened(records, url).1[code] == records[code],
        forall|code: Seq<char>| #[trigger]
            shortened(records, url).1.contains_key(code) ==> records.contains_key(code)
                || shortened(records, url).0 == Ok::<Seq<char>, ShortenError>(code),
{
}

} // verus!
