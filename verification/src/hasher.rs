//! Multi-algorithm streaming hashing (MD5, SHA-1, SHA-256, SHA-512) and
//! the report signature.

use vstd::prelude::*;
use sha2::Digest;
use vstd::string::StringSliceAdditionalSpecFns;
use crate::text::{hex_encode, hex_lower, push_char};

verus! {

/// A supported digest algorithm.
#[allow(non_camel_case_types)]
#[derive(Clone, Copy, Debug, PartialEq, Eq, Hash, Structural)]
pub enum HashAlgorithm {
    MD5,
    SHA1,
    SHA256,
    SHA512,
}

/// Position of an algorithm in the fixed order MD5, SHA1, SHA256, SHA512.
pub open spec fn algorithm_rank(a: HashAlgorithm) -> nat {
    match a {
        HashAlgorithm::MD5 => 0,
        HashAlgorithm::SHA1 => 1,
        HashAlgorithm::SHA256 => 2,
        HashAlgorithm::SHA512 => 3,
    }
}

/// The algorithm's name, as it is printed in manifests and reports.
pub open spec fn algorithm_name(a: HashAlgorithm) -> Seq<char> {
    match a {
        HashAlgorithm::MD5 => seq!['M', 'D', '5'],
        HashAlgorithm::SHA1 => seq!['S', 'H', 'A', '1'],
        HashAlgorithm::SHA256 => seq!['S', 'H', 'A', '2', '5', '6'],
        HashAlgorithm::SHA512 => seq!['S', 'H', 'A', '5', '1', '2'],
    }
}

/// Digest of `data` under `a`, as the corresponding RustCrypto hasher computes it.
pub open spec fn digest_of(a: HashAlgorithm, data: Seq<u8>) -> Seq<u8> {
    match a {
        HashAlgorithm::MD5 => md5_digest(data),
        HashAlgorithm::SHA1 => sha1_digest(data),
        HashAlgorithm::SHA256 => sha256_digest(data),
        HashAlgorithm::SHA512 => sha512_digest(data),
    }
}

/// Lower-case hexadecimal digest of `data` under `a`.
pub open spec fn hex_digest_of(a: HashAlgorithm, data: Seq<u8>) -> Seq<char> {
    hex_lower(digest_of(a, data))
}

impl HashAlgorithm {
    /// The algorithm's name ("MD5", "SHA1", "SHA256", "SHA512").
    pub fn name(&self) -> (s: String)
        ensures
            s@ == algorithm_name(*self),
    {
        let mut s = String::new();
        match self {
            HashAlgorithm::MD5 => {
                push_char(&mut s, 'M');
                push_char(&mut s, 'D');
                push_char(&mut s, '5');
            },
            HashAlgorithm::SHA1 => {
                push_char(&mut s, 'S');
                push_char(&mut s, 'H');
                push_char(&mut s, 'A');
                push_char(&mut s, '1');
            },
            HashAlgorithm::SHA256 => {
                push_char(&mut s, 'S');
                push_char(&mut s, 'H');
                push_char(&mut s, 'A');
                push_char(&mut s, '2');
                push_char(&mut s, '5');
                push_char(&mut s, '6');
            },
            HashAlgorithm::SHA512 => {
                push_char(&mut s, 'S');
                push_char(&mut s, 'H');
                push_char(&mut s, 'A');
                push_char(&mut s, '5');
                push_char(&mut s, '1');
                push_char(&mut s, '2');
            },
        }
        proof {
            assert(s@ =~= algorithm_name(*self));
        }
        s
    }
}

/// Result of `md5::Md5` finalised over the given bytes.
pub uninterp spec fn md5_digest(data: Seq<u8>) -> Seq<u8>;

/// Result of `sha1::Sha1` finalised over the given bytes.
pub uninterp spec fn sha1_digest(data: Seq<u8>) -> Seq<u8>;

/// Result of `sha2::Sha256` finalised over the given bytes.
pub uninterp spec fn sha256_digest(data: Seq<u8>) -> Seq<u8>;

/// Result of `sha2::Sha512` finalised over the given bytes.
pub uninterp spec fn sha512_digest(data: Seq<u8>) -> Seq<u8>;

/// Bytes fed so far into an MD5 stream.
pub uninterp spec fn md5_fed(h: Md5Stream) -> Seq<u8>;

/// Bytes fed so far into a SHA-1 stream.
pub uninterp spec fn sha1_fed(h: Sha1Stream) -> Seq<u8>;

/// Bytes fed so far into a SHA-256 stream.
pub uninterp spec fn sha256_fed(h: Sha256Stream) -> Seq<u8>;

/// Bytes fed so far into a SHA-512 stream.
pub uninterp spec fn sha512_fed(h: Sha512Stream) -> Seq<u8>;

// Each running hasher of the digest crates (a `CoreWrapper<..>` whose
// declaration is generic over the crates' own core traits) is held in an
// opaque struct of its own and described only through the names above
// (what it has been fed) and the wrappers below.

/// An incremental `md5::Md5` computation.
#[verifier::external_body]
pub(crate) struct Md5Stream {
    inner: md5::Md5,
}

/// An incremental `sha1::Sha1` computation.
#[verifier::external_body]
pub(crate) struct Sha1Stream {
    inner: sha1::Sha1,
}

/// An incremental `sha2::Sha256` computation.
#[verifier::external_body]
pub(crate) struct Sha256Stream {
    inner: sha2::Sha256,
}

/// An incremental `sha2::Sha512` computation.
#[verifier::external_body]
pub(crate) struct Sha512Stream {
    inner: sha2::Sha512,
}

/// `Md5::new()`: a hasher that has been fed nothing.
#[verifier::external_body]
fn md5_start() -> (h: Md5Stream)
    ensures
        md5_fed(h) == Seq::<u8>::empty(),
{
    Md5Stream { inner: md5::Md5::new() }
}

/// `Digest::update` on an MD5 hasher: appends `data` to what it was fed.
#[verifier::external_body]
fn md5_feed(h: &mut Md5Stream, data: &[u8])
    ensures
        md5_fed(*final(h)) == md5_fed(*old(h)) + data@,
{
    h.inner.update(data)
}

/// `Digest::finalize` on an MD5 hasher: the 16-byte digest of what it was fed.
#[verifier::external_body]
fn md5_finish(h: Md5Stream) -> (d: Vec<u8>)
    ensures
        d@ == md5_digest(md5_fed(h)),
        d@.len() == 16,
{
    h.inner.finalize().to_vec()
}

/// `Sha1::new()`: a hasher that has been fed nothing.
#[verifier::external_body]
fn sha1_start() -> (h: Sha1Stream)
    ensures
        sha1_fed(h) == Seq::<u8>::empty(),
{
    Sha1Stream { inner: sha1::Sha1::new() }
}

/// `Digest::update` on a SHA-1 hasher: appends `data` to what it was fed.
#[verifier::external_body]
fn sha1_feed(h: &mut Sha1Stream, data: &[u8])
    ensures
        sha1_fed(*final(h)) == sha1_fed(*old(h)) + data@,
{
    h.inner.update(data)
}

/// `Digest::finalize` on a SHA-1 hasher: the 20-byte digest of what it was fed.
#[verifier::external_body]
fn sha1_finish(h: Sha1Stream) -> (d: Vec<u8>)
    ensures
        d@ == sha1_digest(sha1_fed(h)),
        d@.len() == 20,
{
    h.inner.finalize().to_vec()
}

/// `Sha256::new()`: a hasher that has been fed nothing.
#[verifier::external_body]
fn sha256_start() -> (h: Sha256Stream)
    ensures
        sha256_fed(h) == Seq::<u8>::empty(),
{
    Sha256Stream { inner: sha2::Sha256::new() }
}

/// `Digest::update` on a SHA-256 hasher: appends `data` to what it was fed.
#[verifier::external_body]
fn sha256_feed(h: &mut Sha256Stream, data: &[u8])
    ensures
        sha256_fed(*final(h)) == sha256_fed(*old(h)) + data@,
{
    h.inner.update(data)
}

/// `Digest::finalize` on a SHA-256 hasher: the 32-byte digest of what it was fed.
#[verifier::external_body]
fn sha256_finish(h: Sha256Stream) -> (d: Vec<u8>)
    ensures
        d@ == sha256_digest(sha256_fed(h)),
        d@.len() == 32,
{
    h.inner.finalize().to_vec()
}

/// `Sha512::new()`: a hasher that has been fed nothing.
#[verifier::external_body]
fn sha512_start() -> (h: Sha512Stream)
    ensures
        sha512_fed(h) == Seq::<u8>::empty(),
{
    Sha512Stream { inner: sha2::Sha512::new() }
}

/// `Digest::update` on a SHA-512 hasher: appends `data` to what it was fed.
#[verifier::external_body]
fn sha512_feed(h: &mut Sha512Stream, data: &[u8])
    ensures
        sha512_fed(*final(h)) == sha512_fed(*old(h)) + data@,
{
    h.inner.update(data)
}

/// `Digest::finalize` on a SHA-512 hasher: the 64-byte digest of what it was fed.
#[verifier::external_body]
fn sha512_finish(h: Sha512Stream) -> (d: Vec<u8>)
    ensures
        d@ == sha512_digest(sha512_fed(h)),
        d@.len() == 64,
{
    h.inner.finalize().to_vec()
}

/// Hexadecimal digests keyed by algorithm; at most one per algorithm.
#[derive(Clone, Debug)]
pub struct HashDigests {
    pub md5: Option<String>,
    pub sha1: Option<String>,
    pub sha256: Option<String>,
    pub sha512: Option<String>,
}

/// The digest a map of digests holds for an algorithm, by its characters.
pub open spec fn opt_view(o: Option<String>) -> Option<Seq<char>> {
    match o {
        Some(s) => Some(s@),
        None => None,
    }
}

impl HashDigests {
    /// The digest stored for `a`, by its characters.
    pub open spec fn lookup(&self, a: HashAlgorithm) -> Option<Seq<char>> {
        match a {
            HashAlgorithm::MD5 => opt_view(self.md5),
            HashAlgorithm::SHA1 => opt_view(self.sha1),
            HashAlgorithm::SHA256 => opt_view(self.sha256),
            HashAlgorithm::SHA512 => opt_view(self.sha512),
        }
    }

    /// Number of algorithms that have a digest.
    pub open spec fn count(&self) -> nat {
        (if self.md5 is Some { 1nat } else { 0nat }) + (if self.sha1 is Some { 1nat } else { 0nat })
            + (if self.sha256 is Some { 1nat } else { 0nat }) + (if self.sha512 is Some {
            1nat
        } else {
            0nat
        })
    }

    /// No digests.
    pub fn new() -> (d: Self)
        ensures
            forall|a: HashAlgorithm| d.lookup(a) is None,
    {
        HashDigests { md5: None, sha1: None, sha256: None, sha512: None }
    }

    /// Stores `value` as the digest of `a`, replacing any earlier one.
    pub fn insert(&mut self, a: HashAlgorithm, value: String)
        ensures
            final(self).lookup(a) == Some(value@),
            forall|b: HashAlgorithm| b != a ==> final(self).lookup(b) == old(self).lookup(b),
    {
        match a {
            HashAlgorithm::MD5 => self.md5 = Some(value),
            HashAlgorithm::SHA1 => self.sha1 = Some(value),
            HashAlgorithm::SHA256 => self.sha256 = Some(value),
            HashAlgorithm::SHA512 => self.sha512 = Some(value),
        }
    }

    /// The digest stored for `a`.
    pub fn get(&self, a: HashAlgorithm) -> (r: Option<&String>)
        ensures
            match r {
                Some(s) => self.lookup(a) == Some(s@),
                None => self.lookup(a) is None,
            },
    {
        match a {
            HashAlgorithm::MD5 => self.md5.as_ref(),
            HashAlgorithm::SHA1 => self.sha1.as_ref(),
            HashAlgorithm::SHA256 => self.sha256.as_ref(),
            HashAlgorithm::SHA512 => self.sha512.as_ref(),
        }
    }

    /// Whether no algorithm has a digest.
    pub fn is_empty(&self) -> (b: bool)
        ensures
            b <==> forall|a: HashAlgorithm| self.lookup(a) is None,
    {
        let b = self.md5.is_none() && self.sha1.is_none() && self.sha256.is_none()
            && self.sha512.is_none();
        proof {
            if !b {
                if self.md5 is Some {
                    assert(self.lookup(HashAlgorithm::MD5) is Some);
                } else if self.sha1 is Some {
                    assert(self.lookup(HashAlgorithm::SHA1) is Some);
                } else if self.sha256 is Some {
                    assert(self.lookup(HashAlgorithm::SHA256) is Some);
                } else {
                    assert(self.lookup(HashAlgorithm::SHA512) is Some);
                }
            }
        }
        b
    }

    /// Number of stored digests.
    pub fn len(&self) -> (n: usize)
        ensures
            n == self.count(),
    {
        let mut n: usize = 0;
        if self.md5.is_some() {
            n += 1;
        }
        if self.sha1.is_some() {
            n += 1;
        }
        if self.sha256.is_some() {
            n += 1;
        }
        if self.sha512.is_some() {
            n += 1;
        }
        n
    }

    /// The stored digests as (algorithm, digest) pairs, in the order
    /// MD5, SHA1, SHA256, SHA512.
    pub fn entries(&self) -> (v: Vec<(HashAlgorithm, String)>)
        ensures
            v@.len() == self.count(),
            forall|i: int|
                0 <= i < v@.len() ==> self.lookup(#[trigger] v@[i].0) == Some(v@[i].1@),
            forall|a: HashAlgorithm|
                self.lookup(a) is Some ==> exists|i: int| 0 <= i < v@.len() && #[trigger] v@[i].0 == a,
            forall|i: int, j: int| 0 <= i < j < v@.len() ==> v@[i].0 != v@[j].0,
            forall|i: int, j: int|
                0 <= i < j < v@.len() ==> algorithm_rank(#[trigger] v@[i].0) < algorithm_rank(#[trigger] v@[j].0),
    {
        let mut v: Vec<(HashAlgorithm, String)> = Vec::new();
        if let Some(s) = &self.md5 {
            v.push((HashAlgorithm::MD5, s.clone()));
        }
        let ghost n1 = v@.len();
        if let Some(s) = &self.sha1 {
            v.push((HashAlgorithm::SHA1, s.clone()));
        }
        let ghost n2 = v@.len();
        if let Some(s) = &self.sha256 {
            v.push((HashAlgorithm::SHA256, s.clone()));
        }
        let ghost n3 = v@.len();
        if let Some(s) = &self.sha512 {
            v.push((HashAlgorithm::SHA512, s.clone()));
        }
        proof {
            assert forall|a: HashAlgorithm| self.lookup(a) is Some implies exists|i: int|
                0 <= i < v@.len() && #[trigger] v@[i].0 == a by {
                match a {
                    HashAlgorithm::MD5 => { assert(v@[0].0 == a); },
                    HashAlgorithm::SHA1 => { assert(v@[n1 as int].0 == a); },
                    HashAlgorithm::SHA256 => { assert(v@[n2 as int].0 == a); },
                    HashAlgorithm::SHA512 => { assert(v@[n3 as int].0 == a); },
                }
            }
        }
        v
    }
}

/// Streaming hasher computing several digests over the same byte stream.
pub struct MultiHasher {
    md5: Option<Md5Stream>,
    sha1: Option<Sha1Stream>,
    sha256: Option<Sha256Stream>,
    sha512: Option<Sha512Stream>,
    fed: Ghost<Seq<u8>>,
}

impl MultiHasher {
    /// Whether the hasher computes a digest under `a`.
    pub closed spec fn computes(&self, a: HashAlgorithm) -> bool {
        match a {
            HashAlgorithm::MD5 => self.md5 is Some,
            HashAlgorithm::SHA1 => self.sha1 is Some,
            HashAlgorithm::SHA256 => self.sha256 is Some,
            HashAlgorithm::SHA512 => self.sha512 is Some,
        }
    }

    /// All bytes given to `update` so far, in order.
    pub closed spec fn data(&self) -> Seq<u8> {
        self.fed@
    }

    /// Every running digest has been fed exactly `data()`.
    pub closed spec fn wf(&self) -> bool {
        &&& (self.md5 matches Some(h) ==> md5_fed(h) == self.fed@)
        &&& (self.sha1 matches Some(h) ==> sha1_fed(h) == self.fed@)
        &&& (self.sha256 matches Some(h) ==> sha256_fed(h) == self.fed@)
        &&& (self.sha512 matches Some(h) ==> sha512_fed(h) == self.fed@)
    }

    /// A hasher for exactly the algorithms listed (each at most once,
    /// repetitions are ignored), fed nothing yet.
    pub fn new(algorithms: &[HashAlgorithm]) -> (h: Self)
        ensures
            h.wf(),
            h.data() == Seq::<u8>::empty(),
            forall|a: HashAlgorithm| h.computes(a) <==> algorithms@.contains(a),
    {
        let mut h = MultiHasher { md5: None, sha1: None, sha256: None, sha512: None, fed: Ghost(Seq::empty()) };
        let mut i: usize = 0;
        while i < algorithms.len()
            invariant
                i <= algorithms.len(),
                h.wf(),
                h.data() == Seq::<u8>::empty(),
                forall|a: HashAlgorithm| h.computes(a) <==> algorithms@.take(i as int).contains(a),
            decreases algorithms.len() - i,
        {
            let a = algorithms[i];
            let ghost before = h;
            match a {
                HashAlgorithm::MD5 => h.md5 = Some(md5_start()),
                HashAlgorithm::SHA1 => h.sha1 = Some(sha1_start()),
                HashAlgorithm::SHA256 => h.sha256 = Some(sha256_start()),
                HashAlgorithm::SHA512 => h.sha512 = Some(sha512_start()),
            }
            proof {
                let t = algorithms@.take(i as int);
                let t1 = algorithms@.take(i + 1);
                assert(t1 =~= t.push(a));
                assert forall|b: HashAlgorithm| h.computes(b) <==> t1.contains(b) by {
                    assert(b != a ==> h.computes(b) == before.computes(b));
                    assert(before.computes(b) <==> t.contains(b));
                    if b == a {
                        assert(t1[i as int] == a);
                    } else {
                        if t1.contains(b) {
                            let k = choose|k: int| 0 <= k < t1.len() && t1[k] == b;
                            assert(t[k] == b);
                        }
                        if t.contains(b) {
                            let k = choose|k: int| 0 <= k < t.len() && t[k] == b;
                            assert(t1[k] == b);
                        }
                    }
                }
            }
            i += 1;
        }
        proof {
            assert(algorithms@.take(algorithms@.len() as int) =~= algorithms@);
        }
        h
    }

    /// Feeds `data` to every running digest.
    pub fn update(&mut self, data: &[u8])
        requires
            old(self).wf(),
        ensures
            final(self).wf(),
            final(self).data() == old(self).data() + data@,
            forall|a: HashAlgorithm| final(self).computes(a) == old(self).computes(a),
    {
        if let Some(h) = &mut self.md5 {
            md5_feed(h, data);
        }
        if let Some(h) = &mut self.sha1 {
            sha1_feed(h, data);
        }
        if let Some(h) = &mut self.sha256 {
            sha256_feed(h, data);
        }
        if let Some(h) = &mut self.sha512 {
            sha512_feed(h, data);
        }
        self.fed = Ghost(self.fed@ + data@);
    }

    /// The lower-case hexadecimal digest of all data fed, for each
    /// algorithm the hasher computes, and for no other.
    pub fn finalize(self) -> (d: HashDigests)
        requires
            self.wf(),
        ensures
            forall|a: HashAlgorithm|
                #[trigger] d.lookup(a) == if self.computes(a) {
                    Some(hex_digest_of(a, self.data()))
                } else {
                    None
                },
    {
        let ghost data = self.fed@;
        let mut d = HashDigests::new();
        if let Some(h) = self.md5 {
            let raw = md5_finish(h);
            d.insert(HashAlgorithm::MD5, hex_encode(raw.as_slice()));
        }
        if let Some(h) = self.sha1 {
            let raw = sha1_finish(h);
            d.insert(HashAlgorithm::SHA1, hex_encode(raw.as_slice()));
        }
        if let Some(h) = self.sha256 {
            let raw = sha256_finish(h);
            d.insert(HashAlgorithm::SHA256, hex_encode(raw.as_slice()));
        }
        if let Some(h) = self.sha512 {
            let raw = sha512_finish(h);
            d.insert(HashAlgorithm::SHA512, hex_encode(raw.as_slice()));
        }
        d
    }
}

/// Salt appended to every report before it is signed.
pub const SIGNING_SALT: &'static str = "FORGELENS-SECURE-FORENSIC-SIGNING-SALT-2026";

/// Identifier of the workstation that signs reports.
pub const WORKSTATION_ID: &'static str = "WORKSTATION-STN-01";

/// SHA-256 seal of a report: the hex digest of the report's UTF-8 bytes,
/// then the case number's, the signing salt's and the workstation
/// identifier's.
pub fn generate_digital_signature(report_content: &str, case_number: &str) -> (sig: String)
    ensures
        sig@ == hex_lower(
            sha256_digest(
                report_content.spec_bytes() + case_number.spec_bytes() + SIGNING_SALT.spec_bytes()
                    + WORKSTATION_ID.spec_bytes(),
            ),
        ),
{
    let mut h = sha256_start();
    sha256_feed(&mut h, report_content.as_bytes());
    sha256_feed(&mut h, case_number.as_bytes());
    sha256_feed(&mut h, SIGNING_SALT.as_bytes());
    sha256_feed(&mut h, WORKSTATION_ID.as_bytes());
    let raw = sha256_finish(h);
    hex_encode(raw.as_slice())
}

} // verus!
