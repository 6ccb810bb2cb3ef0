//! Content identity: SHA-256 of exact bytes, computed in one call or streamed in
//! bounded chunks so a large executable is never loaded as one allocation.
use vstd::prelude::*;

verus! {

/// Streaming buffer size used when hashing the running executable.
pub const HASH_BUFFER_BYTES: usize = 65536;

/// Bounded failure class for resolving or reading the current executable.
#[derive(Clone, Copy, Debug, PartialEq, Eq, Structural)]
pub enum RuntimeBinaryIdentityError {
    /// The operating system could not identify the current executable path.
    CurrentExecutable,
    /// The identified executable could not be opened for streaming read.
    Open,
    /// Streaming the executable bytes failed.
    Read,
}

impl RuntimeBinaryIdentityError {
    /// Stable human-readable description.
    pub fn message(&self) -> (m: &'static str)
        ensures
            m@ == identity_error_message(*self)@,
    {
        match self {
            RuntimeBinaryIdentityError::CurrentExecutable => "current executable identity unavailable",
            RuntimeBinaryIdentityError::Open => "current executable could not be opened",
            RuntimeBinaryIdentityError::Read => "current executable could not be hashed",
        }
    }
}

/// Description of each identity failure.
pub open spec fn identity_error_message(e: RuntimeBinaryIdentityError) -> &'static str {
    match e {
        RuntimeBinaryIdentityError::CurrentExecutable => "current executable identity unavailable",
        RuntimeBinaryIdentityError::Open => "current executable could not be opened",
        RuntimeBinaryIdentityError::Read => "current executable could not be hashed",
    }
}

/// SHA-256 digest (FIPS 180-4) of a byte sequence: the 32 digest bytes.
pub uninterp spec fn sha256(data: Seq<u8>) -> Seq<u8>;

/// `sha2::Sha256::digest`: the SHA-256 digest of `data`, converted to an array.
#[verifier::external_body]
pub(crate) fn sha256_digest(data: &[u8]) -> (digest: [u8; 32])
    ensures
        digest@ == sha256(data@),
{
    <sha2::Sha256 as sha2::Digest>::digest(data).into()
}

/// An incremental SHA-256 computation, holding a `sha2` hasher opaquely: the
/// hasher's generic parameters carry trait bounds that a type declaration cannot
/// repeat.
#[verifier::external_body]
pub struct Sha256Stream {
    hasher: sha2::Sha256,
}

/// Bytes absorbed so far by a stream.
pub uninterp spec fn absorbed(stream: Sha256Stream) -> Seq<u8>;

/// `sha2::Sha256::new`: a hasher that has absorbed nothing.
#[verifier::external_body]
fn stream_new() -> (s: Sha256Stream)
    ensures
        absorbed(s) == Seq::<u8>::empty(),
{
    Sha256Stream { hasher: <sha2::Sha256 as sha2::Digest>::new() }
}

/// `sha2::Digest::update`: absorb `data` after everything absorbed before.
#[verifier::external_body]
fn stream_update(s: &mut Sha256Stream, data: &[u8])
    ensures
        absorbed(*final(s)) == absorbed(*old(s)) + data@,
{
    sha2::Digest::update(&mut s.hasher, data)
}

/// `sha2::Digest::finalize`: the digest of everything absorbed, as the one-shot
/// digest of the same bytes.
#[verifier::external_body]
fn stream_finalize(s: Sha256Stream) -> (digest: [u8; 32])
    ensures
        digest@ == sha256(absorbed(s)),
{
    sha2::Digest::finalize(s.hasher).into()
}

impl Sha256Stream {
    /// Start a stream that has absorbed nothing.
    pub fn new() -> (s: Self)
        ensures
            absorbed(s) == Seq::<u8>::empty(),
    {
        stream_new()
    }

    /// Absorb one chunk.
    pub fn update(&mut self, chunk: &[u8])
        ensures
            absorbed(*final(self)) == absorbed(*old(self)) + chunk@,
    {
        stream_update(self, chunk)
    }

    /// Digest of everything absorbed.
    pub fn finalize(self) -> (digest: [u8; 32])
        ensures
            digest@ == sha256(absorbed(self)),
    {
        stream_finalize(self)
    }

    /// One read of the streaming loop: absorb the first `read` bytes of `buffer`
    /// and report whether the source is exhausted (a read of zero bytes).
    pub fn absorb_read(&mut self, buffer: &[u8], read: usize) -> (finished: bool)
        requires
            read <= buffer@.len(),
        ensures
            finished == (read == 0),
            absorbed(*final(self)) == absorbed(*old(self)) + buffer@.subrange(0, read as int),
    {
        if read == 0 {
            proof {
                assert(buffer@.subrange(0, 0) =~= Seq::<u8>::empty());
                assert(absorbed(*old(self)) + Seq::<u8>::empty() =~= absorbed(*old(self)));
            }
            return true;
        }
        let mut chunk: Vec<u8> = Vec::new();
        let mut i: usize = 0;
        while i < read
            invariant
                read <= buffer@.len(),
                i <= read,
                chunk@ == buffer@.subrange(0, i as int),
            decreases read - i,
        {
            chunk.push(buffer[i]);
            proof {
                assert(buffer@.subrange(0, i + 1) =~= buffer@.subrange(0, i as int).push(buffer@[i as int]));
            }
            i += 1;
        }
        self.update(chunk.as_slice());
        false
    }
}

/// Streaming a byte sequence through any split into chunks gives the one-shot
/// digest of the whole sequence.
pub fn hash_chunks(chunks: &Vec<Vec<u8>>) -> (digest: [u8; 32])
    ensures
        digest@ == sha256(chunks@.map_values(|c: Vec<u8>| c@).flatten()),
{
    let mut stream = Sha256Stream::new();
    let mut i: usize = 0;
    while i < chunks.len()
        invariant
            i <= chunks@.len(),
            absorbed(stream) == chunks@.subrange(0, i as int).map_values(|c: Vec<u8>| c@).flatten(),
        decreases chunks@.len() - i,
    {
        stream.update(chunks[i].as_slice());
        proof {
            let before = chunks@.subrange(0, i as int).map_values(|c: Vec<u8>| c@);
            let after = chunks@.subrange(0, i + 1).map_values(|c: Vec<u8>| c@);
            assert(after =~= before.push(chunks@[i as int]@));
            before.lemma_flatten_push(chunks@[i as int]@);
        }
        i += 1;
    }
    proof {
        assert(chunks@.subrange(0, chunks@.len() as int) =~= chunks@);
    }
    stream.finalize()
}

/// Digest of exact bytes held in memory.
pub fn hash_bytes(data: &[u8]) -> (digest: [u8; 32])
    ensures
        digest@ == sha256(data@),
{
    sha256_digest(data)
}

} // verus!
