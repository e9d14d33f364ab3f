//! Encoding: the plaintext is cut into chunks of 64 KiB, each chunk is
//! sealed, and the tokens are written as the blocks of a container.

use crate::encryption_manager::cipher::{accepts_key, fresh_key, key_accepted, seal, token_len, token_payload};
use crate::encryption_manager::container::{frames, lemma_frames_push, lemma_parse_frames, parse, write_block};
use crate::errors::{ErrorKind, Failure};
use crate::filelib::paths::{encrypt_path_of, make_encrypt_path};
use vstd::prelude::*;
use vstd::slice::slice_subrange;

verus! {

/// The most plaintext that one block holds.
pub const CHUNK_SIZE: usize = 65536;

/// What an encoding hands back: the key that was used, the path that the
/// container belongs at, and the container.
pub struct EncryptedFile {
    pub key: String,
    pub path: String,
    pub container: Vec<u8>,
}

/// The number of chunks of a plaintext of `len` bytes: `len` divided by the
/// chunk size, rounded up.
pub open spec fn chunk_count(len: nat) -> nat {
    ((len + CHUNK_SIZE - 1) / CHUNK_SIZE as int) as nat
}

/// Chunk `index` of a plaintext: the next 64 KiB, or what is left of it.
pub open spec fn chunk_of(content: Seq<u8>, index: int) -> Seq<u8> {
    content.subrange(
        index * CHUNK_SIZE,
        if (index + 1) * CHUNK_SIZE < content.len() {
            (index + 1) * CHUNK_SIZE
        } else {
            content.len() as int
        },
    )
}

/// The chunks of a plaintext, in order.
pub open spec fn chunks_of(content: Seq<u8>) -> Seq<Seq<u8>> {
    Seq::new(chunk_count(content.len()), |index: int| chunk_of(content, index))
}

/// Whether the tokens seal the plaintexts under the key, one for one.
pub open spec fn seals(key: Seq<char>, plains: Seq<Seq<u8>>, tokens: Seq<Seq<u8>>) -> bool {
    &&& tokens.len() == plains.len()
    &&& forall|i: int|
        0 <= i < tokens.len() ==> {
            &&& token_payload(key, #[trigger] tokens[i]) == Some(plains[i])
            &&& tokens[i].len() == token_len(plains[i].len())
        }
}

/// Whether the bytes are a container of the plaintext under the key: its
/// blocks seal the chunks of the plaintext, one block for each chunk.
pub open spec fn encodes(key: Seq<char>, content: Seq<u8>, container: Seq<u8>) -> bool {
    match parse(container) {
        Some(blocks) => seals(key, chunks_of(content), blocks),
        None => false,
    }
}

/// The token of a chunk fits the length header of its block with room to
/// spare.
pub proof fn lemma_token_fits(plain_len: nat)
    requires
        plain_len <= CHUNK_SIZE,
    ensures
        token_len(plain_len) <= 87480,
{
}

/// An empty plaintext has no chunk; any other has its length divided by the
/// chunk size, rounded up, and every chunk but the last is full.
pub proof fn lemma_chunks(content: Seq<u8>)
    ensures
        content.len() == 0 <==> chunk_count(content.len()) == 0,
        (chunk_count(content.len()) - 1) * CHUNK_SIZE < content.len() || content.len() == 0,
        chunk_count(content.len()) * CHUNK_SIZE >= content.len(),
        forall|i: int|
            0 <= i < chunk_count(content.len()) ==> 1 <= (#[trigger] chunk_of(content, i)).len()
                <= CHUNK_SIZE,
        forall|i: int|
            0 <= i < chunk_count(content.len()) - 1 ==> (#[trigger] chunk_of(content, i)).len()
                == CHUNK_SIZE,
{
}

/// Holds a key against the cipher: `InvalidKey` where the cipher refuses
/// it.
pub fn check_key(key: &str) -> (r: Result<(), ErrorKind>)
    ensures
        r is Ok <==> key_accepted(key@),
        r matches Err(e) ==> e == ErrorKind::InvalidKey,
{
    if accepts_key(key) {
        Ok(())
    } else {
        Err(ErrorKind::InvalidKey)
    }
}

/// The key to work with: a fresh one where none is given, else the given
/// one if the cipher accepts it.
pub fn resolve_key(key: String) -> (r: Result<String, ErrorKind>)
    ensures
        key@.len() == 0 ==> r is Ok,
        key@.len() > 0 ==> (r is Ok <==> key_accepted(key@)),
        key@.len() > 0 && r is Ok ==> r.unwrap()@ == key@,
        r matches Ok(used) ==> key_accepted(used@),
        r matches Err(e) ==> e == ErrorKind::InvalidKey,
{
    if key.as_str().is_empty() {
        Ok(fresh_key())
    } else if accepts_key(key.as_str()) {
        Ok(key)
    } else {
        Err(ErrorKind::InvalidKey)
    }
}

/// The container of a plaintext under a key: one block for every 64 KiB of
/// the plaintext, rounded up, each block the sealed chunk behind its length.
/// Fails with `InvalidKey` where the cipher refuses the key, and in no other
/// case.
pub fn encode(content: &[u8], key: &str) -> (r: Result<Vec<u8>, ErrorKind>)
    ensures
        r is Ok <==> key_accepted(key@),
        r matches Ok(container) ==> {
            &&& encodes(key@, content@, container@)
            &&& parse(container@) is Some
            &&& parse(container@).unwrap().len() == chunk_count(content@.len())
            &&& content@.len() == 0 <==> container@.len() == 0
        },
        r matches Err(e) ==> e == ErrorKind::InvalidKey,
{
    if !accepts_key(key) {
        return Err(ErrorKind::InvalidKey);
    }
    let len: usize = content.len();
    let mut container: Vec<u8> = Vec::new();
    let mut start: usize = 0;
    let ghost mut tokens: Seq<Seq<u8>> = Seq::empty();
    proof {
        lemma_chunks(content@);
    }
    while start < len
        invariant
            len == content@.len(),
            key_accepted(key@),
            start <= len,
            start < len ==> start == tokens.len() * CHUNK_SIZE,
            start == len ==> tokens.len() == chunk_count(content@.len()),
            tokens.len() <= chunk_count(content@.len()),
            container@ == frames(tokens),
            seals(key@, chunks_of(content@).take(tokens.len() as int), tokens),
            forall|i: int| 0 <= i < tokens.len() ==> (#[trigger] tokens[i]).len() <= u32::MAX,
        decreases len - start,
    {
        let end: usize = if len - start <= CHUNK_SIZE {
            len
        } else {
            start + CHUNK_SIZE
        };
        let chunk = slice_subrange(content, start, end);
        let ghost index = tokens.len() as int;
        assert(chunk@ == chunk_of(content@, index));
        match seal(key, chunk) {
            Some(token) => {
                proof {
                    lemma_token_fits(chunk@.len());
                    lemma_frames_push(tokens, token@);
                }
                write_block(&mut container, token.as_slice());
                proof {
                    let before = tokens;
                    tokens = tokens.push(token@);
                    let plains = chunks_of(content@).take(tokens.len() as int);
                    assert forall|i: int| 0 <= i < tokens.len() implies {
                        &&& token_payload(key@, #[trigger] tokens[i]) == Some(plains[i])
                        &&& tokens[i].len() == token_len(plains[i].len())
                    } by {
                        if i < index {
                            assert(tokens[i] == before[i]);
                            assert(plains[i] == chunks_of(content@).take(index)[i]);
                        }
                    }
                }
            },
            None => {
                return Err(ErrorKind::InvalidKey);
            },
        }
        start = end;
    }
    proof {
        lemma_parse_frames(tokens);
        assert(chunks_of(content@).take(tokens.len() as int) =~= chunks_of(content@));
        if container@.len() > 0 {
            assert(parse(container@).unwrap().len() > 0);
        }
    }
    Ok(container)
}

/// Encrypts the content of the file at `path`. With an empty `key` a fresh
/// key is made. The result holds the key that was used, the encrypted path
/// of `path`, and the container to write there. Fails with `InvalidKey`, at
/// `path`, where a key is given that the cipher refuses, and in no other
/// case.
pub fn encrypt(path: String, content: &[u8], key: String) -> (r: Result<EncryptedFile, Failure>)
    ensures
        r is Ok <==> key@.len() == 0 || key_accepted(key@),
        r matches Ok(file) ==> {
            &&& key_accepted(file.key@)
            &&& key@.len() > 0 ==> file.key@ == key@
            &&& file.path@ == encrypt_path_of(path@)
            &&& encodes(file.key@, content@, file.container@)
        },
        r matches Err(failure) ==> failure.kind == ErrorKind::InvalidKey && failure.path@ == path@,
{
    match resolve_key(key) {
        Ok(used) => match encode(content, used.as_str()) {
            Ok(container) => Ok(EncryptedFile { key: used, path: make_encrypt_path(path), container }),
            Err(kind) => Err(Failure { kind, path }),
        },
        Err(kind) => Err(Failure { kind, path }),
    }
}

} // verus!
