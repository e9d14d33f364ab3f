//! Decoding: the blocks of a container are read in file order, each is
//! opened, and the plaintexts are laid end to end.

use crate::encryption_manager::cipher::{accepts_key, key_accepted, open, token_payload};
use crate::encryption_manager::container::{
    after_first_block, block_length, first_block, parse, starts_with_block,
};
use crate::encryption_manager::encrypt_file::encodes;
use crate::encryption_manager::lemmas::{lemma_round_trip, lemma_wrong_key_fails};
use crate::errors::{ErrorKind, Failure};
use crate::filelib::paths::{decrypt_path_of, make_decrypt_path};
use vstd::prelude::*;
use vstd::slice::slice_subrange;

verus! {

/// What a decoding hands back: the path that the plaintext belongs at, and
/// the plaintext.
pub struct DecryptedFile {
    pub path: String,
    pub content: Vec<u8>,
}

/// What a container holds under a key, read block by block from the front:
/// the plaintexts of its blocks laid end to end; `CorruptContainer` at the
/// first header or block that is cut short; `DecryptFailed` at the first
/// block that does not authenticate under the key.
pub open spec fn plain_of(key: Seq<char>, container: Seq<u8>) -> Result<Seq<u8>, ErrorKind>
    decreases container.len(),
{
    if container.len() == 0 {
        Ok(Seq::empty())
    } else if !starts_with_block(container) {
        Err(ErrorKind::CorruptContainer)
    } else {
        match token_payload(key, first_block(container)) {
            None => Err(ErrorKind::DecryptFailed),
            Some(plain) => match plain_of(key, after_first_block(container)) {
                Ok(rest) => Ok(plain + rest),
                Err(e) => Err(e),
            },
        }
    }
}

/// Reading a container fails in two ways only: the bytes are cut short, or
/// a block does not authenticate.
pub proof fn lemma_plain_of_errors(key: Seq<char>, container: Seq<u8>)
    ensures
        plain_of(key, container) matches Err(e) ==> e == ErrorKind::CorruptContainer || e
            == ErrorKind::DecryptFailed,
    decreases container.len(),
{
    if container.len() > 0 && starts_with_block(container) {
        lemma_plain_of_errors(key, after_first_block(container));
    }
}

/// A result with the bytes of its plaintext as a sequence.
pub open spec fn outcome_view(r: Result<Vec<u8>, ErrorKind>) -> Result<Seq<u8>, ErrorKind> {
    match r {
        Ok(plain) => Ok(plain@),
        Err(e) => Err(e),
    }
}

/// The plaintexts laid end to end, in order.
pub open spec fn join(plains: Seq<Seq<u8>>) -> Seq<u8>
    decreases plains.len(),
{
    if plains.len() == 0 {
        Seq::empty()
    } else {
        plains.first() + join(plains.drop_first())
    }
}

/// Judges what the cipher made of a block: the plaintext where it opened
/// the block, `DecryptFailed` where it refused.
pub fn opened_block(opened: Option<Vec<u8>>) -> (r: Result<Vec<u8>, ErrorKind>)
    ensures
        r == match opened {
            Some(plain) => Ok::<Vec<u8>, ErrorKind>(plain),
            None => Err::<Vec<u8>, ErrorKind>(ErrorKind::DecryptFailed),
        },
{
    match opened {
        Some(plain) => Ok(plain),
        None => Err(ErrorKind::DecryptFailed),
    }
}

/// Opens one block. `block` is what a reader got when it asked for the
/// `announced` bytes that the block's header gave: fewer bytes are a block
/// cut short. A whole block is handed to the cipher; what comes back is the
/// plaintext that the block carries, or `DecryptFailed`.
pub fn decrypt_block(block: &[u8], announced: usize, key: &str) -> (r: Result<Vec<u8>, ErrorKind>)
    requires
        block@.len() <= announced,
    ensures
        block@.len() < announced ==> r == Err::<Vec<u8>, ErrorKind>(ErrorKind::CorruptContainer),
        block@.len() == announced ==> {
            ||| r == Err::<Vec<u8>, ErrorKind>(ErrorKind::DecryptFailed)
            ||| r is Ok && key_accepted(key@) && token_payload(key@, block@) == Some(r.unwrap()@)
        },
{
    if block.len() < announced {
        Err(ErrorKind::CorruptContainer)
    } else {
        opened_block(open(key, block))
    }
}

/// The plaintext of a container under a key. The blocks are taken strictly
/// in file order and the first failure ends the decoding. A key that the
/// cipher refuses gives `InvalidKey`. With an accepted key the result is what
/// `plain_of` says, but for one thing: the cipher may refuse a block that
/// authenticates (one dated after the clock's present time), and then the
/// result is `DecryptFailed`. That cannot be unless the container starts with
/// a whole block. So a container of a plaintext under the key gives that
/// plaintext back and no other, unless the cipher refuses; and a container
/// with a block that does not authenticate under the key gives
/// `DecryptFailed`, never a plaintext.
pub fn decode(container: &[u8], key: &str) -> (r: Result<Vec<u8>, ErrorKind>)
    ensures
        !key_accepted(key@) <==> r == Err::<Vec<u8>, ErrorKind>(ErrorKind::InvalidKey),
        key_accepted(key@) ==> {
            ||| outcome_view(r) == plain_of(key@, container@)
            ||| r == Err::<Vec<u8>, ErrorKind>(ErrorKind::DecryptFailed) && starts_with_block(
                container@,
            )
        },
        r matches Err(e) ==> e == ErrorKind::InvalidKey || e == ErrorKind::CorruptContainer || e
            == ErrorKind::DecryptFailed,
        forall|content: Seq<u8>| #[trigger]
            encodes(key@, content, container@) && key_accepted(key@) ==> {
                ||| outcome_view(r) == Ok::<Seq<u8>, ErrorKind>(content)
                ||| r == Err::<Vec<u8>, ErrorKind>(ErrorKind::DecryptFailed)
            },
        forall|index: int|
            key_accepted(key@) && parse(container@) is Some && 0 <= index < parse(
                container@,
            ).unwrap().len() && (#[trigger] token_payload(
                key@,
                parse(container@).unwrap()[index],
            )) is None ==> r == Err::<Vec<u8>, ErrorKind>(ErrorKind::DecryptFailed),
{
    if !accepts_key(key) {
        return Err(ErrorKind::InvalidKey);
    }
    proof {
        lemma_plain_of_errors(key@, container@);
        assert forall|content: Seq<u8>| #[trigger]
            encodes(key@, content, container@) implies plain_of(key@, container@) == Ok::<
            Seq<u8>,
            ErrorKind,
        >(content) by {
            lemma_round_trip(key@, content, container@);
        }
        assert forall|index: int|
            parse(container@) is Some && 0 <= index < parse(container@).unwrap().len() && (
            #[trigger] token_payload(key@, parse(container@).unwrap()[index]))
                is None implies plain_of(key@, container@) == Err::<Seq<u8>, ErrorKind>(
            ErrorKind::DecryptFailed,
        ) by {
            lemma_wrong_key_fails(key@, container@, index);
        }
    }
    let len: usize = container.len();
    let mut out: Vec<u8> = Vec::new();
    let mut at: usize = 0;
    assert(container@.skip(0) =~= container@);
    while at < len
        invariant
            len == container@.len(),
            at <= len,
            key_accepted(key@),
            at > 0 ==> starts_with_block(container@),
            forall|content: Seq<u8>| #[trigger]
                encodes(key@, content, container@) ==> plain_of(key@, container@) == Ok::<
                    Seq<u8>,
                    ErrorKind,
                >(content),
            forall|index: int|
                parse(container@) is Some && 0 <= index < parse(container@).unwrap().len() && (
                #[trigger] token_payload(key@, parse(container@).unwrap()[index])) is None
                    ==> plain_of(key@, container@) == Err::<Seq<u8>, ErrorKind>(
                    ErrorKind::DecryptFailed,
                ),
            plain_of(key@, container@) == match plain_of(key@, container@.skip(at as int)) {
                Ok(rest) => Ok::<Seq<u8>, ErrorKind>(out@ + rest),
                Err(e) => Err::<Seq<u8>, ErrorKind>(e),
            },
        decreases len - at,
    {
        let ghost rest = container@.skip(at as int);
        let header_end: usize = if len - at < 4 {
            len
        } else {
            at + 4
        };
        let header = slice_subrange(container, at, header_end);
        assert(header@.len() == 4 ==> header@ =~= rest.take(4));
        let announced: usize = match block_length(header) {
            Ok(Some(n)) => n,
            _ => {
                return Err(ErrorKind::CorruptContainer);
            },
        };
        let body: usize = header_end;
        let block_end: usize = if len - body < announced {
            len
        } else {
            body + announced
        };
        let block = slice_subrange(container, body, block_end);
        assert(block@.len() == announced ==> block@ =~= first_block(rest));
        assert(block@.len() == announced <==> starts_with_block(rest));
        match decrypt_block(block, announced, key) {
            Ok(mut plain) => {
                assert(after_first_block(rest) =~= container@.skip(block_end as int));
                assert(at == 0 ==> rest =~= container@);
                let ghost so_far = out@;
                let ghost piece = plain@;
                out.append(&mut plain);
                assert(out@ == so_far + piece);
                proof {
                    match plain_of(key@, container@.skip(block_end as int)) {
                        Ok(tail) => {
                            assert(so_far + (piece + tail) =~= out@ + tail);
                        },
                        Err(_) => {},
                    }
                }
                at = block_end;
            },
            Err(e) => {
                assert(at == 0 ==> rest =~= container@);
                return Err(e);
            },
        }
    }
    assert(container@.skip(len as int) =~= Seq::<u8>::empty());
    assert(out@ + Seq::<u8>::empty() =~= out@);
    Ok(out)
}

/// The result of a decryption as contracts see it: the plaintext, or the
/// kind of the failure.
pub open spec fn file_outcome_view(r: Result<DecryptedFile, Failure>) -> Result<
    Seq<u8>,
    ErrorKind,
> {
    match r {
        Ok(file) => Ok(file.content@),
        Err(failure) => Err(failure.kind),
    }
}

/// Decrypts the container of the file at `path`: `decode`, with the
/// decrypted path of `path` beside the plaintext to write there, and with
/// `path` beside the kind of a failure.
pub fn decrypt(path: String, container: &[u8], key: String) -> (r: Result<DecryptedFile, Failure>)
    ensures
        !key_accepted(key@) <==> file_outcome_view(r) == Err::<Seq<u8>, ErrorKind>(
            ErrorKind::InvalidKey,
        ),
        r matches Ok(file) ==> file.path@ == decrypt_path_of(path@),
        r matches Err(failure) ==> failure.path@ == path@,
        key_accepted(key@) ==> {
            ||| file_outcome_view(r) == plain_of(key@, container@)
            ||| file_outcome_view(r) == Err::<Seq<u8>, ErrorKind>(ErrorKind::DecryptFailed)
                && starts_with_block(container@)
        },
        r matches Err(failure) ==> failure.kind == ErrorKind::InvalidKey || failure.kind
            == ErrorKind::CorruptContainer || failure.kind == ErrorKind::DecryptFailed,
{
    match decode(container, key.as_str()) {
        Ok(content) => Ok(DecryptedFile { path: make_decrypt_path(path), content }),
        Err(kind) => Err(Failure { kind, path }),
    }
}

} // verus!
