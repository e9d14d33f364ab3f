//! What holds of encoding and decoding together.

use crate::encryption_manager::cipher::token_payload;
use crate::encryption_manager::container::{
    after_first_block, first_block, frames, lemma_frame_in_front, lemma_frames_parse,
    lemma_parsed_blocks_fit, parse, starts_with_block,
};
use crate::encryption_manager::decrypt_file::{join, plain_of};
use crate::encryption_manager::encrypt_file::{
    chunk_count, chunk_of, chunks_of, encodes, lemma_chunks, CHUNK_SIZE,
};
use crate::errors::ErrorKind;
use vstd::prelude::*;

verus! {

/// The chunks of a plaintext laid end to end are the plaintext.
pub proof fn lemma_join_chunks(content: Seq<u8>)
    ensures
        join(chunks_of(content)) == content,
    decreases content.len(),
{
    lemma_chunks(content);
    let chunks = chunks_of(content);
    if content.len() == 0 {
        assert(join(chunks) =~= content);
    } else {
        let size = CHUNK_SIZE as int;
        let first = chunk_of(content, 0);
        let rest = content.skip(first.len() as int);
        lemma_join_chunks(rest);
        lemma_chunks(rest);
        assert(chunks.first() == first);
        assert(chunks.drop_first() =~= chunks_of(rest)) by {
            assert(chunk_count(rest.len()) == chunk_count(content.len()) - 1);
            assert forall|i: int| 0 <= i < chunks_of(rest).len() implies chunks.drop_first()[i]
                == chunks_of(rest)[i] by {
                assert(chunk_of(content, i + 1) =~= chunk_of(rest, i));
            }
        }
        assert(first + rest =~= content);
    }
}

/// A container written from tokens holds the plaintexts that the tokens
/// carry, laid end to end.
pub proof fn lemma_plain_of_frames(key: Seq<char>, plains: Seq<Seq<u8>>, tokens: Seq<Seq<u8>>)
    requires
        tokens.len() == plains.len(),
        forall|i: int|
            0 <= i < tokens.len() ==> token_payload(key, #[trigger] tokens[i]) == Some(plains[i])
                && tokens[i].len() <= u32::MAX,
    ensures
        plain_of(key, frames(tokens)) == Ok::<Seq<u8>, ErrorKind>(join(plains)),
    decreases tokens.len(),
{
    if tokens.len() > 0 {
        let rest = tokens.drop_first();
        assert forall|i: int| 0 <= i < rest.len() implies token_payload(key, #[trigger] rest[i])
            == Some(plains.drop_first()[i]) && rest[i].len() <= u32::MAX by {
            assert(rest[i] == tokens[i + 1]);
        }
        lemma_plain_of_frames(key, plains.drop_first(), rest);
        assert(tokens.first() == tokens[0]);
        lemma_frame_in_front(tokens.first(), frames(rest));
        assert(frames(tokens).len() > 0);
    }
}

/// Round trip: what a container of a plaintext holds under its key is the
/// plaintext, and nothing else.
pub proof fn lemma_round_trip(key: Seq<char>, content: Seq<u8>, container: Seq<u8>)
    requires
        encodes(key, content, container),
    ensures
        plain_of(key, container) == Ok::<Seq<u8>, ErrorKind>(content),
{
    let blocks = parse(container).unwrap();
    lemma_frames_parse(container);
    lemma_parsed_blocks_fit(container);
    lemma_plain_of_frames(key, chunks_of(content), blocks);
    lemma_join_chunks(content);
}

/// A container of a plaintext has one block for every 64 KiB of the
/// plaintext, rounded up: none for the empty plaintext, whose container is
/// empty as well.
pub proof fn lemma_block_count(key: Seq<char>, content: Seq<u8>, container: Seq<u8>)
    requires
        encodes(key, content, container),
    ensures
        parse(container).unwrap().len() == chunk_count(content.len()),
        chunk_count(content.len()) * CHUNK_SIZE >= content.len(),
        content.len() > 0 ==> (chunk_count(content.len()) - 1) * CHUNK_SIZE < content.len(),
        content.len() == 0 <==> chunk_count(content.len()) == 0,
        content.len() == 0 <==> container.len() == 0,
{
    lemma_chunks(content);
    if container.len() > 0 {
        assert(parse(container).unwrap().len() > 0);
    }
}

/// Whatever a container holds under a key is what its blocks carry under
/// that key: where a plaintext comes out, the bytes are a container, every
/// block of it authenticates, and the plaintext is what the blocks carry,
/// laid end to end.
pub proof fn lemma_plain_is_carried(key: Seq<char>, container: Seq<u8>)
    requires
        plain_of(key, container) is Ok,
    ensures
        parse(container) is Some,
        forall|i: int|
            0 <= i < parse(container).unwrap().len() ==> token_payload(
                key,
                #[trigger] parse(container).unwrap()[i],
            ) is Some,
        plain_of(key, container).unwrap() == join(
            Seq::new(
                parse(container).unwrap().len(),
                |i: int| token_payload(key, parse(container).unwrap()[i]).unwrap(),
            ),
        ),
    decreases container.len(),
{
    let blocks = parse(container).unwrap();
    let carried = Seq::new(blocks.len(), |i: int| token_payload(key, blocks[i]).unwrap());
    if container.len() == 0 {
        assert(join(carried) =~= plain_of(key, container).unwrap());
    } else {
        let rest = after_first_block(container);
        lemma_plain_is_carried(key, rest);
        let rest_blocks = parse(rest).unwrap();
        assert(blocks =~= seq![first_block(container)] + rest_blocks);
        assert forall|i: int| 0 <= i < blocks.len() implies token_payload(
            key,
            #[trigger] blocks[i],
        ) is Some by {
            if i > 0 {
                assert(blocks[i] == rest_blocks[i - 1]);
            }
        }
        let rest_carried = Seq::new(
            rest_blocks.len(),
            |i: int| token_payload(key, rest_blocks[i]).unwrap(),
        );
        assert(carried.drop_first() =~= rest_carried) by {
            assert forall|i: int| 0 <= i < rest_carried.len() implies carried.drop_first()[i]
                == rest_carried[i] by {
                assert(blocks[i + 1] == rest_blocks[i]);
            }
        }
        assert(carried.first() == token_payload(key, first_block(container)).unwrap());
    }
}

/// A container with a block that does not authenticate under a key holds no
/// plaintext under that key: reading it ends in `DecryptFailed`.
pub proof fn lemma_wrong_key_fails(key: Seq<char>, container: Seq<u8>, index: int)
    requires
        parse(container) is Some,
        0 <= index < parse(container).unwrap().len(),
        token_payload(key, parse(container).unwrap()[index]) is None,
    ensures
        plain_of(key, container) == Err::<Seq<u8>, ErrorKind>(ErrorKind::DecryptFailed),
    decreases container.len(),
{
    let blocks = parse(container).unwrap();
    let rest = after_first_block(container);
    assert(container.len() > 0);
    assert(blocks =~= seq![first_block(container)] + parse(rest).unwrap());
    if index > 0 {
        assert(blocks[index] == parse(rest).unwrap()[index - 1]);
        lemma_wrong_key_fails(key, rest, index - 1);
    }
}

/// Containers can be laid end to end: after a container that holds a
/// plaintext, what follows is read as if it stood alone.
pub proof fn lemma_plain_of_concat(key: Seq<char>, front: Seq<u8>, back: Seq<u8>)
    requires
        plain_of(key, front) is Ok,
    ensures
        plain_of(key, front + back) == match plain_of(key, back) {
            Ok(plain) => Ok::<Seq<u8>, ErrorKind>(plain_of(key, front).unwrap() + plain),
            Err(e) => Err::<Seq<u8>, ErrorKind>(e),
        },
    decreases front.len(),
{
    if front.len() == 0 {
        assert(front + back =~= back);
        match plain_of(key, back) {
            Ok(plain) => {
                assert(plain_of(key, front).unwrap() + plain =~= plain);
            },
            Err(_) => {},
        }
    } else {
        let whole = front + back;
        let rest = after_first_block(front);
        assert(whole.take(4) =~= front.take(4));
        assert(starts_with_block(whole));
        assert(first_block(whole) =~= first_block(front));
        assert(after_first_block(whole) =~= rest + back);
        lemma_plain_of_concat(key, rest, back);
        match plain_of(key, back) {
            Ok(plain) => {
                let head = token_payload(key, first_block(front)).unwrap();
                assert(head + (plain_of(key, rest).unwrap() + plain) =~= (head + plain_of(
                    key,
                    rest,
                ).unwrap()) + plain);
            },
            Err(_) => {},
        }
    }
}

/// The blocks of two containers laid end to end are the blocks of the
/// first and then those of the second.
pub proof fn lemma_parse_concat(front: Seq<u8>, back: Seq<u8>)
    requires
        parse(front) is Some,
    ensures
        parse(front + back) == match parse(back) {
            Some(blocks) => Some(parse(front).unwrap() + blocks),
            None => None::<Seq<Seq<u8>>>,
        },
    decreases front.len(),
{
    if front.len() == 0 {
        assert(front + back =~= back);
        if let Some(blocks) = parse(back) {
            assert(parse(front).unwrap() + blocks =~= blocks);
        }
    } else {
        let whole = front + back;
        let rest = after_first_block(front);
        assert(whole.take(4) =~= front.take(4));
        assert(starts_with_block(whole));
        assert(first_block(whole) =~= first_block(front));
        assert(after_first_block(whole) =~= rest + back);
        lemma_parse_concat(rest, back);
        if let Some(blocks) = parse(back) {
            assert(seq![first_block(front)] + (parse(rest).unwrap() + blocks) =~= (seq![
                first_block(front),
            ] + parse(rest).unwrap()) + blocks);
        }
    }
}

/// A plaintext can be encoded piece by piece: where the first piece is a
/// whole number of chunks, the containers of two pieces laid end to end are
/// a container of the two pieces laid end to end.
pub proof fn lemma_encodes_concat(
    key: Seq<char>,
    first: Seq<u8>,
    second: Seq<u8>,
    front: Seq<u8>,
    back: Seq<u8>,
)
    requires
        encodes(key, first, front),
        encodes(key, second, back),
        first.len() % CHUNK_SIZE as nat == 0,
    ensures
        encodes(key, first + second, front + back),
{
    let size = CHUNK_SIZE as int;
    let whole = first + second;
    let full = chunk_count(first.len()) as int;
    lemma_parse_concat(front, back);
    lemma_chunks(first);
    lemma_chunks(second);
    lemma_chunks(whole);
    assert(first.len() == full * size);
    assert(chunk_count(whole.len()) == full + chunk_count(second.len()));
    let blocks = parse(front + back).unwrap();
    assert(blocks == parse(front).unwrap() + parse(back).unwrap());
    assert forall|i: int| 0 <= i < blocks.len() implies chunks_of(whole)[i] == if i < full {
        chunks_of(first)[i]
    } else {
        chunks_of(second)[i - full]
    } by {
        if i < full {
            assert((i + 1) * size <= first.len()) by (nonlinear_arith)
                requires
                    0 <= i < full,
                    first.len() == full * size,
                    size > 0,
            ;
            assert(chunk_of(whole, i) =~= chunk_of(first, i));
        } else {
            assert(i * size == first.len() + (i - full) * size && (i + 1) * size == first.len()
                + (i - full + 1) * size) by (nonlinear_arith)
                requires
                    first.len() == full * size,
            ;
            assert(chunk_of(whole, i) =~= chunk_of(second, i - full));
        }
    }
}

} // verus!
