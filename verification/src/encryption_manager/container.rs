//! The wire format of a container: blocks one after another, each a 4-byte
//! big-endian length and then that many bytes of ciphertext. No byte stands
//! before the first block or after the last; no bytes at all is the
//! container of an empty file.

use crate::errors::ErrorKind;
use vstd::prelude::*;
use vstd::slice::{slice_subrange, slice_to_vec};

verus! {

/// The length header of a block of `len` bytes: `len` as four bytes, the
/// most significant first.
pub open spec fn be32(len: nat) -> Seq<u8> {
    seq![
        ((len / 16777216) % 256) as u8,
        ((len / 65536) % 256) as u8,
        ((len / 256) % 256) as u8,
        (len % 256) as u8,
    ]
}

/// The number that a length header stands for.
pub open spec fn be32_value(header: Seq<u8>) -> nat
    recommends
        header.len() == 4,
{
    (header[0] as nat) * 16777216 + (header[1] as nat) * 65536 + (header[2] as nat) * 256
        + header[3] as nat
}

/// One block on the wire: its length header, then its bytes.
pub open spec fn frame(block: Seq<u8>) -> Seq<u8> {
    be32(block.len()) + block
}

/// The container that holds the blocks, in order.
pub open spec fn frames(blocks: Seq<Seq<u8>>) -> Seq<u8>
    decreases blocks.len(),
{
    if blocks.len() == 0 {
        Seq::empty()
    } else {
        frame(blocks.first()) + frames(blocks.drop_first())
    }
}

/// Whether the bytes begin with a whole block: a full header and as many
/// bytes after it as the header announces.
pub open spec fn starts_with_block(bytes: Seq<u8>) -> bool {
    bytes.len() >= 4 && bytes.len() >= 4 + be32_value(bytes.take(4))
}

/// The first block of bytes that start with one.
pub open spec fn first_block(bytes: Seq<u8>) -> Seq<u8>
    recommends
        starts_with_block(bytes),
{
    bytes.subrange(4, 4 + be32_value(bytes.take(4)) as int)
}

/// What follows the first block.
pub open spec fn after_first_block(bytes: Seq<u8>) -> Seq<u8>
    recommends
        starts_with_block(bytes),
{
    bytes.skip(4 + be32_value(bytes.take(4)) as int)
}

/// The blocks of a container, `None` where the bytes are no container: where
/// they end inside a header or inside a block.
pub open spec fn parse(bytes: Seq<u8>) -> Option<Seq<Seq<u8>>>
    decreases bytes.len(),
{
    if bytes.len() == 0 {
        Some(Seq::empty())
    } else if !starts_with_block(bytes) {
        None
    } else {
        match parse(after_first_block(bytes)) {
            Some(rest) => Some(seq![first_block(bytes)] + rest),
            None => None,
        }
    }
}

/// A header stands for the length it was made of.
pub proof fn lemma_be32_value(len: nat)
    requires
        len <= u32::MAX,
    ensures
        be32(len).len() == 4,
        be32_value(be32(len)) == len,
{
}

/// The header of a number is the only header that stands for it.
pub proof fn lemma_be32_of_value(header: Seq<u8>)
    requires
        header.len() == 4,
    ensures
        be32_value(header) <= u32::MAX,
        be32(be32_value(header)) == header,
{
    let value = be32_value(header);
    let (a, b, c, d) = (header[0] as int, header[1] as int, header[2] as int, header[3] as int);
    assert(value == ((a * 256 + b) * 256 + c) * 256 + d);
    assert(value % 256 == d && value / 256 == (a * 256 + b) * 256 + c);
    assert((value / 256) % 256 == c && value / 65536 == a * 256 + b);
    assert((value / 65536) % 256 == b && value / 16777216 == a);
    assert(be32(value) =~= header);
}

/// A framed block in front of any bytes is read back as that block, with
/// those bytes left over.
pub proof fn lemma_frame_in_front(block: Seq<u8>, rest: Seq<u8>)
    requires
        block.len() <= u32::MAX,
    ensures
        starts_with_block(frame(block) + rest),
        first_block(frame(block) + rest) == block,
        after_first_block(frame(block) + rest) == rest,
{
    let bytes = frame(block) + rest;
    lemma_be32_value(block.len());
    assert(bytes.take(4) =~= be32(block.len()));
    assert(first_block(bytes) =~= block);
    assert(after_first_block(bytes) =~= rest);
}

/// Reading a container that was written from blocks gives the blocks back.
pub proof fn lemma_parse_frames(blocks: Seq<Seq<u8>>)
    requires
        forall|i: int| 0 <= i < blocks.len() ==> (#[trigger] blocks[i]).len() <= u32::MAX,
    ensures
        parse(frames(blocks)) == Some(blocks),
    decreases blocks.len(),
{
    if blocks.len() == 0 {
        assert(parse(frames(blocks)).unwrap() =~= blocks);
    } else {
        let rest = blocks.drop_first();
        lemma_parse_frames(rest);
        lemma_frame_in_front(blocks.first(), frames(rest));
        assert(frames(blocks).len() > 0);
        assert(seq![blocks.first()] + rest =~= blocks);
    }
}

/// The blocks that are read from a container are short enough for their
/// length headers.
pub proof fn lemma_parsed_blocks_fit(bytes: Seq<u8>)
    requires
        parse(bytes) is Some,
    ensures
        forall|i: int|
            0 <= i < parse(bytes).unwrap().len() ==> (#[trigger] parse(bytes).unwrap()[i]).len()
                <= u32::MAX,
    decreases bytes.len(),
{
    if bytes.len() > 0 {
        let rest = after_first_block(bytes);
        lemma_parsed_blocks_fit(rest);
        let blocks = parse(bytes).unwrap();
        let tail = parse(rest).unwrap();
        assert(blocks == seq![first_block(bytes)] + tail);
        assert(first_block(bytes).len() <= u32::MAX) by {
            lemma_be32_of_value(bytes.take(4));
        }
        assert forall|i: int| 0 <= i < blocks.len() implies (#[trigger] blocks[i]).len()
            <= u32::MAX by {
            if i > 0 {
                assert(blocks[i] == tail[i - 1]);
            }
        }
    }
}

/// Writing the blocks that were read from a container gives the container
/// back: a container has one reading only.
pub proof fn lemma_frames_parse(bytes: Seq<u8>)
    requires
        parse(bytes) is Some,
    ensures
        frames(parse(bytes).unwrap()) == bytes,
    decreases bytes.len(),
{
    if bytes.len() == 0 {
        assert(frames(parse(bytes).unwrap()) =~= bytes);
    } else {
        let rest = after_first_block(bytes);
        let first = first_block(bytes);
        lemma_frames_parse(rest);
        let blocks = parse(bytes).unwrap();
        let tail = parse(rest).unwrap();
        assert(blocks == seq![first] + tail);
        assert(blocks.first() == first);
        assert(blocks.drop_first() =~= tail);
        assert(frame(first) + rest =~= bytes) by {
            lemma_be32_of_value(bytes.take(4));
            assert(be32(first.len()) == bytes.take(4));
        }
        assert(frames(blocks) == frame(first) + frames(tail));
    }
}

/// A block added at the end of the blocks is a frame added at the end of
/// the container.
pub proof fn lemma_frames_push(blocks: Seq<Seq<u8>>, block: Seq<u8>)
    ensures
        frames(blocks.push(block)) == frames(blocks) + frame(block),
    decreases blocks.len(),
{
    let longer = blocks.push(block);
    if blocks.len() == 0 {
        assert(longer.drop_first() =~= blocks);
        assert(frames(longer) =~= frames(blocks) + frame(block));
    } else {
        lemma_frames_push(blocks.drop_first(), block);
        assert(longer.drop_first() =~= blocks.drop_first().push(block));
        assert(longer.first() == blocks.first());
        assert(frames(longer) == frame(blocks.first()) + frames(longer.drop_first()));
        assert(frames(longer) =~= frames(blocks) + frame(block));
    }
}

/// Appends the frame of a block to a container under construction.
pub fn write_block(container: &mut Vec<u8>, block: &[u8])
    requires
        block@.len() <= u32::MAX,
    ensures
        final(container)@ == old(container)@ + frame(block@),
{
    let len: usize = block.len();
    let ghost before = container@;
    container.push(((len / 16777216) % 256) as u8);
    container.push(((len / 65536) % 256) as u8);
    container.push(((len / 256) % 256) as u8);
    container.push((len % 256) as u8);
    assert(container@ =~= before + be32(block@.len()));
    let mut at: usize = 0;
    while at < len
        invariant
            at <= len,
            len == block@.len(),
            container@ =~= before + be32(block@.len()) + block@.take(at as int),
        decreases len - at,
    {
        container.push(block[at]);
        at = at + 1;
    }
    assert(block@.take(len as int) =~= block@);
}

/// Reads what a reader got when it asked for the four bytes of a length
/// header. Nothing at all is the clean end of the container; four bytes are
/// the length of the next block; one to three bytes are a header cut short.
pub fn block_length(header: &[u8]) -> (r: Result<Option<usize>, ErrorKind>)
    requires
        header@.len() <= 4,
    ensures
        header@.len() == 0 ==> r == Ok::<Option<usize>, ErrorKind>(None),
        0 < header@.len() < 4 ==> r == Err::<Option<usize>, ErrorKind>(
            ErrorKind::CorruptContainer,
        ),
        header@.len() == 4 ==> r == Ok::<Option<usize>, ErrorKind>(
            Some(be32_value(header@) as usize),
        ) && be32_value(header@) <= usize::MAX,
{
    if header.len() == 0 {
        Ok(None)
    } else if header.len() < 4 {
        Err(ErrorKind::CorruptContainer)
    } else {
        let high: usize = header[0] as usize * 16777216 + header[1] as usize * 65536;
        let low: usize = header[2] as usize * 256 + header[3] as usize;
        Ok(Some(high + low))
    }
}

/// Blocks as sequences of bytes.
pub open spec fn blocks_view(blocks: Seq<Vec<u8>>) -> Seq<Seq<u8>> {
    Seq::new(blocks.len(), |i: int| blocks[i]@)
}

/// The blocks of a container, in order. Fails with `CorruptContainer` where
/// the bytes end inside a header or inside a block, and in no other case.
pub fn read_blocks(container: &[u8]) -> (r: Result<Vec<Vec<u8>>, ErrorKind>)
    ensures
        match parse(container@) {
            Some(blocks) => r is Ok && blocks_view(r.unwrap()@) == blocks,
            None => r == Err::<Vec<Vec<u8>>, ErrorKind>(ErrorKind::CorruptContainer),
        },
{
    let len: usize = container.len();
    let mut blocks: Vec<Vec<u8>> = Vec::new();
    let mut at: usize = 0;
    assert(container@.skip(0) =~= container@);
    assert(blocks_view(blocks@) + Seq::<Seq<u8>>::empty() =~= blocks_view(blocks@));
    while at < len
        invariant
            len == container@.len(),
            at <= len,
            parse(container@) == match parse(container@.skip(at as int)) {
                Some(rest) => Some(blocks_view(blocks@) + rest),
                None => None::<Seq<Seq<u8>>>,
            },
        decreases len - at,
    {
        let ghost rest = container@.skip(at as int);
        if len - at < 4 {
            return Err(ErrorKind::CorruptContainer);
        }
        let header = slice_subrange(container, at, at + 4);
        assert(header@ =~= rest.take(4));
        let announced: usize = match block_length(header) {
            Ok(Some(n)) => n,
            _ => {
                return Err(ErrorKind::CorruptContainer);
            },
        };
        if len - at - 4 < announced {
            return Err(ErrorKind::CorruptContainer);
        }
        let end: usize = at + 4 + announced;
        let block = slice_to_vec(slice_subrange(container, at + 4, end));
        assert(block@ =~= first_block(rest));
        assert(after_first_block(rest) =~= container@.skip(end as int));
        let ghost before = blocks_view(blocks@);
        blocks.push(block);
        proof {
            assert(blocks_view(blocks@) =~= before.push(block@));
            match parse(container@.skip(end as int)) {
                Some(tail) => {
                    assert(before + (seq![first_block(rest)] + tail) =~= blocks_view(blocks@)
                        + tail);
                },
                None => {},
            }
        }
        at = end;
    }
    assert(container@.skip(len as int) =~= Seq::<u8>::empty());
    assert(blocks_view(blocks@) + Seq::<Seq<u8>>::empty() =~= blocks_view(blocks@));
    Ok(blocks)
}

} // verus!
