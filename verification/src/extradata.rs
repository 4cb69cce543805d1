//! The extra data section: a chain of self-describing extension blocks, each
//! a 32-bit size, a 32-bit signature and an opaque payload, closed by a size
//! below the minimum block size.  Unknown blocks round-trip byte for byte.

use vstd::prelude::*;
use crate::error::{Component, Error};
use crate::wire::{bytes_eq, have, lemma_u32_round_trip, push_u32, read_u32, u32_at, u32_le_bytes};

verus! {

/// One extension block, kept verbatim.
#[derive(Clone, Debug)]
pub struct ExtraDataBlock {
    /// The 32-bit signature naming the kind of block.
    pub signature: u32,
    /// The payload after size and signature, uninterpreted.
    pub data: Vec<u8>,
}

/// The mathematical value of one extension block.
pub struct ExtraDataBlockV {
    /// The 32-bit signature naming the kind of block.
    pub signature: u32,
    /// The payload after size and signature, uninterpreted.
    pub data: Seq<u8>,
}

impl View for ExtraDataBlock {
    type V = ExtraDataBlockV;

    open spec fn view(&self) -> ExtraDataBlockV {
        ExtraDataBlockV { signature: self.signature, data: self.data@ }
    }
}

impl DeepView for ExtraDataBlock {
    type V = ExtraDataBlockV;

    open spec fn deep_view(&self) -> ExtraDataBlockV {
        self@
    }
}

/// The chain of extension blocks of a link.
#[derive(Clone, Debug)]
pub struct ExtraData {
    /// The blocks, in file order.
    pub blocks: Vec<ExtraDataBlock>,
}

impl View for ExtraData {
    type V = Seq<ExtraDataBlockV>;

    open spec fn view(&self) -> Seq<ExtraDataBlockV> {
        self.blocks.deep_view()
    }
}

impl Default for ExtraData {
    /// A chain without blocks.
    fn default() -> (r: Self)
        ensures
            r@ == Seq::<ExtraDataBlockV>::empty(),
    {
        let r = ExtraData { blocks: Vec::new() };
        proof {
            assert(r@ =~= Seq::<ExtraDataBlockV>::empty());
        }
        r
    }
}

impl ExtraData {
    /// The blocks, in file order.
    pub fn blocks(&self) -> (r: &Vec<ExtraDataBlock>)
        ensures
            r.deep_view() == self@,
    {
        &self.blocks
    }

    /// Appends one block.
    pub fn push_block(&mut self, block: ExtraDataBlock)
        ensures
            final(self)@ == old(self)@.push(block@),
    {
        let ghost bv = block@;
        self.blocks.push(block);
        proof {
            assert(self@ =~~= old(self)@.push(bv));
        }
    }
}

impl PartialEq for ExtraDataBlock {
    fn eq(&self, other: &ExtraDataBlock) -> (r: bool) {
        self.signature == other.signature && bytes_eq(&self.data, &other.data)
    }
}

impl vstd::std_specs::cmp::PartialEqSpecImpl for ExtraDataBlock {
    open spec fn obeys_eq_spec() -> bool {
        true
    }

    open spec fn eq_spec(&self, other: &ExtraDataBlock) -> bool {
        self@ == other@
    }
}

impl PartialEq for ExtraData {
    fn eq(&self, other: &ExtraData) -> (r: bool) {
        if self.blocks.len() != other.blocks.len() {
            proof {
                assert(self@.len() != other@.len());
            }
            return false;
        }
        let n = self.blocks.len();
        let mut i: usize = 0;
        while i < n
            invariant
                0 <= i <= n,
                n == self.blocks.len() == other.blocks.len(),
                forall|j: int| 0 <= j < i ==> self@[j] == other@[j],
            decreases n - i,
        {
            if !(self.blocks[i].eq(&other.blocks[i])) {
                proof {
                    assert(self@[i as int] != other@[i as int]);
                }
                return false;
            }
            i = i + 1;
        }
        proof {
            assert(self@ =~= other@);
        }
        true
    }
}

impl vstd::std_specs::cmp::PartialEqSpecImpl for ExtraData {
    open spec fn obeys_eq_spec() -> bool {
        true
    }

    open spec fn eq_spec(&self, other: &ExtraData) -> bool {
        self@ == other@
    }
}

/// Extension blocks read from `pos`: each 32-bit size below 8 ends the chain,
/// any other size owes a signature and `size - 8` payload bytes.
pub open spec fn spec_read_extra_blocks(b: Seq<u8>, pos: int) -> Result<
    (Seq<ExtraDataBlockV>, int),
    Error,
>
    decreases b.len() - pos,
{
    if !have(b, pos, 4) {
        Err(Error::UnexpectedEof(Component::ExtraData))
    } else {
        let size = u32_at(b, pos) as int;
        if size < 8 {
            Ok((Seq::empty(), pos + 4))
        } else if !have(b, pos, size) {
            Err(Error::UnexpectedEof(Component::ExtraData))
        } else {
            match spec_read_extra_blocks(b, pos + size) {
                Ok((rest, np)) => Ok(
                    (
                        seq![
                            ExtraDataBlockV {
                                signature: u32_at(b, pos + 4),
                                data: b.subrange(pos + 8, pos + size),
                            },
                        ] + rest,
                        np,
                    ),
                ),
                Err(e) => Err(e),
            }
        }
    }
}

/// A successful chain consumes at least its terminator and stays in bounds.
/// A successful chain looks only at the bytes it consumes.
/// Prepends already-consumed blocks to the outcome of reading the rest.
pub open spec fn blocks_with_prefix(
    a: Seq<ExtraDataBlockV>,
    r: Result<(Seq<ExtraDataBlockV>, int), Error>,
) -> Result<(Seq<ExtraDataBlockV>, int), Error> {
    match r {
        Ok((rest, np)) => Ok((a + rest, np)),
        Err(e) => Err(e),
    }
}

/// Decodes the chain of extension blocks at `pos`.
pub fn read_extra_data(data: &Vec<u8>, pos: usize) -> (r: Result<(ExtraData, usize), Error>)
    ensures
        match r {
            Ok((x, np)) => spec_read_extra_blocks(data@, pos as int) == Ok::<_, Error>(
                (x@, np as int),
            ) && np >= pos,
            Err(e) => spec_read_extra_blocks(data@, pos as int) == Err::<
                (Seq<ExtraDataBlockV>, int),
                _,
            >(e),
        },
{
    let len = data.len();
    if pos > len {
        return Err(Error::UnexpectedEof(Component::ExtraData));
    }
    let mut blocks: Vec<ExtraDataBlock> = Vec::new();
    let mut cur: usize = pos;
    proof {
        assert(blocks.deep_view() =~= Seq::<ExtraDataBlockV>::empty());
    }
    loop
        invariant
            data@.len() <= usize::MAX,
            len == data@.len(),
            pos <= cur <= data@.len(),
            spec_read_extra_blocks(data@, pos as int) == blocks_with_prefix(
                blocks.deep_view(),
                spec_read_extra_blocks(data@, cur as int),
            ),
        decreases data@.len() - cur,
    {
        if len - cur < 4 {
            return Err(Error::UnexpectedEof(Component::ExtraData));
        }
        let size = read_u32(data, cur) as usize;
        if size < 8 {
            proof {
                assert(blocks.deep_view() + Seq::<ExtraDataBlockV>::empty()
                    =~= blocks.deep_view());
            }
            return Ok((ExtraData { blocks }, cur + 4));
        }
        if len - cur < size {
            return Err(Error::UnexpectedEof(Component::ExtraData));
        }
        let signature = read_u32(data, cur + 4);
        let payload = vstd::slice::slice_to_vec(
            vstd::slice::slice_subrange(data.as_slice(), cur + 8, cur + size),
        );
        let ghost old_blocks = blocks.deep_view();
        let ghost bv = ExtraDataBlockV {
            signature,
            data: data@.subrange(cur as int + 8, cur as int + size),
        };
        blocks.push(ExtraDataBlock { signature, data: payload });
        proof {
            assert(blocks.deep_view() =~~= old_blocks.push(bv));
            let x = spec_read_extra_blocks(data@, cur as int + size as int);
            if x is Ok {
                let rest = x->Ok_0.0;
                assert(old_blocks + (seq![bv] + rest) =~= old_blocks.push(bv) + rest);
            }
        }
        cur = cur + size;
    }
}

/// Every block fits its 32-bit size field.
pub open spec fn extra_data_encodable(bs: Seq<ExtraDataBlockV>) -> bool {
    forall|k: int| 0 <= k < bs.len() ==> #[trigger] bs[k].data.len() + 8 <= 0xFFFFFFFF
}

/// The bytes of a run of extension blocks, without the closing terminator.
pub open spec fn extra_blocks_bytes(bs: Seq<ExtraDataBlockV>) -> Seq<u8>
    decreases bs.len(),
{
    if bs.len() == 0 {
        Seq::empty()
    } else {
        u32_le_bytes((bs[0].data.len() + 8) as u32) + u32_le_bytes(bs[0].signature) + bs[0].data
            + extra_blocks_bytes(bs.skip(1))
    }
}

/// Appending one block appends its size, signature and payload.
pub proof fn lemma_extra_blocks_bytes_push(bs: Seq<ExtraDataBlockV>, x: ExtraDataBlockV)
    ensures
        extra_blocks_bytes(bs.push(x)) == extra_blocks_bytes(bs) + (u32_le_bytes(
            (x.data.len() + 8) as u32,
        ) + u32_le_bytes(x.signature) + x.data),
    decreases bs.len(),
{
    if bs.len() == 0 {
        assert(bs.push(x).skip(1) =~= bs);
        assert(extra_blocks_bytes(bs.push(x)) =~= extra_blocks_bytes(bs) + (u32_le_bytes(
            (x.data.len() + 8) as u32,
        ) + u32_le_bytes(x.signature) + x.data));
    } else {
        assert(bs.push(x).skip(1) =~= bs.skip(1).push(x));
        lemma_extra_blocks_bytes_push(bs.skip(1), x);
        assert(extra_blocks_bytes(bs.push(x)) =~= extra_blocks_bytes(bs) + (u32_le_bytes(
            (x.data.len() + 8) as u32,
        ) + u32_le_bytes(x.signature) + x.data));
    }
}

/// A region holding the bytes of `bs` followed by a zero terminator reads
/// back as exactly `bs`.
pub proof fn lemma_extra_blocks_round_trip(bs: Seq<ExtraDataBlockV>, b: Seq<u8>, pos: int)
    requires
        extra_data_encodable(bs),
        have(b, pos, extra_blocks_bytes(bs).len() as int + 4),
        forall|i: int|
            0 <= i < extra_blocks_bytes(bs).len() ==> #[trigger] b[pos + i] == extra_blocks_bytes(
                bs,
            )[i],
        u32_at(b, pos + extra_blocks_bytes(bs).len()) == 0,
    ensures
        spec_read_extra_blocks(b, pos) == Ok::<_, Error>(
            (bs, pos + extra_blocks_bytes(bs).len() + 4),
        ),
    decreases bs.len(),
{
    let w = extra_blocks_bytes(bs);
    if bs.len() == 0 {
        lemma_u32_round_trip(0);
        assert(u32_at(b, pos) == 0);
        assert(spec_read_extra_blocks(b, pos) == Ok::<_, Error>(
            (Seq::<ExtraDataBlockV>::empty(), pos + 4),
        ));
        assert(bs =~= Seq::<ExtraDataBlockV>::empty());
    } else {
        let x = bs[0];
        let size = x.data.len() + 8;
        let rest_bytes = extra_blocks_bytes(bs.skip(1));
        assert(w == u32_le_bytes(size as u32) + u32_le_bytes(x.signature) + x.data + rest_bytes);
        assert(w.len() == size + rest_bytes.len());
        lemma_u32_round_trip(size as u32);
        lemma_u32_round_trip(x.signature);
        assert(b[pos + 0] == w[0] && b[pos + 1] == w[1] && b[pos + 2] == w[2] && b[pos + 3]
            == w[3]);
        assert(u32_at(b, pos) == size as u32);
        assert(b[pos + 4] == w[4] && b[pos + 5] == w[5] && b[pos + 6] == w[6] && b[pos + 7]
            == w[7]);
        assert(u32_at(b, pos + 4) == x.signature);
        assert forall|j: int| 0 <= j < x.data.len() implies #[trigger] b.subrange(
            pos + 8,
            pos + size,
        )[j] == x.data[j] by {
            assert(b[pos + (8 + j)] == w[8 + j]);
            assert(w[8 + j] == x.data[j]);
        }
        assert(b.subrange(pos + 8, pos + size) =~= x.data);
        assert forall|i: int| 0 <= i < rest_bytes.len() implies #[trigger] b[pos + size + i]
            == rest_bytes[i] by {
            assert(b[pos + (size + i)] == w[size + i]);
            assert(w[size + i] == rest_bytes[i]);
        }
        assert(extra_data_encodable(bs.skip(1)));
        lemma_extra_blocks_round_trip(bs.skip(1), b, pos + size);
        assert(seq![x] + bs.skip(1) =~= bs);
    }
}

/// The bytes the chain of extension blocks encodes to, terminator included;
/// or the error where a block cannot fit its 32-bit size field.
pub open spec fn spec_write_extra_data(bs: Seq<ExtraDataBlockV>) -> Result<Seq<u8>, Error> {
    if !extra_data_encodable(bs) {
        Err(Error::TooLarge(Component::ExtraData))
    } else {
        Ok(extra_blocks_bytes(bs) + u32_le_bytes(0))
    }
}

/// Encodes the chain of extension blocks followed by the terminator; the
/// appended bytes read back as exactly the given blocks.
pub fn write_extra_data(out: &mut Vec<u8>, x: &ExtraData) -> (r: Result<(), Error>)
    ensures
        final(out)@.len() >= old(out)@.len(),
        forall|i: int| 0 <= i < old(out)@.len() ==> #[trigger] final(out)@[i] == old(out)@[i],
        match r {
            Ok(()) => {
                &&& spec_write_extra_data(x@) matches Ok(w) && final(out)@ == old(out)@ + w
                &&& spec_read_extra_blocks(final(out)@, old(out)@.len() as int) == Ok::<_, Error>(
                    (x@, final(out)@.len() as int),
                )
            },
            Err(e) => spec_write_extra_data(x@) == Err::<Seq<u8>, _>(e) && final(out)@ == old(
                out,
            )@,
        },
{
    let ghost base = out@.len() as int;
    let n = x.blocks.len();
    let mut i: usize = 0;
    while i < n
        invariant
            0 <= i <= n,
            n == x.blocks.len(),
            forall|k: int| 0 <= k < i ==> #[trigger] x@[k].data.len() + 8 <= 0xFFFFFFFF,
            out@ == old(out)@,
        decreases n - i,
    {
        if x.blocks[i].data.len() > 0xFFFFFFFF - 8 {
            proof {
                assert(x@[i as int].data.len() + 8 > 0xFFFFFFFF);
            }
            return Err(Error::TooLarge(Component::ExtraData));
        }
        i = i + 1;
    }
    let ghost t0 = out@;
    let mut i: usize = 0;
    while i < n
        invariant
            0 <= i <= n,
            n == x.blocks.len(),
            forall|k: int| 0 <= k < n ==> #[trigger] x@[k].data.len() + 8 <= 0xFFFFFFFF,
            out@ == t0 + extra_blocks_bytes(x@.take(i as int)),
            t0 == old(out)@,
        decreases n - i,
    {
        proof {
            lemma_extra_blocks_bytes_push(x@.take(i as int), x@[i as int]);
            assert(x@.take(i as int).push(x@[i as int]) =~= x@.take(i as int + 1));
        }
        let block = &x.blocks[i];
        push_u32(out, (block.data.len() + 8) as u32);
        push_u32(out, block.signature);
        out.extend_from_slice(block.data.as_slice());
        proof {
            assert(out@ =~= t0 + extra_blocks_bytes(x@.take(i as int + 1)));
        }
        i = i + 1;
    }
    push_u32(out, 0);
    proof {
        assert(x@.take(n as int) =~= x@);
        let w = extra_blocks_bytes(x@);
        lemma_u32_round_trip(0);
        assert(forall|i: int| 0 <= i < w.len() ==> #[trigger] out@[base + i] == w[i]);
        assert(out@.subrange(base + w.len(), base + w.len() + 4) =~= u32_le_bytes(0));
        assert(u32_at(out@, base + w.len()) == 0);
        lemma_extra_blocks_round_trip(x@, out@, base);
        assert(out@ =~= old(out)@ + (w + u32_le_bytes(0)));
    }
    Ok(())
}

} // verus!
