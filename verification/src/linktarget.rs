//! The link target identifier list: a 16-bit total length, then a run of
//! length-prefixed item records closed by a two-byte zero terminator.  Record
//! payloads are opaque to the codec and round-trip byte for byte.

use vstd::prelude::*;
use crate::error::{Component, Error};
use crate::wire::{bytes_eq, have, lemma_u16_round_trip, push_u16, read_u16, u16_at, u16_le_bytes};

verus! {

/// The target of the link, as an ordered run of opaque shell item records.
#[derive(Clone, Debug)]
pub struct LinkTargetIdList {
    /// The item records, each without its two-byte length prefix.
    pub records: Vec<Vec<u8>>,
}

impl View for LinkTargetIdList {
    type V = Seq<Seq<u8>>;

    open spec fn view(&self) -> Seq<Seq<u8>> {
        self.records.deep_view()
    }
}

impl LinkTargetIdList {
    /// A list without records.
    pub fn new() -> (r: Self)
        ensures
            r@ == Seq::<Seq<u8>>::empty(),
    {
        let r = LinkTargetIdList { records: Vec::new() };
        proof {
            assert(r@ =~= Seq::<Seq<u8>>::empty());
        }
        r
    }

    /// The item records.
    pub fn records(&self) -> (r: &Vec<Vec<u8>>)
        ensures
            r.deep_view() == self@,
    {
        &self.records
    }

    /// Appends one item record.
    pub fn push_record(&mut self, record: Vec<u8>)
        ensures
            final(self)@ == old(self)@.push(record@),
    {
        self.records.push(record);
        proof {
            assert(self@ =~~= old(self)@.push(record@));
        }
    }
}

impl PartialEq for LinkTargetIdList {
    fn eq(&self, other: &LinkTargetIdList) -> (r: bool) {
        if self.records.len() != other.records.len() {
            proof {
                assert(self@.len() != other@.len());
            }
            return false;
        }
        let n = self.records.len();
        let mut i: usize = 0;
        while i < n
            invariant
                0 <= i <= n,
                n == self.records.len() == other.records.len(),
                forall|j: int| 0 <= j < i ==> self@[j] == other@[j],
            decreases n - i,
        {
            let same = bytes_eq(&self.records[i], &other.records[i]);
            proof {
                assert(self@[i as int] =~= self.records@[i as int]@);
                assert(other@[i as int] =~= other.records@[i as int]@);
            }
            if !same {
                proof {
                    assert(self@[i as int] != other@[i as int]);
                }
                return false;
            }
            i = i + 1;
        }
        proof {
            assert(self@ =~= other@);
        }
        true
    }
}

impl vstd::std_specs::cmp::PartialEqSpecImpl for LinkTargetIdList {
    open spec fn obeys_eq_spec() -> bool {
        true
    }

    open spec fn eq_spec(&self, other: &LinkTargetIdList) -> bool {
        self@ == other@
    }
}

/// Item records read from `pos` until a zero terminator or until `remaining`
/// bytes are exhausted; a record length of one, or one that overruns the
/// declared total, is malformed.
pub open spec fn spec_read_id_records(b: Seq<u8>, pos: int, remaining: int) -> Result<
    (Seq<Seq<u8>>, int),
    Error,
>
    decreases remaining,
{
    if remaining == 0 {
        Ok((Seq::empty(), pos))
    } else if remaining < 2 || !have(b, pos, 2) {
        Err(Error::Parse(Component::LinkTargetIdList))
    } else {
        let rlen = u16_at(b, pos) as int;
        if rlen == 0 {
            if remaining == 2 {
                Ok((Seq::empty(), pos + 2))
            } else {
                Err(Error::Parse(Component::LinkTargetIdList))
            }
        } else if rlen < 2 || rlen > remaining {
            Err(Error::Parse(Component::LinkTargetIdList))
        } else {
            match spec_read_id_records(b, pos + rlen, remaining - rlen) {
                Ok((rest, np)) => Ok((seq![b.subrange(pos + 2, pos + rlen)] + rest, np)),
                Err(e) => Err(e),
            }
        }
    }
}

/// The identifier list read at `pos`: a 16-bit total, then that many bytes of
/// records.
pub open spec fn spec_read_id_list(b: Seq<u8>, pos: int) -> Result<(Seq<Seq<u8>>, int), Error> {
    if !have(b, pos, 2) {
        Err(Error::UnexpectedEof(Component::LinkTargetIdList))
    } else {
        let total = u16_at(b, pos) as int;
        if !have(b, pos + 2, total) {
            Err(Error::UnexpectedEof(Component::LinkTargetIdList))
        } else {
            spec_read_id_records(b, pos + 2, total)
        }
    }
}

/// A successful record run consumes exactly its declared region.
/// A successful record run looks only at the bytes of its region.
/// Prepends already-consumed records to the outcome of reading the rest.
pub open spec fn with_prefix(a: Seq<Seq<u8>>, r: Result<(Seq<Seq<u8>>, int), Error>) -> Result<
    (Seq<Seq<u8>>, int),
    Error,
> {
    match r {
        Ok((rest, np)) => Ok((a + rest, np)),
        Err(e) => Err(e),
    }
}

/// Decodes the identifier list at `pos`.
pub fn read_id_list(data: &Vec<u8>, pos: usize) -> (r: Result<(LinkTargetIdList, usize), Error>)
    ensures
        match r {
            Ok((l, np)) => spec_read_id_list(data@, pos as int) == Ok::<_, Error>(
                (l@, np as int),
            ) && np >= pos,
            Err(e) => spec_read_id_list(data@, pos as int) == Err::<(Seq<Seq<u8>>, int), _>(e),
        },
{
    let len = data.len();
    if pos > len || len - pos < 2 {
        return Err(Error::UnexpectedEof(Component::LinkTargetIdList));
    }
    let total = read_u16(data, pos) as usize;
    if len - (pos + 2) < total {
        return Err(Error::UnexpectedEof(Component::LinkTargetIdList));
    }
    let mut records: Vec<Vec<u8>> = Vec::new();
    let mut cur: usize = pos + 2;
    let mut remaining: usize = total;
    proof {
        assert(records.deep_view() =~= Seq::<Seq<u8>>::empty());
        assert(Seq::<Seq<u8>>::empty() + spec_read_id_records(
            data@,
            pos as int + 2,
            total as int,
        )->Ok_0.0 =~= spec_read_id_records(data@, pos as int + 2, total as int)->Ok_0.0);
    }
    loop
        invariant
            pos + 2 + total <= data@.len(),
            data@.len() <= usize::MAX,
            pos + 2 <= cur,
            cur + remaining <= data@.len(),
            spec_read_id_list(data@, pos as int) == spec_read_id_records(
                data@,
                pos as int + 2,
                total as int,
            ),
            spec_read_id_records(data@, pos as int + 2, total as int) == with_prefix(
                records.deep_view(),
                spec_read_id_records(data@, cur as int, remaining as int),
            ),
        decreases remaining,
    {
        if remaining == 0 {
            proof {
                assert(spec_read_id_records(data@, cur as int, remaining as int) == Ok::<_, Error>(
                    (Seq::<Seq<u8>>::empty(), cur as int),
                ));
                assert(records.deep_view() + Seq::<Seq<u8>>::empty() =~= records.deep_view());
            }
            return Ok((LinkTargetIdList { records }, cur));
        }
        if remaining < 2 {
            proof {
                assert(spec_read_id_records(data@, cur as int, remaining as int) == Err::<
                    (Seq<Seq<u8>>, int),
                    _,
                >(Error::Parse(Component::LinkTargetIdList)));
            }
            return Err(Error::Parse(Component::LinkTargetIdList));
        }
        let rlen = read_u16(data, cur) as usize;
        if rlen == 0 {
            if remaining == 2 {
                proof {
                    assert(spec_read_id_records(data@, cur as int, remaining as int) == Ok::<
                        _,
                        Error,
                    >((Seq::<Seq<u8>>::empty(), cur as int + 2)));
                    assert(records.deep_view() + Seq::<Seq<u8>>::empty() =~= records.deep_view());
                }
                return Ok((LinkTargetIdList { records }, cur + 2));
            } else {
                return Err(Error::Parse(Component::LinkTargetIdList));
            }
        }
        if rlen < 2 || rlen > remaining {
            return Err(Error::Parse(Component::LinkTargetIdList));
        }
        let payload = vstd::slice::slice_to_vec(
            vstd::slice::slice_subrange(data.as_slice(), cur + 2, cur + rlen),
        );
        let ghost old_records = records.deep_view();
        let ghost pl = data@.subrange(cur as int + 2, cur as int + rlen);
        records.push(payload);
        proof {
            assert(records.deep_view() =~~= old_records.push(pl));
            let x = spec_read_id_records(
                data@,
                cur as int + rlen as int,
                remaining as int - rlen as int,
            );
            if x is Ok {
                let rest = x->Ok_0.0;
                assert(old_records + (seq![pl] + rest) =~= old_records.push(pl) + rest);
            }
        }
        cur = cur + rlen;
        remaining = remaining - rlen;
    }
}

/// The bytes of a run of item records, each with its length prefix.
pub open spec fn id_records_bytes(rs: Seq<Seq<u8>>) -> Seq<u8>
    decreases rs.len(),
{
    if rs.len() == 0 {
        Seq::empty()
    } else {
        u16_le_bytes((rs[0].len() + 2) as u16) + rs[0] + id_records_bytes(rs.skip(1))
    }
}

/// Appending one record appends its prefix and payload.
pub proof fn lemma_id_records_bytes_push(rs: Seq<Seq<u8>>, r: Seq<u8>)
    ensures
        id_records_bytes(rs.push(r)) == id_records_bytes(rs) + (u16_le_bytes((r.len() + 2) as u16)
            + r),
    decreases rs.len(),
{
    if rs.len() == 0 {
        assert(rs.push(r).skip(1) =~= rs);
        assert(id_records_bytes(rs.push(r)) =~= id_records_bytes(rs) + (u16_le_bytes(
            (r.len() + 2) as u16,
        ) + r));
    } else {
        assert(rs.push(r).skip(1) =~= rs.skip(1).push(r));
        lemma_id_records_bytes_push(rs.skip(1), r);
        assert(id_records_bytes(rs.push(r)) =~= id_records_bytes(rs) + (u16_le_bytes(
            (r.len() + 2) as u16,
        ) + r));
    }
}

/// Every record, and the whole list with its terminator, fits its 16-bit size
/// field.
pub open spec fn id_list_encodable(rs: Seq<Seq<u8>>) -> bool {
    &&& forall|k: int| 0 <= k < rs.len() ==> #[trigger] rs[k].len() + 2 <= 0xFFFF
    &&& id_records_bytes(rs).len() + 2 <= 0xFFFF
}

/// A region holding the bytes of `rs` followed by a zero terminator reads
/// back as exactly `rs`.
pub proof fn lemma_id_records_round_trip(rs: Seq<Seq<u8>>, b: Seq<u8>, pos: int)
    requires
        forall|k: int| 0 <= k < rs.len() ==> #[trigger] rs[k].len() + 2 <= 0xFFFF,
        id_records_bytes(rs).len() + 2 <= 0xFFFF,
        have(b, pos, id_records_bytes(rs).len() as int + 2),
        forall|i: int|
            0 <= i < id_records_bytes(rs).len() ==> #[trigger] b[pos + i] == id_records_bytes(
                rs,
            )[i],
        u16_at(b, pos + id_records_bytes(rs).len()) == 0,
    ensures
        spec_read_id_records(b, pos, id_records_bytes(rs).len() as int + 2) == Ok::<_, Error>(
            (rs, pos + id_records_bytes(rs).len() + 2),
        ),
    decreases rs.len(),
{
    let w = id_records_bytes(rs);
    if rs.len() == 0 {
        lemma_u16_round_trip(0);
        assert(u16_at(b, pos) == 0);
        assert(spec_read_id_records(b, pos, 2) == Ok::<_, Error>((Seq::<Seq<u8>>::empty(), pos + 2)));
        assert(rs =~= Seq::<Seq<u8>>::empty());
    } else {
        let r0 = rs[0];
        let rlen = r0.len() + 2;
        let prefix = u16_le_bytes(rlen as u16);
        let rest_bytes = id_records_bytes(rs.skip(1));
        assert(w == prefix + r0 + rest_bytes);
        assert(w.len() == rlen + rest_bytes.len());
        lemma_u16_round_trip(rlen as u16);
        assert(b[pos + 0] == w[0] && b[pos + 1] == w[1]);
        assert(w[0] == prefix[0] && w[1] == prefix[1]);
        assert(u16_at(b, pos) == rlen as u16);
        assert forall|j: int| 0 <= j < r0.len() implies #[trigger] b.subrange(
            pos + 2,
            pos + rlen,
        )[j] == r0[j] by {
            assert(b[pos + (2 + j)] == w[2 + j]);
            assert(w[2 + j] == r0[j]);
        }
        assert(b.subrange(pos + 2, pos + rlen) =~= r0);
        assert forall|i: int| 0 <= i < rest_bytes.len() implies #[trigger] b[pos + rlen + i]
            == rest_bytes[i] by {
            assert(b[pos + (rlen + i)] == w[rlen + i]);
            assert(w[rlen + i] == rest_bytes[i]);
        }
        assert(forall|k: int| 0 <= k < rs.skip(1).len() ==> #[trigger] rs.skip(1)[k].len() + 2
            <= 0xFFFF);
        assert(pos + rlen + rest_bytes.len() == pos + w.len());
        lemma_id_records_round_trip(rs.skip(1), b, pos + rlen);
        assert(seq![r0] + rs.skip(1) =~= rs);
    }
}

/// The bytes the identifier list encodes to: total, records, terminator; or
/// the error where the records cannot fit the 16-bit total.
pub open spec fn spec_write_id_list(rs: Seq<Seq<u8>>) -> Result<Seq<u8>, Error> {
    if !id_list_encodable(rs) {
        Err(Error::TooLarge(Component::LinkTargetIdList))
    } else {
        Ok(
            u16_le_bytes((id_records_bytes(rs).len() + 2) as u16) + id_records_bytes(rs)
                + u16_le_bytes(0),
        )
    }
}

/// Encodes the identifier list; on success the appended bytes read back as
/// exactly the given records.
pub fn write_id_list(out: &mut Vec<u8>, l: &LinkTargetIdList) -> (r: Result<(), Error>)
    ensures
        final(out)@.len() >= old(out)@.len(),
        forall|i: int| 0 <= i < old(out)@.len() ==> #[trigger] final(out)@[i] == old(out)@[i],
        match r {
            Ok(()) => {
                &&& spec_write_id_list(l@) matches Ok(w) && final(out)@ == old(out)@ + w
                &&& spec_read_id_list(final(out)@, old(out)@.len() as int) == Ok::<_, Error>(
                    (l@, final(out)@.len() as int),
                )
            },
            Err(e) => spec_write_id_list(l@) == Err::<Seq<u8>, _>(e) && final(out)@ == old(out)@,
        },
{
    let ghost base = out@.len() as int;
    let n = l.records.len();
    let mut body: usize = 0;
    let mut i: usize = 0;
    while i < n
        invariant
            0 <= i <= n,
            n == l.records.len(),
            body == id_records_bytes(l@.take(i as int)).len(),
            body + 2 <= 0xFFFF,
            forall|k: int| 0 <= k < i ==> #[trigger] l@[k].len() + 2 <= 0xFFFF,
            out@ == old(out)@,
        decreases n - i,
    {
        let rec_len = l.records[i].len();
        if rec_len > 0xFFFF - 2 {
            proof {
                assert(l@[i as int].len() + 2 > 0xFFFF);
            }
            return Err(Error::TooLarge(Component::LinkTargetIdList));
        }
        if body + (rec_len + 2) > 0xFFFF - 2 {
            proof {
                lemma_id_records_bytes_push(l@.take(i as int), l@[i as int]);
                assert(l@.take(i as int).push(l@[i as int]) =~= l@.take(i as int + 1));
                lemma_id_records_prefix_len_full(l@, i as int + 1);
            }
            return Err(Error::TooLarge(Component::LinkTargetIdList));
        }
        proof {
            lemma_id_records_bytes_push(l@.take(i as int), l@[i as int]);
            assert(l@.take(i as int).push(l@[i as int]) =~= l@.take(i as int + 1));
        }
        body = body + (rec_len + 2);
        i = i + 1;
    }
    proof {
        assert(l@.take(n as int) =~= l@);
    }
    push_u16(out, (body + 2) as u16);
    let ghost t0 = out@;
    let mut i: usize = 0;
    while i < n
        invariant
            0 <= i <= n,
            n == l.records.len(),
            out@ == t0 + id_records_bytes(l@.take(i as int)),
            id_records_bytes(l@.take(i as int)).len() <= id_records_bytes(l@).len(),
            id_records_bytes(l@).len() + 2 <= 0xFFFF,
            forall|k: int| 0 <= k < n ==> #[trigger] l@[k].len() + 2 <= 0xFFFF,
        decreases n - i,
    {
        proof {
            lemma_id_records_bytes_push(l@.take(i as int), l@[i as int]);
            assert(l@.take(i as int).push(l@[i as int]) =~= l@.take(i as int + 1));
            lemma_id_records_prefix_len_full(l@, i as int + 1);
        }
        let rec = &l.records[i];
        push_u16(out, (rec.len() + 2) as u16);
        out.extend_from_slice(rec.as_slice());
        proof {
            assert(out@ =~= t0 + id_records_bytes(l@.take(i as int + 1)));
        }
        i = i + 1;
    }
    push_u16(out, 0);
    proof {
        assert(l@.take(n as int) =~= l@);
        let w = id_records_bytes(l@);
        lemma_u16_round_trip((w.len() + 2) as u16);
        lemma_u16_round_trip(0);
        assert(out@.subrange(base, base + 2) =~= u16_le_bytes((w.len() + 2) as u16));
        assert(u16_at(out@, base) == (w.len() + 2) as u16);
        assert(forall|i: int| 0 <= i < w.len() ==> #[trigger] out@[base + 2 + i] == w[i]);
        assert(out@.subrange(base + 2 + w.len(), base + 2 + w.len() + 2) =~= u16_le_bytes(0));
        assert(u16_at(out@, base + 2 + w.len()) == 0);
        lemma_id_records_round_trip(l@, out@, base + 2);
        assert(out@ =~= old(out)@ + (u16_le_bytes((w.len() + 2) as u16) + w + u16_le_bytes(0)));
    }
    Ok(())
}

/// A prefix of the records contributes at most the whole byte run.
pub proof fn lemma_id_records_prefix_len_full(rs: Seq<Seq<u8>>, i: int)
    requires
        0 <= i <= rs.len(),
    ensures
        id_records_bytes(rs.take(i)).len() <= id_records_bytes(rs).len(),
    decreases rs.len() - i,
{
    if i == rs.len() {
        assert(rs.take(i) =~= rs);
    } else {
        lemma_id_records_bytes_push(rs.take(i), rs[i]);
        assert(rs.take(i).push(rs[i]) =~= rs.take(i + 1));
        lemma_id_records_prefix_len_full(rs, i + 1);
    }
}

} // verus!
