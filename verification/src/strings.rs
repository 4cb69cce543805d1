//! String storage of the format: the per-link encoding decision, count-prefixed
//! string fields, and the NUL-terminated strings of the link information
//! structure, in both the code-page and the UTF-16 form.

use vstd::prelude::*;
use vstd::slice::slice_subrange;
use crate::error::{Component, Error};
use crate::header::{LinkFlags, IS_UNICODE};
use crate::textenc::{cp_decode, cp_decoded, cp_encode, cp_encoded, utf16_decode, utf16_decoded,
    utf16_units, utf16_units_of};
use crate::wire::{have, lemma_u16_round_trip, push_u16, read_u16, u16_at, u16_le_bytes};

verus! {

/// How the strings of one link are encoded: always UTF-16, or a Windows code
/// page that the caller must name, since the file does not record it.
#[derive(Clone, Copy, Debug, PartialEq, Eq, Structural)]
pub enum StringEncoding {
    /// UTF-16, little-endian.
    Unicode,
    /// The Windows code page with this number.
    CodePage(u16),
}

/// The encoding the header's Unicode flag selects: UTF-16 when set, the
/// caller's code page when clear.
pub open spec fn spec_resolve_encoding(flags: LinkFlags, default_code_page: u16) -> StringEncoding {
    if flags.spec_has(IS_UNICODE) {
        StringEncoding::Unicode
    } else {
        StringEncoding::CodePage(default_code_page)
    }
}

impl StringEncoding {
    /// Resolves the encoding of a link from its flags and the caller's
    /// fallback code page.
    pub fn from(link_flags: LinkFlags, default_code_page: u16) -> (r: Self)
        ensures
            r == spec_resolve_encoding(link_flags, default_code_page),
    {
        if link_flags.has(IS_UNICODE) {
            StringEncoding::Unicode
        } else {
            StringEncoding::CodePage(default_code_page)
        }
    }
}

/// A string read out of a bounded region of the file, such as a volume label:
/// the text before the first NUL of the region.
#[derive(Clone, Debug)]
pub struct FixedSizeString {
    text: String,
}

impl View for FixedSizeString {
    type V = Seq<char>;

    closed spec fn view(&self) -> Seq<char> {
        self.text@
    }
}

impl FixedSizeString {
    /// Wraps already-decoded text.
    pub fn new(text: String) -> (r: Self)
        ensures
            r@ == text@,
    {
        FixedSizeString { text }
    }

    /// The text itself.
    pub fn as_str(&self) -> (r: &str)
        ensures
            r@ == self@,
    {
        self.text.as_str()
    }

    /// The text as an owned-string reference.
    pub fn as_string(&self) -> (r: &String)
        ensures
            r@ == self@,
    {
        &self.text
    }

    /// Whether the string holds no characters.
    pub fn is_empty(&self) -> (r: bool)
        ensures
            r == (self@.len() == 0),
    {
        self.text.as_str().is_empty()
    }
}

impl PartialEq for FixedSizeString {
    fn eq(&self, other: &FixedSizeString) -> (r: bool) {
        self.text.eq(&other.text)
    }
}

impl vstd::std_specs::cmp::PartialEqSpecImpl for FixedSizeString {
    open spec fn obeys_eq_spec() -> bool {
        true
    }

    open spec fn eq_spec(&self, other: &FixedSizeString) -> bool {
        self@ == other@
    }
}

/// The `n` 16-bit units at `pos`.
pub open spec fn units_at(b: Seq<u8>, pos: int, n: int) -> Seq<u16> {
    Seq::new(n as nat, |i: int| u16_at(b, pos + 2 * i))
}

/// The little-endian bytes of a sequence of 16-bit units.
pub open spec fn units_le_bytes(u: Seq<u16>) -> Seq<u8>
    decreases u.len(),
{
    if u.len() == 0 {
        Seq::empty()
    } else {
        u16_le_bytes(u[0]) + units_le_bytes(u.skip(1))
    }
}

/// Byte-level account of `units_le_bytes`: two bytes per unit, low byte first.
pub proof fn lemma_units_le_bytes(u: Seq<u16>)
    ensures
        units_le_bytes(u).len() == 2 * u.len(),
        forall|i: int|
            0 <= i < 2 * u.len() ==> #[trigger] units_le_bytes(u)[i] == (if i % 2 == 0 {
                (u[i / 2] % 0x100) as u8
            } else {
                (u[i / 2] / 0x100) as u8
            }),
    decreases u.len(),
{
    if u.len() > 0 {
        lemma_units_le_bytes(u.skip(1));
        assert forall|i: int| 0 <= i < 2 * u.len() implies #[trigger] units_le_bytes(u)[i] == (
        if i % 2 == 0 {
            (u[i / 2] % 0x100) as u8
        } else {
            (u[i / 2] / 0x100) as u8
        }) by {
            if i >= 2 {
                assert(units_le_bytes(u)[i] == units_le_bytes(u.skip(1))[i - 2]);
                assert(u.skip(1)[(i - 2) / 2] == u[i / 2]);
            }
        }
    }
}

/// Appending one unit appends its two bytes.
pub proof fn lemma_units_le_bytes_push(u: Seq<u16>, x: u16)
    ensures
        units_le_bytes(u.push(x)) == units_le_bytes(u) + u16_le_bytes(x),
    decreases u.len(),
{
    if u.len() == 0 {
        assert(u.push(x).skip(1) =~= u);
        assert(units_le_bytes(u.push(x)) == u16_le_bytes(x) + units_le_bytes(u));
        assert(units_le_bytes(u.push(x)) =~= units_le_bytes(u) + u16_le_bytes(x));
    } else {
        assert(u.push(x).skip(1) =~= u.skip(1).push(x));
        lemma_units_le_bytes_push(u.skip(1), x);
        assert(units_le_bytes(u.push(x)) == u16_le_bytes(u[0]) + (units_le_bytes(u.skip(1))
            + u16_le_bytes(x)));
        assert(units_le_bytes(u.push(x)) =~= units_le_bytes(u) + u16_le_bytes(x));
    }
}

/// A count-prefixed string field read at `pos`: a 16-bit character count, then
/// that many code-page bytes, or twice as many bytes of UTF-16 units.
pub open spec fn spec_read_sized_string(b: Seq<u8>, pos: int, enc: StringEncoding, c: Component)
    -> Result<(Seq<char>, int), Error> {
    if !have(b, pos, 2) {
        Err(Error::UnexpectedEof(c))
    } else {
        let count = u16_at(b, pos) as int;
        match enc {
            StringEncoding::Unicode => {
                if !have(b, pos + 2, 2 * count) {
                    Err(Error::UnexpectedEof(c))
                } else {
                    match utf16_decoded(units_at(b, pos + 2, count)) {
                        Some(s) => Ok((s, pos + 2 + 2 * count)),
                        None => Err(Error::Parse(c)),
                    }
                }
            },
            StringEncoding::CodePage(cp) => {
                if !have(b, pos + 2, count) {
                    Err(Error::UnexpectedEof(c))
                } else {
                    match cp_decoded(cp, b.subrange(pos + 2, pos + 2 + count)) {
                        Some(s) => Ok((s, pos + 2 + count)),
                        None => Err(Error::Parse(c)),
                    }
                }
            },
        }
    }
}

/// A successful sized-string read looks only at the bytes it consumes: a
/// buffer that agrees on them gives the same text.
pub proof fn lemma_read_sized_string_frame(
    b1: Seq<u8>,
    b2: Seq<u8>,
    pos1: int,
    pos2: int,
    n: int,
    enc: StringEncoding,
    c: Component,
)
    requires
        spec_read_sized_string(b1, pos1, enc, c) matches Ok(v) && v.1 == pos1 + n,
        have(b2, pos2, n),
        forall|i: int| pos1 <= i < pos1 + n ==> #[trigger] b1[i] == b2[i - pos1 + pos2],
    ensures
        spec_read_sized_string(b2, pos2, enc, c) matches Ok(w) && w.0
            == spec_read_sized_string(b1, pos1, enc, c)->Ok_0.0 && w.1 == pos2 + n,
{
    assert(b1[pos1] == b2[pos2] && b1[pos1 + 1] == b2[pos2 + 1]);
    assert(u16_at(b2, pos2) == u16_at(b1, pos1));
    let count = u16_at(b1, pos1) as int;
    match enc {
        StringEncoding::Unicode => {
            assert forall|j: int| 0 <= j < count implies #[trigger] u16_at(b2, pos2 + 2 + 2 * j)
                == u16_at(b1, pos1 + 2 + 2 * j) by {
                assert(b1[pos1 + 2 + 2 * j] == b2[pos2 + 2 + 2 * j]);
                assert(b1[pos1 + 2 + 2 * j + 1] == b2[pos2 + 2 + 2 * j + 1]);
            }
            assert(units_at(b2, pos2 + 2, count) =~= units_at(b1, pos1 + 2, count));
        },
        StringEncoding::CodePage(cp) => {
            assert forall|j: int| 0 <= j < count implies #[trigger] b2.subrange(
                pos2 + 2,
                pos2 + 2 + count,
            )[j] == b1.subrange(pos1 + 2, pos1 + 2 + count)[j] by {
                assert(b1[pos1 + 2 + j] == b2[pos2 + 2 + j]);
            }
            assert(b2.subrange(pos2 + 2, pos2 + 2 + count) =~= b1.subrange(
                pos1 + 2,
                pos1 + 2 + count,
            ));
        },
    }
}

/// Decodes the count-prefixed string field at `pos`.
pub fn read_sized_string(data: &Vec<u8>, pos: usize, enc: StringEncoding, c: Component) -> (r:
    Result<(String, usize), Error>)
    ensures
        match r {
            Ok((s, np)) => spec_read_sized_string(data@, pos as int, enc, c) == Ok::<_, Error>(
                (s@, np as int),
            ),
            Err(e) => spec_read_sized_string(data@, pos as int, enc, c) == Err::<(Seq<char>, int),
                _,
            >(e),
        },
{
    let len = data.len();
    if pos > len || len - pos < 2 {
        return Err(Error::UnexpectedEof(c));
    }
    let count = read_u16(data, pos) as usize;
    match enc {
        StringEncoding::Unicode => {
            if len - (pos + 2) < 2 * count {
                return Err(Error::UnexpectedEof(c));
            }
            let mut units: Vec<u16> = Vec::new();
            let mut i: usize = 0;
            while i < count
                invariant
                    0 <= i <= count,
                    pos + 2 + 2 * count <= data@.len(),
                    data@.len() <= usize::MAX,
                    units@.len() == i,
                    forall|j: int| 0 <= j < i ==> units@[j] == u16_at(data@, pos + 2 + 2 * j),
                decreases count - i,
            {
                units.push(read_u16(data, pos + 2 + 2 * i));
                i = i + 1;
            }
            assert(units@ =~= units_at(data@, pos as int + 2, count as int));
            match utf16_decode(units.as_slice()) {
                Some(s) => Ok((s, pos + 2 + 2 * count)),
                None => Err(Error::Parse(c)),
            }
        },
        StringEncoding::CodePage(cp) => {
            if len - (pos + 2) < count {
                return Err(Error::UnexpectedEof(c));
            }
            let raw = slice_subrange(data.as_slice(), pos + 2, pos + 2 + count);
            match cp_decode(cp, raw) {
                Some(s) => Ok((s, pos + 2 + count)),
                None => Err(Error::Parse(c)),
            }
        },
    }
}

/// The bytes a count-prefixed string field encodes to, or the error: too many
/// characters for the 16-bit count, or text the encoding cannot carry and give
/// back unchanged.
pub open spec fn spec_write_sized_string(s: Seq<char>, enc: StringEncoding, c: Component) -> Result<
    Seq<u8>,
    Error,
> {
    match enc {
        StringEncoding::Unicode => {
            let u = utf16_units_of(s);
            if u.len() > 0xFFFF {
                Err(Error::StringTooLong(c))
            } else if utf16_decoded(u) != Some(s) {
                Err(Error::Unencodable(c))
            } else {
                Ok(u16_le_bytes(u.len() as u16) + units_le_bytes(u))
            }
        },
        StringEncoding::CodePage(cp) => match cp_encoded(cp, s) {
            Some(eb) => {
                if eb.len() > 0xFFFF {
                    Err(Error::StringTooLong(c))
                } else if cp_decoded(cp, eb) != Some(s) {
                    Err(Error::Unencodable(c))
                } else {
                    Ok(u16_le_bytes(eb.len() as u16) + eb)
                }
            },
            None => Err(Error::Unencodable(c)),
        },
    }
}

/// Encodes a count-prefixed string field; on success the appended bytes read
/// back as exactly the given text.
pub fn write_sized_string(out: &mut Vec<u8>, s: &String, enc: StringEncoding, c: Component) -> (r:
    Result<(), Error>)
    ensures
        match r {
            Ok(()) => {
                &&& spec_write_sized_string(s@, enc, c) matches Ok(w) && final(out)@ == old(out)@
                    + w
                &&& spec_read_sized_string(final(out)@, old(out)@.len() as int, enc, c) == Ok::<
                    _,
                    Error,
                >((s@, final(out)@.len() as int))
            },
            Err(e) => spec_write_sized_string(s@, enc, c) == Err::<Seq<u8>, _>(e) && final(out)@
                == old(out)@,
        },
{
    let ghost base = out@.len() as int;
    match enc {
        StringEncoding::Unicode => {
            let units = utf16_units(s.as_str());
            if units.len() > 0xFFFF {
                return Err(Error::StringTooLong(c));
            }
            let count = units.len();
            push_u16(out, count as u16);
            let ghost t0 = out@;
            let mut i: usize = 0;
            while i < count
                invariant
                    0 <= i <= count,
                    count == units@.len(),
                    out@ == t0 + units_le_bytes(units@.take(i as int)),
                decreases count - i,
            {
                let ghost prev = out@;
                push_u16(out, units[i]);
                proof {
                    lemma_units_le_bytes_push(units@.take(i as int), units@[i as int]);
                    assert(units@.take(i as int).push(units@[i as int]) =~= units@.take(
                        i as int + 1,
                    ));
                    assert(out@ =~= t0 + units_le_bytes(units@.take(i as int + 1)));
                }
                i = i + 1;
            }
            proof {
                assert(units@.take(count as int) =~= units@);
                lemma_u16_round_trip(count as u16);
                lemma_units_le_bytes(units@);
                assert(out@.subrange(base, base + 2) =~= u16_le_bytes(count as u16));
                assert(u16_at(out@, base) == count as u16);
                assert(have(out@, base + 2, 2 * (count as int)));
                assert forall|j: int| 0 <= j < count implies u16_at(out@, base + 2 + 2 * j)
                    == units@[j] by {
                    assert(out@[base + 2 + 2 * j] == units_le_bytes(units@)[2 * j]);
                    assert(out@[base + 2 + 2 * j + 1] == units_le_bytes(units@)[2 * j + 1]);
                    assert((2 * j) / 2 == j && (2 * j + 1) / 2 == j);
                    lemma_u16_round_trip(units@[j]);
                }
                assert(units_at(out@, base + 2, count as int) =~= units@);
                assert(out@ =~= old(out)@ + (u16_le_bytes(count as u16) + units_le_bytes(
                    units@,
                )));
            }
            Ok(())
        },
        StringEncoding::CodePage(cp) => {
            let eb = match cp_encode(cp, s.as_str()) {
                Some(eb) => eb,
                None => {
                    return Err(Error::Unencodable(c));
                },
            };
            if eb.len() > 0xFFFF {
                return Err(Error::StringTooLong(c));
            }
            match cp_decode(cp, eb.as_slice()) {
                Some(s2) => {
                    if !s2.eq(s) {
                        return Err(Error::Unencodable(c));
                    }
                },
                None => {
                    return Err(Error::Unencodable(c));
                },
            }
            let count = eb.len();
            push_u16(out, count as u16);
            let ghost t0 = out@;
            out.extend_from_slice(eb.as_slice());
            proof {
                lemma_u16_round_trip(count as u16);
                assert(out@.subrange(base, base + 2) =~= u16_le_bytes(count as u16));
                assert(u16_at(out@, base) == count as u16);
                assert(out@.subrange(base + 2, base + 2 + count as int) =~= eb@);
                assert(out@ =~= old(out)@ + (u16_le_bytes(count as u16) + eb@));
            }
            Ok(())
        },
    }
}


/// The position of the first NUL byte in `[pos, end)`, if any.
pub open spec fn spec_find_nul(b: Seq<u8>, pos: int, end: int) -> Option<int>
    decreases end - pos,
{
    if pos < 0 || pos >= end || end > b.len() {
        None
    } else if b[pos] == 0 {
        Some(pos)
    } else {
        spec_find_nul(b, pos + 1, end)
    }
}

/// A found NUL lies in `[pos, end)` and nothing before it is NUL.
/// A NUL-terminated code-page string read at `pos`, bounded by `end`: the
/// bytes before the first NUL, decoded under the code page.
pub open spec fn spec_read_nul_string(b: Seq<u8>, pos: int, end: int, cp: u16, c: Component)
    -> Result<(Seq<char>, int), Error> {
    match spec_find_nul(b, pos, end) {
        Some(k) => match cp_decoded(cp, b.subrange(pos, k)) {
            Some(s) => Ok((s, k + 1)),
            None => Err(Error::Parse(c)),
        },
        None => Err(Error::Parse(c)),
    }
}

/// Finds the first NUL byte in `[pos, end)`.
fn find_nul_from(data: &Vec<u8>, pos: usize, end: usize) -> (r: Option<usize>)
    requires
        end <= data@.len(),
    ensures
        match r {
            Some(k) => spec_find_nul(data@, pos as int, end as int) == Some(k as int) && pos <= k
                < end,
            None => spec_find_nul(data@, pos as int, end as int) is None,
        },
{
    let mut k: usize = pos;
    loop
        invariant
            pos <= k,
            end <= data@.len(),
            spec_find_nul(data@, pos as int, end as int) == spec_find_nul(
                data@,
                k as int,
                end as int,
            ),
        decreases end - k,
    {
        if k >= end {
            return None;
        }
        if data[k] == 0 {
            return Some(k);
        }
        k = k + 1;
    }
}

/// Decodes the NUL-terminated code-page string at `pos`, bounded by `end`.
pub fn read_nul_string(data: &Vec<u8>, pos: usize, end: usize, cp: u16, c: Component) -> (r:
    Result<(String, usize), Error>)
    requires
        end <= data@.len(),
    ensures
        match r {
            Ok((s, np)) => spec_read_nul_string(data@, pos as int, end as int, cp, c) == Ok::<
                _,
                Error,
            >((s@, np as int)) && pos < np <= end,
            Err(e) => spec_read_nul_string(data@, pos as int, end as int, cp, c) == Err::<
                (Seq<char>, int),
                _,
            >(e),
        },
{
    let k = match find_nul_from(data, pos, end) {
        Some(k) => k,
        None => {
            return Err(Error::Parse(c));
        },
    };
    let raw = slice_subrange(data.as_slice(), pos, k);
    match cp_decode(cp, raw) {
        Some(s) => Ok((s, k + 1)),
        None => Err(Error::Parse(c)),
    }
}

/// A successful NUL-string read looks only at the bytes up to and including
/// its terminator; any bound at or past the terminator gives the same text.
/// A region whose first NUL stands at `k` scans to exactly `k`.
pub proof fn lemma_find_nul_exact(b: Seq<u8>, pos: int, end: int, k: int)
    requires
        0 <= pos <= k < end <= b.len(),
        b[k] == 0,
        forall|i: int| pos <= i < k ==> b[i] != 0,
    ensures
        spec_find_nul(b, pos, end) == Some(k),
    decreases k - pos,
{
    if b[pos] != 0 {
        lemma_find_nul_exact(b, pos + 1, end, k);
    }
}

/// The bytes a NUL-terminated code-page string encodes to: the encoded bytes
/// must carry no NUL of their own and must decode back to the same text.
pub open spec fn spec_write_nul_string(s: Seq<char>, cp: u16, c: Component) -> Result<
    Seq<u8>,
    Error,
> {
    match cp_encoded(cp, s) {
        Some(eb) => {
            if (exists|i: int| 0 <= i < eb.len() && eb[i] == 0) || cp_decoded(cp, eb) != Some(s) {
                Err(Error::Unencodable(c))
            } else {
                Ok(eb + seq![0u8])
            }
        },
        None => Err(Error::Unencodable(c)),
    }
}

/// Encodes a NUL-terminated code-page string; on success the appended bytes
/// read back as exactly the given text under any bound that covers them.
pub fn write_nul_string(out: &mut Vec<u8>, s: &String, cp: u16, c: Component) -> (r: Result<
    (),
    Error,
>)
    ensures
        final(out)@.len() >= old(out)@.len(),
        forall|i: int| 0 <= i < old(out)@.len() ==> #[trigger] final(out)@[i] == old(out)@[i],
        match r {
            Ok(()) => {
                &&& spec_write_nul_string(s@, cp, c) matches Ok(w) && final(out)@ == old(out)@ + w
                &&& spec_read_nul_string(
                    final(out)@,
                    old(out)@.len() as int,
                    final(out)@.len() as int,
                    cp,
                    c,
                ) == Ok::<_, Error>((s@, final(out)@.len() as int))
            },
            Err(e) => spec_write_nul_string(s@, cp, c) == Err::<Seq<u8>, _>(e) && final(out)@
                == old(out)@,
        },
{
    let ghost base = out@.len() as int;
    let eb = match cp_encode(cp, s.as_str()) {
        Some(eb) => eb,
        None => {
            return Err(Error::Unencodable(c));
        },
    };
    let mut i: usize = 0;
    while i < eb.len()
        invariant
            0 <= i <= eb@.len(),
            forall|j: int| 0 <= j < i ==> eb@[j] != 0,
            cp_encoded(cp, s@) == Some(eb@),
            out@ == old(out)@,
        decreases eb@.len() - i,
    {
        if eb[i] == 0 {
            proof {
                assert(eb@[i as int] == 0);
            }
            return Err(Error::Unencodable(c));
        }
        i = i + 1;
    }
    match cp_decode(cp, eb.as_slice()) {
        Some(s2) => {
            if !s2.eq(s) {
                return Err(Error::Unencodable(c));
            }
        },
        None => {
            return Err(Error::Unencodable(c));
        },
    }
    out.extend_from_slice(eb.as_slice());
    out.push(0);
    proof {
        assert(out@ =~= old(out)@ + (eb@ + seq![0u8]));
        assert(forall|j: int| 0 <= j < eb@.len() ==> #[trigger] out@[base + j] == eb@[j]);
        assert(out@[base + eb@.len()] == 0);
        lemma_find_nul_exact(out@, base, out@.len() as int, base + eb@.len());
        assert(out@.subrange(base, base + eb@.len()) =~= eb@);
    }
    Ok(())
}

/// The position of the first NUL 16-bit unit at even steps from `pos`, if any.
pub open spec fn spec_find_nul16(b: Seq<u8>, pos: int, end: int) -> Option<int>
    decreases end - pos,
{
    if pos < 0 || pos + 2 > end || end > b.len() {
        None
    } else if u16_at(b, pos) == 0 {
        Some(pos)
    } else {
        spec_find_nul16(b, pos + 2, end)
    }
}

/// A found NUL unit lies in range, at an even step, and nothing before it is
/// a NUL unit.
/// A region whose first NUL unit stands at `k` scans to exactly `k`.
pub proof fn lemma_find_nul16_exact(b: Seq<u8>, pos: int, end: int, k: int)
    requires
        0 <= pos <= k && k + 2 <= end <= b.len(),
        (k - pos) % 2 == 0,
        u16_at(b, k) == 0,
        forall|i: int| 0 <= i < (k - pos) / 2 ==> #[trigger] u16_at(b, pos + 2 * i) != 0,
    ensures
        spec_find_nul16(b, pos, end) == Some(k),
    decreases k - pos,
{
    if pos < k {
        assert(u16_at(b, pos + 2 * 0) != 0);
        assert forall|i: int| 0 <= i < (k - (pos + 2)) / 2 implies #[trigger] u16_at(
            b,
            pos + 2 + 2 * i,
        ) != 0 by {
            assert(u16_at(b, pos + 2 * (i + 1)) != 0);
        }
        lemma_find_nul16_exact(b, pos + 2, end, k);
    }
}

/// A NUL-terminated UTF-16 string read at `pos`, bounded by `end`: the units
/// before the first NUL unit, decoded as UTF-16.
pub open spec fn spec_read_nul_utf16(b: Seq<u8>, pos: int, end: int, c: Component) -> Result<
    (Seq<char>, int),
    Error,
> {
    match spec_find_nul16(b, pos, end) {
        Some(k) => match utf16_decoded(units_at(b, pos, (k - pos) / 2)) {
            Some(s) => Ok((s, k + 2)),
            None => Err(Error::Parse(c)),
        },
        None => Err(Error::Parse(c)),
    }
}

/// Finds the first NUL 16-bit unit at even steps from `pos`, bounded by `end`.
fn find_nul16_from(data: &Vec<u8>, pos: usize, end: usize) -> (r: Option<usize>)
    requires
        end <= data@.len(),
    ensures
        match r {
            Some(k) => spec_find_nul16(data@, pos as int, end as int) == Some(k as int) && pos <= k
                && k + 2 <= end && (k - pos) % 2 == 0,
            None => spec_find_nul16(data@, pos as int, end as int) is None,
        },
{
    let mut k: usize = pos;
    loop
        invariant
            pos <= k,
            end <= data@.len(),
            (k - pos) % 2 == 0,
            spec_find_nul16(data@, pos as int, end as int) == spec_find_nul16(
                data@,
                k as int,
                end as int,
            ),
        decreases end - k,
    {
        if k >= end || end - k < 2 {
            return None;
        }
        if read_u16(data, k) == 0 {
            return Some(k);
        }
        k = k + 2;
    }
}

/// Decodes the NUL-terminated UTF-16 string at `pos`, bounded by `end`.
pub fn read_nul_utf16(data: &Vec<u8>, pos: usize, end: usize, c: Component) -> (r: Result<
    (String, usize),
    Error,
>)
    requires
        end <= data@.len(),
    ensures
        match r {
            Ok((s, np)) => spec_read_nul_utf16(data@, pos as int, end as int, c) == Ok::<_, Error>(
                (s@, np as int),
            ) && pos < np <= end,
            Err(e) => spec_read_nul_utf16(data@, pos as int, end as int, c) == Err::<
                (Seq<char>, int),
                _,
            >(e),
        },
{
    let k = match find_nul16_from(data, pos, end) {
        Some(k) => k,
        None => {
            return Err(Error::Parse(c));
        },
    };
    let dlen = data.len();
    let count = (k - pos) / 2;
    let mut units: Vec<u16> = Vec::new();
    proof {
        assert(dlen == data@.len());
    }
    let mut i: usize = 0;
    while i < count
        invariant
            0 <= i <= count,
            pos + 2 * count <= data@.len(),
            data@.len() <= usize::MAX,
            units@.len() == i,
            forall|j: int| 0 <= j < i ==> units@[j] == u16_at(data@, pos + 2 * j),
        decreases count - i,
    {
        units.push(read_u16(data, pos + 2 * i));
        i = i + 1;
    }
    proof {
        assert(units@ =~= units_at(data@, pos as int, count as int));
    }
    match utf16_decode(units.as_slice()) {
        Some(s) => Ok((s, k + 2)),
        None => Err(Error::Parse(c)),
    }
}

/// A successful UTF-16 NUL-string read looks only at the bytes up to and
/// including its terminator.
/// No unit before the first NUL unit is itself NUL.
/// The bytes a NUL-terminated UTF-16 string encodes to: no unit of the text
/// may itself be NUL.
pub open spec fn spec_write_nul_utf16(s: Seq<char>, c: Component) -> Result<Seq<u8>, Error> {
    let u = utf16_units_of(s);
    if (exists|i: int| 0 <= i < u.len() && u[i] == 0) || utf16_decoded(u) != Some(s) {
        Err(Error::Unencodable(c))
    } else {
        Ok(units_le_bytes(u) + seq![0u8, 0u8])
    }
}

/// Encodes a NUL-terminated UTF-16 string; on success the appended bytes read
/// back as exactly the given text under any bound that covers them.
pub fn write_nul_utf16(out: &mut Vec<u8>, s: &String, c: Component) -> (r: Result<(), Error>)
    ensures
        final(out)@.len() >= old(out)@.len(),
        forall|i: int| 0 <= i < old(out)@.len() ==> #[trigger] final(out)@[i] == old(out)@[i],
        match r {
            Ok(()) => {
                &&& spec_write_nul_utf16(s@, c) matches Ok(w) && final(out)@ == old(out)@ + w
                &&& spec_read_nul_utf16(
                    final(out)@,
                    old(out)@.len() as int,
                    final(out)@.len() as int,
                    c,
                ) == Ok::<_, Error>((s@, final(out)@.len() as int))
            },
            Err(e) => spec_write_nul_utf16(s@, c) == Err::<Seq<u8>, _>(e) && final(out)@ == old(
                out,
            )@,
        },
{
    let ghost base = out@.len() as int;
    let units = utf16_units(s.as_str());
    let mut i: usize = 0;
    while i < units.len()
        invariant
            0 <= i <= units@.len(),
            forall|j: int| 0 <= j < i ==> units@[j] != 0,
            units@ == utf16_units_of(s@),
            utf16_decoded(units@) == Some(s@),
            out@ == old(out)@,
        decreases units@.len() - i,
    {
        if units[i] == 0 {
            proof {
                assert(units@[i as int] == 0);
            }
            return Err(Error::Unencodable(c));
        }
        i = i + 1;
    }
    let n = units.len();
    let ghost t0 = out@;
    let mut i: usize = 0;
    while i < n
        invariant
            0 <= i <= n,
            n == units@.len(),
            out@ == t0 + units_le_bytes(units@.take(i as int)),
        decreases n - i,
    {
        let ghost prev = out@;
        push_u16(out, units[i]);
        proof {
            lemma_units_le_bytes_push(units@.take(i as int), units@[i as int]);
            assert(units@.take(i as int).push(units@[i as int]) =~= units@.take(i as int + 1));
            assert(out@ =~= t0 + units_le_bytes(units@.take(i as int + 1)));
        }
        i = i + 1;
    }
    push_u16(out, 0);
    proof {
        assert(units@.take(n as int) =~= units@);
        lemma_units_le_bytes(units@);
        lemma_u16_round_trip(0);
        assert(out@ =~= old(out)@ + (units_le_bytes(units@) + seq![0u8, 0u8]));
        assert(forall|j: int|
            0 <= j < 2 * n ==> #[trigger] out@[base + j] == units_le_bytes(units@)[j]);
        assert(out@.subrange(base + 2 * n, base + 2 * n + 2) =~= u16_le_bytes(0));
        assert(u16_at(out@, base + 2 * n) == 0);
        assert forall|j: int| 0 <= j < n implies #[trigger] u16_at(out@, base + 2 * j) != 0 by {
            assert(out@[base + 2 * j] == units_le_bytes(units@)[2 * j]);
            assert(out@[base + 2 * j + 1] == units_le_bytes(units@)[2 * j + 1]);
            assert((2 * j) / 2 == j && (2 * j + 1) / 2 == j);
            lemma_u16_round_trip(units@[j]);
        }
        lemma_find_nul16_exact(out@, base, out@.len() as int, base + 2 * n);
        assert forall|j: int| 0 <= j < n implies #[trigger] units_at(
            out@,
            base,
            n as int,
        )[j] == units@[j] by {
            assert(out@[base + 2 * j] == units_le_bytes(units@)[2 * j]);
            assert(out@[base + 2 * j + 1] == units_le_bytes(units@)[2 * j + 1]);
            assert((2 * j) / 2 == j && (2 * j + 1) / 2 == j);
            lemma_u16_round_trip(units@[j]);
        }
        assert(units_at(out@, base, n as int) =~= units@);
        assert((base + 2 * n - base) % 2 == 0);
    }
    Ok(())
}

} // verus!
