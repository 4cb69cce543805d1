//! The fixed 76-byte header: magic, class identifier, link flags, file
//! attributes, timestamps, size, icon index, show command and hotkey.

use vstd::prelude::*;
use crate::error::{Component, Error};
use crate::wire::{have, lemma_u16_round_trip, lemma_u32_round_trip, lemma_u64_round_trip,
    push_u16, push_u32, push_u64, read_u16, read_u32, read_u64, u16_at, u32_at, u64_at,
    u16_le_bytes, u32_le_bytes, u64_le_bytes};

verus! {

/// The target identifier list is present.
pub const HAS_LINK_TARGET_ID_LIST: u32 = 0x01;

/// The link information structure is present.
pub const HAS_LINK_INFO: u32 = 0x02;

/// The name string is present.
pub const HAS_NAME: u32 = 0x04;

/// The relative path string is present.
pub const HAS_RELATIVE_PATH: u32 = 0x08;

/// The working directory string is present.
pub const HAS_WORKING_DIR: u32 = 0x10;

/// The command line arguments string is present.
pub const HAS_ARGUMENTS: u32 = 0x20;

/// The icon location string is present.
pub const HAS_ICON_LOCATION: u32 = 0x40;

/// String data is stored as UTF-16 rather than in a code page.
pub const IS_UNICODE: u32 = 0x80;

/// The link information structure is to be ignored by a resolver.
pub const FORCE_NO_LINK_INFO: u32 = 0x100;

/// The link asks for elevation when its target runs.
pub const RUN_AS_USER: u32 = 0x2000;

/// The magic number: the byte length of the header, stored in its first
/// four bytes.
pub const HEADER_MAGIC: u32 = 0x4C;

/// First four bytes of the fixed class identifier, read little-endian.
pub const CLSID_A: u32 = 0x21401;

/// Second four bytes of the fixed class identifier, read little-endian.
pub const CLSID_B: u32 = 0;

/// Third four bytes of the fixed class identifier, read little-endian.
pub const CLSID_C: u32 = 0xC0;

/// Fourth four bytes of the fixed class identifier, read little-endian.
pub const CLSID_D: u32 = 0x46000000;

/// The window is shown normally when the target is activated.
pub const SW_SHOWNORMAL: u32 = 0x01;

/// The window is shown maximized when the target is activated.
pub const SW_SHOWMAXIMIZED: u32 = 0x03;

/// The window is shown minimized and not activated.
pub const SW_SHOWMINNOACTIVE: u32 = 0x07;

/// The named boolean bits that gate every optional structure of the link.
/// Unknown bits are preserved so that a decoded header re-encodes unchanged.
#[derive(Clone, Copy, Debug, PartialEq, Eq, Structural)]
pub struct LinkFlags {
    /// The raw 32-bit flag word.
    pub bits: u32,
}

impl LinkFlags {
    /// The bit under `mask` is set.
    pub open spec fn spec_has(self, mask: u32) -> bool {
        self.bits & mask != 0
    }

    /// Tests the bit under `mask`.
    pub fn has(&self, mask: u32) -> (r: bool)
        ensures
            r == self.spec_has(mask),
    {
        self.bits & mask != 0
    }

    /// The flag word with the bits under `mask` set or cleared.
    pub open spec fn spec_update(self, mask: u32, on: bool) -> LinkFlags {
        LinkFlags { bits: if on { self.bits | mask } else { self.bits & !mask } }
    }

    /// Sets or clears the bits under `mask`.
    pub fn update(&mut self, mask: u32, on: bool)
        ensures
            *final(self) == old(self).spec_update(mask, on),
    {
        if on {
            self.bits = self.bits | mask;
        } else {
            self.bits = self.bits & !mask;
        }
    }
}

/// The fixed-size header record.  The magic number and the class identifier
/// are constants of the format and are checked on decode and written on
/// encode rather than stored.
#[derive(Clone, Copy, Debug, PartialEq, Eq, Structural)]
pub struct ShellLinkHeader {
    /// Presence flags and behavioural toggles.
    pub link_flags: LinkFlags,
    /// Attributes of the target (directory, hidden, and the like).
    pub file_attributes: u32,
    /// Creation time of the target, as a FILETIME; 0 means unset.
    pub creation_time: u64,
    /// Last access time of the target, as a FILETIME; 0 means unset.
    pub access_time: u64,
    /// Last write time of the target, as a FILETIME; 0 means unset.
    pub write_time: u64,
    /// Low 32 bits of the target's size in bytes.
    pub file_size: u32,
    /// Index of the icon within the icon location, in two's complement.
    pub icon_index: u32,
    /// How the window is shown on activation; unrecognized values are
    /// preserved.
    pub show_command: u32,
    /// Hotkey: low byte is the key code, high byte the modifier set;
    /// 0 means no hotkey.
    pub hotkey: u16,
    /// Reserved; round-trips unchanged.
    pub reserved1: u16,
    /// Reserved; round-trips unchanged.
    pub reserved2: u32,
    /// Reserved; round-trips unchanged.
    pub reserved3: u32,
}

impl Default for ShellLinkHeader {
    /// A fresh header: Unicode strings, a normally shown window, and every
    /// optional structure absent.
    fn default() -> (r: Self)
        ensures
            r == ShellLinkHeader::spec_default(),
    {
        ShellLinkHeader {
            link_flags: LinkFlags { bits: IS_UNICODE },
            file_attributes: 0,
            creation_time: 0,
            access_time: 0,
            write_time: 0,
            file_size: 0,
            icon_index: 0,
            show_command: SW_SHOWNORMAL,
            hotkey: 0,
            reserved1: 0,
            reserved2: 0,
            reserved3: 0,
        }
    }
}

impl ShellLinkHeader {
    /// The value `Default` constructs.
    pub open spec fn spec_default() -> ShellLinkHeader {
        ShellLinkHeader {
            link_flags: LinkFlags { bits: IS_UNICODE },
            file_attributes: 0,
            creation_time: 0,
            access_time: 0,
            write_time: 0,
            file_size: 0,
            icon_index: 0,
            show_command: SW_SHOWNORMAL,
            hotkey: 0,
            reserved1: 0,
            reserved2: 0,
            reserved3: 0,
        }
    }

    /// The key code of the hotkey.
    pub fn hotkey_key(&self) -> (r: u8)
        ensures
            r == self.hotkey % 0x100,
    {
        (self.hotkey % 0x100) as u8
    }

    /// The modifier set of the hotkey.
    pub fn hotkey_modifiers(&self) -> (r: u8)
        ensures
            r == self.hotkey / 0x100,
    {
        (self.hotkey / 0x100) as u8
    }
}

/// The header read at `pos`: 76 bytes whose magic and class identifier must
/// equal the fixed constants; a mismatch there means the input is not a shell
/// link at all.
pub open spec fn spec_read_header(b: Seq<u8>, pos: int) -> Result<(ShellLinkHeader, int), Error> {
    if !have(b, pos, 76) {
        Err(Error::UnexpectedEof(Component::Header))
    } else if u32_at(b, pos) != HEADER_MAGIC || u32_at(b, pos + 4) != CLSID_A || u32_at(b, pos + 8)
        != CLSID_B || u32_at(b, pos + 12) != CLSID_C || u32_at(b, pos + 16) != CLSID_D {
        Err(Error::NotAShellLink)
    } else {
        Ok(
            (
                ShellLinkHeader {
                    link_flags: LinkFlags { bits: u32_at(b, pos + 20) },
                    file_attributes: u32_at(b, pos + 24),
                    creation_time: u64_at(b, pos + 28),
                    access_time: u64_at(b, pos + 36),
                    write_time: u64_at(b, pos + 44),
                    file_size: u32_at(b, pos + 52),
                    icon_index: u32_at(b, pos + 56),
                    show_command: u32_at(b, pos + 60),
                    hotkey: u16_at(b, pos + 64),
                    reserved1: u16_at(b, pos + 66),
                    reserved2: u32_at(b, pos + 68),
                    reserved3: u32_at(b, pos + 72),
                },
                pos + 76,
            ),
        )
    }
}

/// Reading a header looks only at the 76 bytes at its position: a buffer that
/// agrees on them gives the same header.
pub proof fn lemma_read_header_frame(b1: Seq<u8>, b2: Seq<u8>, pos1: int, pos2: int)
    requires
        spec_read_header(b1, pos1) is Ok,
        have(b2, pos2, 76),
        forall|i: int| pos2 <= i < pos2 + 76 ==> #[trigger] b2[i] == b1[i - pos2 + pos1],
    ensures
        spec_read_header(b2, pos2) matches Ok(w) && w.0 == spec_read_header(b1, pos1)->Ok_0.0
            && w.1 == pos2 + 76,
{
}

/// Decodes the header at `pos`.
pub fn read_header(data: &Vec<u8>, pos: usize) -> (r: Result<(ShellLinkHeader, usize), Error>)
    ensures
        match r {
            Ok((h, np)) => spec_read_header(data@, pos as int) == Ok::<_, Error>((h, np as int)),
            Err(e) => spec_read_header(data@, pos as int) == Err::<(ShellLinkHeader, int), _>(e),
        },
{
    if pos > data.len() || data.len() - pos < 76 {
        return Err(Error::UnexpectedEof(Component::Header));
    }
    if read_u32(data, pos) != HEADER_MAGIC || read_u32(data, pos + 4) != CLSID_A || read_u32(
        data,
        pos + 8,
    ) != CLSID_B || read_u32(data, pos + 12) != CLSID_C || read_u32(data, pos + 16) != CLSID_D {
        return Err(Error::NotAShellLink);
    }
    let h = ShellLinkHeader {
        link_flags: LinkFlags { bits: read_u32(data, pos + 20) },
        file_attributes: read_u32(data, pos + 24),
        creation_time: read_u64(data, pos + 28),
        access_time: read_u64(data, pos + 36),
        write_time: read_u64(data, pos + 44),
        file_size: read_u32(data, pos + 52),
        icon_index: read_u32(data, pos + 56),
        show_command: read_u32(data, pos + 60),
        hotkey: read_u16(data, pos + 64),
        reserved1: read_u16(data, pos + 66),
        reserved2: read_u32(data, pos + 68),
        reserved3: read_u32(data, pos + 72),
    };
    Ok((h, pos + 76))
}

/// Byte `i` of the encoded header.
pub open spec fn header_byte(h: ShellLinkHeader, i: int) -> u8 {
    if i < 4 {
        u32_le_bytes(HEADER_MAGIC)[i]
    } else if i < 8 {
        u32_le_bytes(CLSID_A)[i - 4]
    } else if i < 12 {
        u32_le_bytes(CLSID_B)[i - 8]
    } else if i < 16 {
        u32_le_bytes(CLSID_C)[i - 12]
    } else if i < 20 {
        u32_le_bytes(CLSID_D)[i - 16]
    } else if i < 24 {
        u32_le_bytes(h.link_flags.bits)[i - 20]
    } else if i < 28 {
        u32_le_bytes(h.file_attributes)[i - 24]
    } else if i < 36 {
        u64_le_bytes(h.creation_time)[i - 28]
    } else if i < 44 {
        u64_le_bytes(h.access_time)[i - 36]
    } else if i < 52 {
        u64_le_bytes(h.write_time)[i - 44]
    } else if i < 56 {
        u32_le_bytes(h.file_size)[i - 52]
    } else if i < 60 {
        u32_le_bytes(h.icon_index)[i - 56]
    } else if i < 64 {
        u32_le_bytes(h.show_command)[i - 60]
    } else if i < 66 {
        u16_le_bytes(h.hotkey)[i - 64]
    } else if i < 68 {
        u16_le_bytes(h.reserved1)[i - 66]
    } else if i < 72 {
        u32_le_bytes(h.reserved2)[i - 68]
    } else {
        u32_le_bytes(h.reserved3)[i - 72]
    }
}

/// A 76-byte region built from `header_byte` reads back as `h`.
#[verifier::rlimit(100)]
pub proof fn lemma_header_bytes_read(h: ShellLinkHeader, b: Seq<u8>)
    requires
        b.len() == 76,
        forall|i: int| 0 <= i < 76 ==> #[trigger] b[i] == header_byte(h, i),
    ensures
        spec_read_header(b, 0) == Ok::<_, Error>((h, 76int)),
{
    assert(u32_at(b, 0) == HEADER_MAGIC) by {
        lemma_u32_round_trip(HEADER_MAGIC);
    }
    assert(u32_at(b, 4) == CLSID_A) by {
        lemma_u32_round_trip(CLSID_A);
    }
    assert(u32_at(b, 8) == CLSID_B) by {
        lemma_u32_round_trip(CLSID_B);
    }
    assert(u32_at(b, 12) == CLSID_C) by {
        lemma_u32_round_trip(CLSID_C);
    }
    assert(u32_at(b, 16) == CLSID_D) by {
        lemma_u32_round_trip(CLSID_D);
    }
    assert(u32_at(b, 20) == h.link_flags.bits) by {
        lemma_u32_round_trip(h.link_flags.bits);
    }
    assert(u32_at(b, 24) == h.file_attributes) by {
        lemma_u32_round_trip(h.file_attributes);
    }
    assert(u64_at(b, 28) == h.creation_time) by {
        lemma_u64_round_trip(h.creation_time);
    }
    assert(u64_at(b, 36) == h.access_time) by {
        lemma_u64_round_trip(h.access_time);
    }
    assert(u64_at(b, 44) == h.write_time) by {
        lemma_u64_round_trip(h.write_time);
    }
    assert(u32_at(b, 52) == h.file_size) by {
        lemma_u32_round_trip(h.file_size);
    }
    assert(u32_at(b, 56) == h.icon_index) by {
        lemma_u32_round_trip(h.icon_index);
    }
    assert(u32_at(b, 60) == h.show_command) by {
        lemma_u32_round_trip(h.show_command);
    }
    assert(u16_at(b, 64) == h.hotkey) by {
        lemma_u16_round_trip(h.hotkey);
    }
    assert(u16_at(b, 66) == h.reserved1) by {
        lemma_u16_round_trip(h.reserved1);
    }
    assert(u32_at(b, 68) == h.reserved2) by {
        lemma_u32_round_trip(h.reserved2);
    }
    assert(u32_at(b, 72) == h.reserved3) by {
        lemma_u32_round_trip(h.reserved3);
    }
}

/// The 76 bytes the header encodes to.
pub open spec fn spec_write_header(h: ShellLinkHeader) -> Seq<u8> {
    Seq::new(76, |i: int| header_byte(h, i))
}

/// Encodes the header: appends exactly 76 bytes that read back as `h`.
#[verifier::rlimit(100)]
pub fn write_header(out: &mut Vec<u8>, h: &ShellLinkHeader)
    ensures
        final(out)@.len() == old(out)@.len() + 76,
        final(out)@ == old(out)@ + spec_write_header(*h),
        forall|i: int| 0 <= i < old(out)@.len() ==> #[trigger] final(out)@[i] == old(out)@[i],
        spec_read_header(final(out)@, old(out)@.len() as int) == Ok::<_, Error>(
            (*h, old(out)@.len() as int + 76),
        ),
{
    let mut buf: Vec<u8> = Vec::new();
    push_u32(&mut buf, HEADER_MAGIC);
    proof {
        assert(buf@.len() == 4);
        assert(forall|i: int| 0 <= i < buf@.len() ==> #[trigger] buf@[i] == header_byte(*h, i));
    }
    push_u32(&mut buf, CLSID_A);
    proof {
        assert(buf@.len() == 8);
        assert(forall|i: int| 0 <= i < buf@.len() ==> #[trigger] buf@[i] == header_byte(*h, i));
    }
    push_u32(&mut buf, CLSID_B);
    proof {
        assert(buf@.len() == 12);
        assert(forall|i: int| 0 <= i < buf@.len() ==> #[trigger] buf@[i] == header_byte(*h, i));
    }
    push_u32(&mut buf, CLSID_C);
    proof {
        assert(buf@.len() == 16);
        assert(forall|i: int| 0 <= i < buf@.len() ==> #[trigger] buf@[i] == header_byte(*h, i));
    }
    push_u32(&mut buf, CLSID_D);
    proof {
        assert(buf@.len() == 20);
        assert(forall|i: int| 0 <= i < buf@.len() ==> #[trigger] buf@[i] == header_byte(*h, i));
    }
    push_u32(&mut buf, h.link_flags.bits);
    proof {
        assert(buf@.len() == 24);
        assert(forall|i: int| 0 <= i < buf@.len() ==> #[trigger] buf@[i] == header_byte(*h, i));
    }
    push_u32(&mut buf, h.file_attributes);
    proof {
        assert(buf@.len() == 28);
        assert(forall|i: int| 0 <= i < buf@.len() ==> #[trigger] buf@[i] == header_byte(*h, i));
    }
    push_u64(&mut buf, h.creation_time);
    proof {
        assert(buf@.len() == 36);
        assert(forall|i: int| 0 <= i < buf@.len() ==> #[trigger] buf@[i] == header_byte(*h, i));
    }
    push_u64(&mut buf, h.access_time);
    proof {
        assert(buf@.len() == 44);
        assert(forall|i: int| 0 <= i < buf@.len() ==> #[trigger] buf@[i] == header_byte(*h, i));
    }
    push_u64(&mut buf, h.write_time);
    proof {
        assert(buf@.len() == 52);
        assert(forall|i: int| 0 <= i < buf@.len() ==> #[trigger] buf@[i] == header_byte(*h, i));
    }
    push_u32(&mut buf, h.file_size);
    proof {
        assert(buf@.len() == 56);
        assert(forall|i: int| 0 <= i < buf@.len() ==> #[trigger] buf@[i] == header_byte(*h, i));
    }
    push_u32(&mut buf, h.icon_index);
    proof {
        assert(buf@.len() == 60);
        assert(forall|i: int| 0 <= i < buf@.len() ==> #[trigger] buf@[i] == header_byte(*h, i));
    }
    push_u32(&mut buf, h.show_command);
    proof {
        assert(buf@.len() == 64);
        assert(forall|i: int| 0 <= i < buf@.len() ==> #[trigger] buf@[i] == header_byte(*h, i));
    }
    push_u16(&mut buf, h.hotkey);
    proof {
        assert(buf@.len() == 66);
        assert(forall|i: int| 0 <= i < buf@.len() ==> #[trigger] buf@[i] == header_byte(*h, i));
    }
    push_u16(&mut buf, h.reserved1);
    proof {
        assert(buf@.len() == 68);
        assert(forall|i: int| 0 <= i < buf@.len() ==> #[trigger] buf@[i] == header_byte(*h, i));
    }
    push_u32(&mut buf, h.reserved2);
    proof {
        assert(buf@.len() == 72);
        assert(forall|i: int| 0 <= i < buf@.len() ==> #[trigger] buf@[i] == header_byte(*h, i));
    }
    push_u32(&mut buf, h.reserved3);
    proof {
        assert(buf@.len() == 76);
        assert(forall|i: int| 0 <= i < buf@.len() ==> #[trigger] buf@[i] == header_byte(*h, i));
    }
    proof {
        lemma_header_bytes_read(*h, buf@);
        assert(buf@ =~= spec_write_header(*h));
    }
    let ghost gb = buf@;
    out.append(&mut buf);
    proof {
        lemma_read_header_frame(gb, out@, 0, old(out)@.len() as int);
    }
}

} // verus!
