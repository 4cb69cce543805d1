//! Reading and writing of Windows shell link (`.lnk`) files.
//!
//! The codec works on in-memory byte buffers: [`ShellLink::from_bytes`]
//! decodes a complete link and [`ShellLink::to_bytes`] encodes one.  Every
//! structure of the format is modelled as plain data; specification-level
//! readers over byte sequences are the single source of truth, the executable
//! decoders are proved equal to them, and the writers are proved to produce
//! bytes that those readers map back to the written value.
//!
//! The format stores text either as UTF-16 or in a Windows code page that the
//! file itself never names, so every decode takes the fallback code page as
//! an explicit argument.

use vstd::prelude::*;

pub mod error;
pub mod extradata;
pub mod header;
pub mod linkinfo;
pub mod linktarget;
pub mod stringdata;
pub mod strings;
pub mod textenc;
pub mod wire;

pub use error::{Component, Error};
pub use extradata::{ExtraData, ExtraDataBlock};
pub use header::{LinkFlags, ShellLinkHeader};
pub use linkinfo::{CommonNetworkRelativeLink, LinkInfo, VolumeId};
pub use linktarget::LinkTargetIdList;
pub use stringdata::StringData;
pub use strings::{FixedSizeString, StringEncoding};


use extradata::{read_extra_data, spec_read_extra_blocks, spec_write_extra_data, write_extra_data,
    ExtraDataBlockV};
use header::{read_header, spec_read_header, spec_write_header, write_header, HAS_ARGUMENTS,
    HAS_ICON_LOCATION,
    HAS_LINK_INFO, HAS_LINK_TARGET_ID_LIST, HAS_NAME, HAS_RELATIVE_PATH, HAS_WORKING_DIR,
    IS_UNICODE};
use linkinfo::{read_link_info, spec_read_link_info, spec_write_link_info, write_link_info,
    LinkInfoV};
use linktarget::{read_id_list, spec_read_id_list, spec_write_id_list, write_id_list};
use stringdata::{opt_string_eq, read_string_data, spec_paired, spec_read_string_data,
    spec_write_string_data, write_string_data, StringDataV};
use strings::spec_resolve_encoding;

verus! {

/// The Windows code page assumed when the caller names none.
pub const DEFAULT_CODE_PAGE: u16 = 1252;

/// A shell link: one instance of each structure of the format, together with
/// the resolved string encoding and the fallback code page.
#[derive(Clone, Debug)]
pub struct ShellLink {
    header: ShellLinkHeader,
    linktarget_id_list: Option<LinkTargetIdList>,
    link_info: Option<LinkInfo>,
    string_data: StringData,
    extra_data: ExtraData,
    encoding: StringEncoding,
    code_page: u16,
}

/// The mathematical value of a [`ShellLink`].
pub struct ShellLinkV {
    /// The fixed header.
    pub header: ShellLinkHeader,
    /// The target identifier list, present exactly when its flag is set.
    pub linktarget_id_list: Option<Seq<Seq<u8>>>,
    /// The link information block, present exactly when its flag is set.
    pub link_info: Option<LinkInfoV>,
    /// The five optional string fields.
    pub string_data: StringDataV,
    /// The chain of extension blocks.
    pub extra_data: Seq<ExtraDataBlockV>,
    /// The resolved string encoding of the link.
    pub encoding: StringEncoding,
    /// The fallback code page, used for the code-page strings of the link
    /// information block.
    pub code_page: u16,
}

impl View for ShellLink {
    type V = ShellLinkV;

    closed spec fn view(&self) -> ShellLinkV {
        ShellLinkV {
            header: self.header,
            linktarget_id_list: match self.linktarget_id_list {
                Some(ref l) => Some(l@),
                None => None,
            },
            link_info: match self.link_info {
                Some(ref l) => Some(l@),
                None => None,
            },
            string_data: self.string_data@,
            extra_data: self.extra_data@,
            encoding: self.encoding,
            code_page: self.code_page,
        }
    }
}

impl ShellLinkV {
    /// Every presence flag agrees with its structure, the encoding agrees
    /// with the Unicode flag and the fallback code page, and the link
    /// information block, where present, is itself well formed.
    pub open spec fn wf(self) -> bool {
        &&& self.header.link_flags.spec_has(HAS_LINK_TARGET_ID_LIST)
            <==> self.linktarget_id_list is Some
        &&& self.header.link_flags.spec_has(HAS_LINK_INFO) <==> self.link_info is Some
        &&& spec_paired(self.string_data, self.header.link_flags)
        &&& (self.header.link_flags.spec_has(IS_UNICODE) <==> self.encoding is Unicode)
        &&& (self.encoding matches StringEncoding::CodePage(cp) ==> cp == self.code_page)
        &&& (self.link_info matches Some(li) ==> li.wf())
    }

    /// The value a fresh link starts from.
    pub open spec fn spec_default() -> ShellLinkV {
        ShellLinkV {
            header: ShellLinkHeader::spec_default(),
            linktarget_id_list: None,
            link_info: None,
            string_data: StringDataV::spec_empty(),
            extra_data: Seq::empty(),
            encoding: StringEncoding::Unicode,
            code_page: DEFAULT_CODE_PAGE,
        }
    }
}

/// The named flag bits of the header, pairwise disjoint and each nonzero.
proof fn lemma_flag_masks()
    ensures
        forall|b: u32, mask: u32, m: u32|
            #![trigger (b | mask) & m]
            #![trigger (b & !mask) & m]
            m & mask == 0 ==> ((b | mask) & m) == b & m && ((b & !mask) & m) == b & m,
        forall|b: u32, mask: u32|
            #![trigger (b | mask) & mask]
            #![trigger (b & !mask) & mask]
            mask != 0 ==> ((b | mask) & mask) != 0 && ((b & !mask) & mask) == 0,
        HAS_LINK_TARGET_ID_LIST & HAS_LINK_INFO == 0,
        HAS_LINK_TARGET_ID_LIST & HAS_NAME == 0,
        HAS_LINK_TARGET_ID_LIST & HAS_RELATIVE_PATH == 0,
        HAS_LINK_TARGET_ID_LIST & HAS_WORKING_DIR == 0,
        HAS_LINK_TARGET_ID_LIST & HAS_ARGUMENTS == 0,
        HAS_LINK_TARGET_ID_LIST & HAS_ICON_LOCATION == 0,
        HAS_LINK_TARGET_ID_LIST & IS_UNICODE == 0,
        HAS_LINK_INFO & HAS_LINK_TARGET_ID_LIST == 0,
        HAS_LINK_INFO & HAS_NAME == 0,
        HAS_LINK_INFO & HAS_RELATIVE_PATH == 0,
        HAS_LINK_INFO & HAS_WORKING_DIR == 0,
        HAS_LINK_INFO & HAS_ARGUMENTS == 0,
        HAS_LINK_INFO & HAS_ICON_LOCATION == 0,
        HAS_LINK_INFO & IS_UNICODE == 0,
        HAS_NAME & HAS_LINK_TARGET_ID_LIST == 0,
        HAS_NAME & HAS_LINK_INFO == 0,
        HAS_NAME & HAS_RELATIVE_PATH == 0,
        HAS_NAME & HAS_WORKING_DIR == 0,
        HAS_NAME & HAS_ARGUMENTS == 0,
        HAS_NAME & HAS_ICON_LOCATION == 0,
        HAS_NAME & IS_UNICODE == 0,
        HAS_RELATIVE_PATH & HAS_LINK_TARGET_ID_LIST == 0,
        HAS_RELATIVE_PATH & HAS_LINK_INFO == 0,
        HAS_RELATIVE_PATH & HAS_NAME == 0,
        HAS_RELATIVE_PATH & HAS_WORKING_DIR == 0,
        HAS_RELATIVE_PATH & HAS_ARGUMENTS == 0,
        HAS_RELATIVE_PATH & HAS_ICON_LOCATION == 0,
        HAS_RELATIVE_PATH & IS_UNICODE == 0,
        HAS_WORKING_DIR & HAS_LINK_TARGET_ID_LIST == 0,
        HAS_WORKING_DIR & HAS_LINK_INFO == 0,
        HAS_WORKING_DIR & HAS_NAME == 0,
        HAS_WORKING_DIR & HAS_RELATIVE_PATH == 0,
        HAS_WORKING_DIR & HAS_ARGUMENTS == 0,
        HAS_WORKING_DIR & HAS_ICON_LOCATION == 0,
        HAS_WORKING_DIR & IS_UNICODE == 0,
        HAS_ARGUMENTS & HAS_LINK_TARGET_ID_LIST == 0,
        HAS_ARGUMENTS & HAS_LINK_INFO == 0,
        HAS_ARGUMENTS & HAS_NAME == 0,
        HAS_ARGUMENTS & HAS_RELATIVE_PATH == 0,
        HAS_ARGUMENTS & HAS_WORKING_DIR == 0,
        HAS_ARGUMENTS & HAS_ICON_LOCATION == 0,
        HAS_ARGUMENTS & IS_UNICODE == 0,
        HAS_ICON_LOCATION & HAS_LINK_TARGET_ID_LIST == 0,
        HAS_ICON_LOCATION & HAS_LINK_INFO == 0,
        HAS_ICON_LOCATION & HAS_NAME == 0,
        HAS_ICON_LOCATION & HAS_RELATIVE_PATH == 0,
        HAS_ICON_LOCATION & HAS_WORKING_DIR == 0,
        HAS_ICON_LOCATION & HAS_ARGUMENTS == 0,
        HAS_ICON_LOCATION & IS_UNICODE == 0,
        IS_UNICODE & HAS_LINK_TARGET_ID_LIST == 0,
        IS_UNICODE & HAS_LINK_INFO == 0,
        IS_UNICODE & HAS_NAME == 0,
        IS_UNICODE & HAS_RELATIVE_PATH == 0,
        IS_UNICODE & HAS_WORKING_DIR == 0,
        IS_UNICODE & HAS_ARGUMENTS == 0,
        IS_UNICODE & HAS_ICON_LOCATION == 0,
        HAS_LINK_TARGET_ID_LIST != 0 && HAS_LINK_INFO != 0 && HAS_NAME != 0 && HAS_RELATIVE_PATH
            != 0 && HAS_WORKING_DIR != 0 && HAS_ARGUMENTS != 0 && HAS_ICON_LOCATION != 0
            && IS_UNICODE != 0,
        IS_UNICODE & IS_UNICODE != 0,
{
    assert forall|b: u32, mask: u32, m: u32|
        #![trigger (b | mask) & m]
        #![trigger (b & !mask) & m]
        m & mask == 0 implies ((b | mask) & m) == b & m && ((b & !mask) & m) == b & m by {
        assert(m & mask == 0 ==> ((b | mask) & m) == b & m && ((b & !mask) & m) == b & m)
            by (bit_vector);
    }
    assert forall|b: u32, mask: u32|
        #![trigger (b | mask) & mask]
        #![trigger (b & !mask) & mask]
        mask != 0 implies ((b | mask) & mask) != 0 && ((b & !mask) & mask) == 0 by {
        assert(mask != 0 ==> ((b | mask) & mask) != 0 && ((b & !mask) & mask) == 0)
            by (bit_vector);
    }
    assert(0x01u32 & 0x02 == 0 && 0x01u32 & 0x04 == 0 && 0x01u32 & 0x08 == 0 && 0x01u32 & 0x10 == 0 && 0x01u32 & 0x20 == 0 && 0x01u32 & 0x40 == 0 && 0x01u32 & 0x80 == 0 && 0x02u32 & 0x01 == 0 && 0x02u32 & 0x04 == 0 && 0x02u32 & 0x08 == 0 && 0x02u32 & 0x10 == 0 && 0x02u32 & 0x20 == 0 && 0x02u32 & 0x40 == 0 && 0x02u32 & 0x80 == 0 && 0x04u32 & 0x01 == 0) by (bit_vector);
    assert(0x04u32 & 0x02 == 0 && 0x04u32 & 0x08 == 0 && 0x04u32 & 0x10 == 0 && 0x04u32 & 0x20 == 0 && 0x04u32 & 0x40 == 0 && 0x04u32 & 0x80 == 0 && 0x08u32 & 0x01 == 0 && 0x08u32 & 0x02 == 0 && 0x08u32 & 0x04 == 0 && 0x08u32 & 0x10 == 0 && 0x08u32 & 0x20 == 0 && 0x08u32 & 0x40 == 0 && 0x08u32 & 0x80 == 0 && 0x10u32 & 0x01 == 0 && 0x10u32 & 0x02 == 0) by (bit_vector);
    assert(0x10u32 & 0x04 == 0 && 0x10u32 & 0x08 == 0 && 0x10u32 & 0x20 == 0 && 0x10u32 & 0x40 == 0 && 0x10u32 & 0x80 == 0 && 0x20u32 & 0x01 == 0 && 0x20u32 & 0x02 == 0 && 0x20u32 & 0x04 == 0 && 0x20u32 & 0x08 == 0 && 0x20u32 & 0x10 == 0 && 0x20u32 & 0x40 == 0 && 0x20u32 & 0x80 == 0 && 0x40u32 & 0x01 == 0 && 0x40u32 & 0x02 == 0 && 0x40u32 & 0x04 == 0) by (bit_vector);
    assert(0x40u32 & 0x08 == 0 && 0x40u32 & 0x10 == 0 && 0x40u32 & 0x20 == 0 && 0x40u32 & 0x80 == 0 && 0x80u32 & 0x01 == 0 && 0x80u32 & 0x02 == 0 && 0x80u32 & 0x04 == 0 && 0x80u32 & 0x08 == 0 && 0x80u32 & 0x10 == 0 && 0x80u32 & 0x20 == 0 && 0x80u32 & 0x40 == 0 && 0x80u32 & 0x80 == 0x80) by (bit_vector);
}


/// Updating the bit under one named mask sets exactly that bit's reading and
/// leaves every other named bit as it was.
proof fn lemma_update_effect(f: LinkFlags, mask: u32, on: bool)
    requires
        mask == HAS_LINK_TARGET_ID_LIST || mask == HAS_LINK_INFO || mask == HAS_NAME || mask == HAS_RELATIVE_PATH || mask == HAS_WORKING_DIR || mask == HAS_ARGUMENTS || mask == HAS_ICON_LOCATION || mask == IS_UNICODE,
    ensures
        f.spec_update(mask, on).spec_has(mask) == on,
        forall|m: u32|
            (m == HAS_LINK_TARGET_ID_LIST || m == HAS_LINK_INFO || m == HAS_NAME || m == HAS_RELATIVE_PATH || m == HAS_WORKING_DIR || m == HAS_ARGUMENTS || m == HAS_ICON_LOCATION || m == IS_UNICODE) && m != mask ==> #[trigger] f.spec_update(mask, on).spec_has(m)
                == f.spec_has(m),
{
    lemma_flag_masks();
    let g = f.spec_update(mask, on);
    if on {
        assert(g.bits == (f.bits | mask));
        assert(((f.bits | mask) & mask) != 0);
        assert(g.spec_has(mask) == on);
        assert forall|m: u32| (m == HAS_LINK_TARGET_ID_LIST || m == HAS_LINK_INFO || m == HAS_NAME || m == HAS_RELATIVE_PATH || m == HAS_WORKING_DIR || m == HAS_ARGUMENTS || m == HAS_ICON_LOCATION || m == IS_UNICODE) && m != mask implies #[trigger] f.spec_update(
            mask,
            on,
        ).spec_has(m) == f.spec_has(m) by {
            assert(m & mask == 0);
            assert(((f.bits | mask) & m) == f.bits & m);
        }
    } else {
        assert(g.bits == (f.bits & !mask));
        assert(((f.bits & !mask) & mask) == 0);
        assert(g.spec_has(mask) == on);
        assert forall|m: u32| (m == HAS_LINK_TARGET_ID_LIST || m == HAS_LINK_INFO || m == HAS_NAME || m == HAS_RELATIVE_PATH || m == HAS_WORKING_DIR || m == HAS_ARGUMENTS || m == HAS_ICON_LOCATION || m == IS_UNICODE) && m != mask implies #[trigger] f.spec_update(
            mask,
            on,
        ).spec_has(m) == f.spec_has(m) by {
            assert(m & mask == 0);
            assert(((f.bits & !mask) & m) == f.bits & m);
        }
    }
}

/// A complete link read out of a byte buffer: header, then each flag-gated
/// structure in file order, with nothing allowed to follow the extra data.
pub open spec fn spec_read_shell_link(b: Seq<u8>, cp: u16) -> Result<ShellLinkV, Error> {
    match spec_read_header(b, 0) {
        Err(e) => Err(e),
        Ok((header, p1)) => {
            let flags = header.link_flags;
            let idr = if flags.spec_has(HAS_LINK_TARGET_ID_LIST) {
                match spec_read_id_list(b, p1) {
                    Ok((l, np)) => Ok((Some(l), np)),
                    Err(e) => Err(e),
                }
            } else {
                Ok((None, p1))
            };
            match idr {
                Err(e) => Err(e),
                Ok((linktarget_id_list, p2)) => {
                    let lir = if flags.spec_has(HAS_LINK_INFO) {
                        match spec_read_link_info(b, p2, cp) {
                            Ok((li, np)) => Ok((Some(li), np)),
                            Err(e) => Err(e),
                        }
                    } else {
                        Ok((None, p2))
                    };
                    match lir {
                        Err(e) => Err(e),
                        Ok((link_info, p3)) => {
                            match spec_read_string_data(
                                b,
                                p3,
                                flags,
                                spec_resolve_encoding(flags, cp),
                            ) {
                                Err(e) => Err(e),
                                Ok((string_data, p4)) => {
                                    match spec_read_extra_blocks(b, p4) {
                                        Err(e) => Err(e),
                                        Ok((extra_data, p5)) => {
                                            if p5 != b.len() {
                                                Err(Error::TrailingData)
                                            } else {
                                                Ok(
                                                    ShellLinkV {
                                                        header,
                                                        linktarget_id_list,
                                                        link_info,
                                                        string_data,
                                                        extra_data,
                                                        encoding: spec_resolve_encoding(flags, cp),
                                                        code_page: cp,
                                                    },
                                                )
                                            }
                                        },
                                    }
                                },
                            }
                        },
                    }
                },
            }
        },
    }
}

/// The bytes a complete link encodes to: header, then every present
/// structure in file order, accepted only where decoding them gives back
/// exactly the given value.  A flag that disagrees with its structure, a
/// component that cannot be encoded, and a decode-back mismatch are the
/// errors, in that order.
pub open spec fn spec_write_shell_link(l: ShellLinkV) -> Result<Seq<u8>, Error> {
    let flags = l.header.link_flags;
    if flags.spec_has(HAS_LINK_TARGET_ID_LIST) != (l.linktarget_id_list is Some) {
        Err(Error::FlagMismatch(Component::LinkTargetIdList))
    } else if flags.spec_has(HAS_LINK_INFO) != (l.link_info is Some) {
        Err(Error::FlagMismatch(Component::LinkInfo))
    } else if (match l.encoding {
        StringEncoding::Unicode => !flags.spec_has(IS_UNICODE),
        StringEncoding::CodePage(cp) => flags.spec_has(IS_UNICODE) || cp != l.code_page,
    }) {
        Err(Error::FlagMismatch(Component::Header))
    } else {
        let hb = spec_write_header(l.header);
        let idr = if l.linktarget_id_list is Some {
            spec_write_id_list(l.linktarget_id_list->0)
        } else {
            Ok(Seq::empty())
        };
        match idr {
            Err(e) => Err(e),
            Ok(ib) => {
                let lir = if l.link_info is Some {
                    spec_write_link_info(l.link_info->0, l.code_page)
                } else {
                    Ok(Seq::empty())
                };
                match lir {
                    Err(e) => Err(e),
                    Ok(nb) => {
                        match spec_write_string_data(
                            l.string_data,
                            flags,
                            spec_resolve_encoding(flags, l.code_page),
                        ) {
                            Err(e) => Err(e),
                            Ok(sb) => {
                                match spec_write_extra_data(l.extra_data) {
                                    Err(e) => Err(e),
                                    Ok(xb) => {
                                        let bytes = hb + ib + nb + sb + xb;
                                        match spec_read_shell_link(bytes, l.code_page) {
                                            Ok(l2) => {
                                                if l2 == l {
                                                    Ok(bytes)
                                                } else {
                                                    Err(Error::Unencodable(Component::ShellLink))
                                                }
                                            },
                                            Err(_) => Err(
                                                Error::Unencodable(Component::ShellLink),
                                            ),
                                        }
                                    },
                                }
                            },
                        }
                    },
                }
            },
        }
    }
}

impl PartialEq for ShellLink {
    fn eq(&self, other: &ShellLink) -> (r: bool) {
        let id_eq = match (&self.linktarget_id_list, &other.linktarget_id_list) {
            (Some(a), Some(b)) => a.eq(b),
            (None, None) => true,
            _ => false,
        };
        let li_eq = match (&self.link_info, &other.link_info) {
            (Some(a), Some(b)) => a.eq(b),
            (None, None) => true,
            _ => false,
        };
        self.header == other.header && id_eq && li_eq && self.string_data.eq(&other.string_data)
            && self.extra_data.eq(&other.extra_data) && self.encoding == other.encoding
            && self.code_page == other.code_page
    }
}

impl vstd::std_specs::cmp::PartialEqSpecImpl for ShellLink {
    open spec fn obeys_eq_spec() -> bool {
        true
    }

    open spec fn eq_spec(&self, other: &ShellLink) -> bool {
        self@ == other@
    }
}

impl Default for ShellLink {
    /// A fresh link: Unicode strings, every optional structure absent, ready
    /// for manual configuration through the setters.
    fn default() -> (r: Self)
        ensures
            r@ == ShellLinkV::spec_default(),
            r@.wf(),
    {
        let r = ShellLink {
            header: ShellLinkHeader::default(),
            linktarget_id_list: None,
            link_info: None,
            string_data: StringData::default(),
            extra_data: ExtraData::default(),
            encoding: StringEncoding::Unicode,
            code_page: DEFAULT_CODE_PAGE,
        };
        proof {
            lemma_flag_masks();
        }
        r
    }
}

impl ShellLink {
    /// The header.
    pub fn header(&self) -> (r: &ShellLinkHeader)
        ensures
            *r == self@.header,
    {
        &self.header
    }

    /// The target identifier list, where present.
    pub fn linktarget_id_list(&self) -> (r: &Option<LinkTargetIdList>)
        ensures
            r matches Some(l) <==> self@.linktarget_id_list is Some,
            r matches Some(l) ==> self@.linktarget_id_list == Some(l@),
    {
        &self.linktarget_id_list
    }

    /// The link information block, where present.
    pub fn link_info(&self) -> (r: &Option<LinkInfo>)
        ensures
            r matches Some(l) <==> self@.link_info is Some,
            r matches Some(l) ==> self@.link_info == Some(l@),
    {
        &self.link_info
    }

    /// The string fields.
    pub fn string_data(&self) -> (r: &StringData)
        ensures
            r@ == self@.string_data,
    {
        &self.string_data
    }

    /// The chain of extension blocks.
    pub fn extra_data(&self) -> (r: &ExtraData)
        ensures
            r@ == self@.extra_data,
    {
        &self.extra_data
    }

    /// The resolved string encoding of this link.
    pub fn encoding(&self) -> (r: StringEncoding)
        ensures
            r == self@.encoding,
    {
        self.encoding
    }

    /// Replaces the file attributes of the header.
    pub fn set_file_attributes(&mut self, attributes: u32)
        ensures
            final(self)@ == (ShellLinkV {
                header: (ShellLinkHeader { file_attributes: attributes, ..old(self)@.header }),
                ..old(self)@
            }),
            old(self)@.wf() ==> final(self)@.wf(),
    {
        self.header.file_attributes = attributes;
    }

    /// Selects the string encoding of this link, keeping the Unicode flag of
    /// the header in step.
    pub fn with_encoding(self, encoding: &StringEncoding) -> (r: Self)
        ensures
            r@ == (ShellLinkV {
                header: (ShellLinkHeader {
                    link_flags: self@.header.link_flags.spec_update(
                        IS_UNICODE,
                        *encoding is Unicode,
                    ),
                    ..self@.header
                }),
                encoding: *encoding,
                code_page: (match *encoding {
                    StringEncoding::CodePage(cp) => cp,
                    StringEncoding::Unicode => self@.code_page,
                }),
                ..self@
            }),
            self@.wf() ==> r@.wf(),
    {
        let mut s = self;
        proof {
            lemma_update_effect(s@.header.link_flags, IS_UNICODE, *encoding is Unicode);
        }
        match encoding {
            StringEncoding::Unicode => {
                s.header.link_flags.update(IS_UNICODE, true);
                s.encoding = StringEncoding::Unicode;
            },
            StringEncoding::CodePage(cp) => {
                s.header.link_flags.update(IS_UNICODE, false);
                s.encoding = StringEncoding::CodePage(*cp);
                s.code_page = *cp;
            },
        }
        s
    }

    /// Sets or clears the name string, keeping its presence flag in step.
    pub fn set_name(&mut self, name: Option<String>)
        ensures
            final(self)@ == (ShellLinkV {
                header: (ShellLinkHeader {
                    link_flags: old(self)@.header.link_flags.spec_update(HAS_NAME, name is Some),
                    ..old(self)@.header
                }),
                string_data: (StringDataV {
                    name_string: name.deep_view(),
                    ..old(self)@.string_data
                }),
                ..old(self)@
            }),
            old(self)@.wf() ==> final(self)@.wf(),
    {
        let on = name.is_some();
        proof {
            lemma_update_effect(self@.header.link_flags, HAS_NAME, on);
        }
        self.header.link_flags.update(HAS_NAME, on);
        self.string_data.set_name_string(name);
    }

    /// Sets or clears the relative path, keeping its presence flag in step.
    pub fn set_relative_path(&mut self, relative_path: Option<String>)
        ensures
            final(self)@ == (ShellLinkV {
                header: (ShellLinkHeader {
                    link_flags: old(self)@.header.link_flags.spec_update(
                        HAS_RELATIVE_PATH,
                        relative_path is Some,
                    ),
                    ..old(self)@.header
                }),
                string_data: (StringDataV {
                    relative_path: relative_path.deep_view(),
                    ..old(self)@.string_data
                }),
                ..old(self)@
            }),
            old(self)@.wf() ==> final(self)@.wf(),
    {
        let on = relative_path.is_some();
        proof {
            lemma_update_effect(self@.header.link_flags, HAS_RELATIVE_PATH, on);
        }
        self.header.link_flags.update(HAS_RELATIVE_PATH, on);
        self.string_data.set_relative_path(relative_path);
    }

    /// Sets or clears the working directory, keeping its presence flag in
    /// step.
    pub fn set_working_dir(&mut self, working_dir: Option<String>)
        ensures
            final(self)@ == (ShellLinkV {
                header: (ShellLinkHeader {
                    link_flags: old(self)@.header.link_flags.spec_update(
                        HAS_WORKING_DIR,
                        working_dir is Some,
                    ),
                    ..old(self)@.header
                }),
                string_data: (StringDataV {
                    working_dir: working_dir.deep_view(),
                    ..old(self)@.string_data
                }),
                ..old(self)@
            }),
            old(self)@.wf() ==> final(self)@.wf(),
    {
        let on = working_dir.is_some();
        proof {
            lemma_update_effect(self@.header.link_flags, HAS_WORKING_DIR, on);
        }
        self.header.link_flags.update(HAS_WORKING_DIR, on);
        self.string_data.set_working_dir(working_dir);
    }

    /// Sets or clears the command line arguments, keeping their presence flag
    /// in step.
    pub fn set_arguments(&mut self, arguments: Option<String>)
        ensures
            final(self)@ == (ShellLinkV {
                header: (ShellLinkHeader {
                    link_flags: old(self)@.header.link_flags.spec_update(
                        HAS_ARGUMENTS,
                        arguments is Some,
                    ),
                    ..old(self)@.header
                }),
                string_data: (StringDataV {
                    command_line_arguments: arguments.deep_view(),
                    ..old(self)@.string_data
                }),
                ..old(self)@
            }),
            old(self)@.wf() ==> final(self)@.wf(),
    {
        let on = arguments.is_some();
        proof {
            lemma_update_effect(self@.header.link_flags, HAS_ARGUMENTS, on);
        }
        self.header.link_flags.update(HAS_ARGUMENTS, on);
        self.string_data.set_command_line_arguments(arguments);
    }

    /// Sets or clears the icon location, keeping its presence flag in step.
    pub fn set_icon_location(&mut self, icon_location: Option<String>)
        ensures
            final(self)@ == (ShellLinkV {
                header: (ShellLinkHeader {
                    link_flags: old(self)@.header.link_flags.spec_update(
                        HAS_ICON_LOCATION,
                        icon_location is Some,
                    ),
                    ..old(self)@.header
                }),
                string_data: (StringDataV {
                    icon_location: icon_location.deep_view(),
                    ..old(self)@.string_data
                }),
                ..old(self)@
            }),
            old(self)@.wf() ==> final(self)@.wf(),
    {
        let on = icon_location.is_some();
        proof {
            lemma_update_effect(self@.header.link_flags, HAS_ICON_LOCATION, on);
        }
        self.header.link_flags.update(HAS_ICON_LOCATION, on);
        self.string_data.set_icon_location(icon_location);
    }

    /// Sets or clears the target identifier list, keeping its presence flag
    /// in step.
    pub fn set_linktarget_id_list(&mut self, list: Option<LinkTargetIdList>)
        ensures
            final(self)@ == (ShellLinkV {
                header: (ShellLinkHeader {
                    link_flags: old(self)@.header.link_flags.spec_update(
                        HAS_LINK_TARGET_ID_LIST,
                        list is Some,
                    ),
                    ..old(self)@.header
                }),
                linktarget_id_list: (match list {
                    Some(ref l) => Some(l@),
                    None => None::<Seq<Seq<u8>>>,
                }),
                ..old(self)@
            }),
            old(self)@.wf() ==> final(self)@.wf(),
    {
        let on = list.is_some();
        proof {
            lemma_update_effect(self@.header.link_flags, HAS_LINK_TARGET_ID_LIST, on);
        }
        self.header.link_flags.update(HAS_LINK_TARGET_ID_LIST, on);
        self.linktarget_id_list = list;
    }

    /// Sets or clears the link information block, keeping its presence flag
    /// in step.
    pub fn set_link_info(&mut self, link_info: Option<LinkInfo>)
        ensures
            final(self)@ == (ShellLinkV {
                header: (ShellLinkHeader {
                    link_flags: old(self)@.header.link_flags.spec_update(
                        HAS_LINK_INFO,
                        link_info is Some,
                    ),
                    ..old(self)@.header
                }),
                link_info: (match link_info {
                    Some(ref l) => Some(l@),
                    None => None::<LinkInfoV>,
                }),
                ..old(self)@
            }),
            (old(self)@.wf() && (link_info matches Some(l) ==> l@.wf())) ==> final(self)@.wf(),
    {
        let on = link_info.is_some();
        proof {
            lemma_update_effect(self@.header.link_flags, HAS_LINK_INFO, on);
        }
        self.header.link_flags.update(HAS_LINK_INFO, on);
        self.link_info = link_info;
    }

    /// Replaces the chain of extension blocks.
    pub fn set_extra_data(&mut self, extra_data: ExtraData)
        ensures
            final(self)@ == (ShellLinkV { extra_data: extra_data@, ..old(self)@ }),
            old(self)@.wf() ==> final(self)@.wf(),
    {
        self.extra_data = extra_data;
    }

    /// Decodes a complete shell link from `data`, reading code-page strings
    /// under the given fallback code page.
    pub fn from_bytes(data: &Vec<u8>, default_code_page: u16) -> (r: Result<ShellLink, Error>)
        ensures
            match r {
                Ok(l) => spec_read_shell_link(data@, default_code_page) == Ok::<_, Error>(l@)
                    && l@.wf(),
                Err(e) => spec_read_shell_link(data@, default_code_page) == Err::<ShellLinkV, _>(
                    e,
                ),
            },
    {
        let (header, p1) = match read_header(data, 0) {
            Ok(v) => v,
            Err(e) => {
                return Err(e);
            },
        };
        let flags = header.link_flags;
        let (linktarget_id_list, p2) = if flags.has(HAS_LINK_TARGET_ID_LIST) {
            match read_id_list(data, p1) {
                Ok((l, np)) => (Some(l), np),
                Err(e) => {
                    return Err(e);
                },
            }
        } else {
            (None, p1)
        };
        let (link_info, p3) = if flags.has(HAS_LINK_INFO) {
            match read_link_info(data, p2, default_code_page) {
                Ok((l, np)) => (Some(l), np),
                Err(e) => {
                    return Err(e);
                },
            }
        } else {
            (None, p2)
        };
        let enc = StringEncoding::from(flags, default_code_page);
        let (string_data, p4) = match read_string_data(data, p3, flags, enc) {
            Ok(v) => v,
            Err(e) => {
                return Err(e);
            },
        };
        let (extra_data, p5) = match read_extra_data(data, p4) {
            Ok(v) => v,
            Err(e) => {
                return Err(e);
            },
        };
        if p5 != data.len() {
            return Err(Error::TrailingData);
        }
        Ok(
            ShellLink {
                header,
                linktarget_id_list,
                link_info,
                string_data,
                extra_data,
                encoding: enc,
                code_page: default_code_page,
            },
        )
    }

    /// Encodes this link: header, then every present structure in file order.
    /// Every presence flag is validated against its structure first, and the
    /// produced bytes are decoded back and compared with the link before they
    /// are returned.
    #[verifier::rlimit(100)]
    pub fn to_bytes(&self) -> (r: Result<Vec<u8>, Error>)
        ensures
            match r {
                Ok(v) => {
                    &&& self@.wf()
                    &&& spec_write_shell_link(self@) == Ok::<Seq<u8>, Error>(v@)
                    &&& spec_read_shell_link(v@, self@.code_page) == Ok::<_, Error>(self@)
                },
                Err(e) => spec_write_shell_link(self@) == Err::<Seq<u8>, _>(e),
            },
    {
        if self.header.link_flags.has(HAS_LINK_TARGET_ID_LIST) != self.linktarget_id_list.is_some()
        {
            return Err(Error::FlagMismatch(Component::LinkTargetIdList));
        }
        if self.header.link_flags.has(HAS_LINK_INFO) != self.link_info.is_some() {
            return Err(Error::FlagMismatch(Component::LinkInfo));
        }
        let uni = self.header.link_flags.has(IS_UNICODE);
        match &self.encoding {
            StringEncoding::Unicode => {
                if !uni {
                    return Err(Error::FlagMismatch(Component::Header));
                }
            },
            StringEncoding::CodePage(cp) => {
                if uni || *cp != self.code_page {
                    return Err(Error::FlagMismatch(Component::Header));
                }
            },
        }
        let mut buf: Vec<u8> = Vec::new();
        write_header(&mut buf, &self.header);
        let ghost hb = spec_write_header(self@.header);
        let ghost b0 = buf@;
        proof {
            assert(b0 =~= hb);
        }
        if let Some(l) = &self.linktarget_id_list {
            if let Err(e) = write_id_list(&mut buf, l) {
                return Err(e);
            }
        }
        let ghost ib = if self@.linktarget_id_list is Some {
            spec_write_id_list(self@.linktarget_id_list->0)->Ok_0
        } else {
            Seq::<u8>::empty()
        };
        let ghost b1 = buf@;
        proof {
            assert(b1 =~= b0 + ib);
        }
        if let Some(li) = &self.link_info {
            if let Err(e) = write_link_info(&mut buf, li, self.code_page) {
                return Err(e);
            }
        }
        let ghost nb = if self@.link_info is Some {
            spec_write_link_info(self@.link_info->0, self@.code_page)->Ok_0
        } else {
            Seq::<u8>::empty()
        };
        let ghost b2 = buf@;
        proof {
            assert(b2 =~= b1 + nb);
        }
        let enc = StringEncoding::from(self.header.link_flags, self.code_page);
        if let Err(e) = write_string_data(&mut buf, &self.string_data, self.header.link_flags, enc)
        {
            return Err(e);
        }
        let ghost sb = spec_write_string_data(
            self@.string_data,
            self@.header.link_flags,
            spec_resolve_encoding(self@.header.link_flags, self@.code_page),
        )->Ok_0;
        let ghost b3 = buf@;
        proof {
            assert(b3 =~= b2 + sb);
        }
        if let Err(e) = write_extra_data(&mut buf, &self.extra_data) {
            return Err(e);
        }
        let ghost xb = spec_write_extra_data(self@.extra_data)->Ok_0;
        proof {
            assert(buf@ =~= b3 + xb);
            assert(buf@ =~= hb + ib + nb + sb + xb);
        }
        match ShellLink::from_bytes(&buf, self.code_page) {
            Ok(l2) => {
                if l2.eq(self) {
                    Ok(buf)
                } else {
                    Err(Error::Unencodable(Component::ShellLink))
                }
            },
            Err(_) => Err(Error::Unencodable(Component::ShellLink)),
        }
    }

    /// The effective link target path, derived from the link information:
    /// the network share name where the network block decides, else the
    /// (Unicode-preferred) local base path, joined to the (Unicode-preferred)
    /// common path suffix with exactly one separator.
    pub fn link_target(&self) -> (r: Option<String>)
        requires
            self@.wf(),
        ensures
            match r {
                Some(s) => self@.link_info matches Some(li) && s@ == spec_link_target(li),
                None => self@.link_info is None,
            },
    {
        let li = match &self.link_info {
            Some(li) => li,
            None => {
                return None;
            },
        };
        let mut base: String = if let Some(c) = &li.common_network_relative_link {
            c.net_name.clone()
        } else if let Some(u) = &li.local_base_path_unicode {
            u.clone()
        } else if let Some(p) = &li.local_base_path {
            p.clone()
        } else {
            proof {
                assert(false);
            }
            String::new()
        };
        let suffix: &String = if let Some(u) = &li.common_path_suffix_unicode {
            u
        } else {
            &li.common_path_suffix
        };
        proof {
            reveal_strlit("\\");
        }
        if suffix.as_str().is_empty() {
            return Some(base);
        }
        let n = base.as_str().unicode_len();
        let sep = n == 0 || base.as_str().get_char(n - 1) != '\\';
        if sep {
            base.append("\\");
        }
        base.append(suffix.as_str());
        proof {
            assert(("\\")@ =~= seq!['\\']);
        }
        Some(base)
    }
}

/// The derived link target of a link information block: the share name where
/// the network block decides, else the Unicode local base path where present,
/// else the plain one; the (Unicode-preferred) suffix is appended after
/// exactly one backslash, and an empty suffix leaves the base unchanged.
pub open spec fn spec_link_target(li: LinkInfoV) -> Seq<char> {
    let base = if li.common_network_relative_link is Some {
        li.common_network_relative_link->0.net_name
    } else if li.local_base_path_unicode is Some {
        li.local_base_path_unicode->0
    } else {
        li.local_base_path->0
    };
    let suffix = if li.common_path_suffix_unicode is Some {
        li.common_path_suffix_unicode->0
    } else {
        li.common_path_suffix
    };
    if suffix.len() == 0 {
        base
    } else if base.len() > 0 && base.last() == '\\' {
        base + suffix
    } else {
        base + seq!['\\'] + suffix
    }
}

} // verus!
