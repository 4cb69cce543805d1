//! The link information structure: an offset-addressed block holding what is
//! needed to re-resolve the target.  Every offset is relative to the start of
//! the block and must stay strictly inside its declared size; the effective
//! link target path is derived from these fields, never stored.

use vstd::prelude::*;
use crate::error::{Component, Error};
use crate::stringdata::opt_string_eq;
use crate::strings::{read_nul_string, read_nul_utf16, spec_read_nul_string, spec_read_nul_utf16,
    spec_write_nul_string, spec_write_nul_utf16, write_nul_string, write_nul_utf16,
    FixedSizeString};
use crate::wire::{have, push_u32, read_u32, u32_at, u32_le_bytes};

verus! {

/// The block flag: a volume identifier and a local base path are present.
pub const LI_VOLUME_ID_AND_LOCAL_BASE_PATH: u32 = 0x01;

/// The block flag: a common network relative link and path suffix are present.
pub const LI_CNRL_AND_PATH_SUFFIX: u32 = 0x02;

/// The flag of the network block: a device name is present.
pub const CNRL_VALID_DEVICE: u32 = 0x01;

/// The flag of the network block: the network provider type is valid.
pub const CNRL_VALID_NET_TYPE: u32 = 0x02;

/// Byte size of the plain link information header and offset table.
pub const LI_HEADER_BASIC: u32 = 0x1C;

/// Byte size of the extended header, with the two Unicode offsets.
pub const LI_HEADER_EXTENDED: u32 = 0x24;

/// Byte size of the fixed part of the volume identifier sub-block.
pub const VOLUME_ID_FIXED: u32 = 16;

/// Byte size of the fixed part of the common network relative link sub-block.
pub const CNRL_FIXED: u32 = 20;

/// The volume the target was stored on.
#[derive(Clone, Debug)]
pub struct VolumeId {
    /// The kind of drive (fixed, removable, remote, and so on).
    pub drive_type: u32,
    /// The serial number of the volume.
    pub serial_number: u32,
    /// The label of the volume, a code-page string.
    pub volume_label: FixedSizeString,
}

/// The mathematical value of a [`VolumeId`].
pub struct VolumeIdV {
    /// The kind of drive.
    pub drive_type: u32,
    /// The serial number of the volume.
    pub serial_number: u32,
    /// The label of the volume.
    pub volume_label: Seq<char>,
}

impl View for VolumeId {
    type V = VolumeIdV;

    open spec fn view(&self) -> VolumeIdV {
        VolumeIdV {
            drive_type: self.drive_type,
            serial_number: self.serial_number,
            volume_label: self.volume_label@,
        }
    }
}

/// How to reach the target over the network.
#[derive(Clone, Debug)]
pub struct CommonNetworkRelativeLink {
    /// The name of the network share.
    pub net_name: String,
    /// The local device name mapped to the share, if any.
    pub device_name: Option<String>,
    /// The network provider type, where valid.
    pub network_provider_type: Option<u32>,
}

/// The mathematical value of a [`CommonNetworkRelativeLink`].
pub struct CommonNetworkRelativeLinkV {
    /// The name of the network share.
    pub net_name: Seq<char>,
    /// The local device name mapped to the share, if any.
    pub device_name: Option<Seq<char>>,
    /// The network provider type, where valid.
    pub network_provider_type: Option<u32>,
}

impl View for CommonNetworkRelativeLink {
    type V = CommonNetworkRelativeLinkV;

    open spec fn view(&self) -> CommonNetworkRelativeLinkV {
        CommonNetworkRelativeLinkV {
            net_name: self.net_name@,
            device_name: self.device_name.deep_view(),
            network_provider_type: self.network_provider_type,
        }
    }
}

/// The link information block.  Presence of the volume identifier is tied to
/// presence of the local base path; the block flags are derived from the
/// fields on encode rather than stored.
#[derive(Clone, Debug)]
pub struct LinkInfo {
    /// The volume the target was stored on, with the local base path.
    pub volume_id: Option<VolumeId>,
    /// The local base path, a code-page string.
    pub local_base_path: Option<String>,
    /// How to reach the target over the network.
    pub common_network_relative_link: Option<CommonNetworkRelativeLink>,
    /// The part of the path appended after the base, a code-page string.
    pub common_path_suffix: String,
    /// The Unicode form of the local base path, in the extended layout.
    pub local_base_path_unicode: Option<String>,
    /// The Unicode form of the common path suffix, in the extended layout.
    pub common_path_suffix_unicode: Option<String>,
}

/// The mathematical value of a [`LinkInfo`].
pub struct LinkInfoV {
    /// The volume the target was stored on, with the local base path.
    pub volume_id: Option<VolumeIdV>,
    /// The local base path.
    pub local_base_path: Option<Seq<char>>,
    /// How to reach the target over the network.
    pub common_network_relative_link: Option<CommonNetworkRelativeLinkV>,
    /// The part of the path appended after the base.
    pub common_path_suffix: Seq<char>,
    /// The Unicode form of the local base path.
    pub local_base_path_unicode: Option<Seq<char>>,
    /// The Unicode form of the common path suffix.
    pub common_path_suffix_unicode: Option<Seq<char>>,
}

impl View for LinkInfo {
    type V = LinkInfoV;

    open spec fn view(&self) -> LinkInfoV {
        LinkInfoV {
            volume_id: match self.volume_id {
                Some(ref v) => Some(v@),
                None => None,
            },
            local_base_path: self.local_base_path.deep_view(),
            common_network_relative_link: match self.common_network_relative_link {
                Some(ref v) => Some(v@),
                None => None,
            },
            common_path_suffix: self.common_path_suffix@,
            local_base_path_unicode: self.local_base_path_unicode.deep_view(),
            common_path_suffix_unicode: self.common_path_suffix_unicode.deep_view(),
        }
    }
}

impl LinkInfoV {
    /// The volume identifier travels with the local base path, and at least
    /// one way to resolve the target is present.
    pub open spec fn wf(self) -> bool {
        &&& self.volume_id is Some <==> self.local_base_path is Some
        &&& self.volume_id is Some || self.common_network_relative_link is Some
    }
}

impl PartialEq for VolumeId {
    fn eq(&self, other: &VolumeId) -> (r: bool) {
        self.drive_type == other.drive_type && self.serial_number == other.serial_number
            && self.volume_label.eq(&other.volume_label)
    }
}

impl vstd::std_specs::cmp::PartialEqSpecImpl for VolumeId {
    open spec fn obeys_eq_spec() -> bool {
        true
    }

    open spec fn eq_spec(&self, other: &VolumeId) -> bool {
        self@ == other@
    }
}

impl PartialEq for CommonNetworkRelativeLink {
    fn eq(&self, other: &CommonNetworkRelativeLink) -> (r: bool) {
        let provider_eq = match (&self.network_provider_type, &other.network_provider_type) {
            (Some(a), Some(b)) => *a == *b,
            (None, None) => true,
            _ => false,
        };
        self.net_name.eq(&other.net_name) && opt_string_eq(&self.device_name, &other.device_name)
            && provider_eq
    }
}

impl vstd::std_specs::cmp::PartialEqSpecImpl for CommonNetworkRelativeLink {
    open spec fn obeys_eq_spec() -> bool {
        true
    }

    open spec fn eq_spec(&self, other: &CommonNetworkRelativeLink) -> bool {
        self@ == other@
    }
}

impl PartialEq for LinkInfo {
    fn eq(&self, other: &LinkInfo) -> (r: bool) {
        let vol_eq = match (&self.volume_id, &other.volume_id) {
            (Some(a), Some(b)) => a.eq(b),
            (None, None) => true,
            _ => false,
        };
        let cnrl_eq = match (&self.common_network_relative_link, &other.common_network_relative_link) {
            (Some(a), Some(b)) => a.eq(b),
            (None, None) => true,
            _ => false,
        };
        vol_eq && opt_string_eq(&self.local_base_path, &other.local_base_path) && cnrl_eq
            && self.common_path_suffix.eq(&other.common_path_suffix) && opt_string_eq(
            &self.local_base_path_unicode,
            &other.local_base_path_unicode,
        ) && opt_string_eq(&self.common_path_suffix_unicode, &other.common_path_suffix_unicode)
    }
}

impl vstd::std_specs::cmp::PartialEqSpecImpl for LinkInfo {
    open spec fn obeys_eq_spec() -> bool {
        true
    }

    open spec fn eq_spec(&self, other: &LinkInfo) -> bool {
        self@ == other@
    }
}

/// The volume identifier sub-block at `vpos`, bounded by `end`: its size, the
/// drive type, the serial number, and the label at the fixed label offset.
pub open spec fn spec_read_volume_id(b: Seq<u8>, vpos: int, end: int, cp: u16) -> Result<
    VolumeIdV,
    Error,
> {
    if !have(b, vpos, 16) || vpos + 16 > end {
        Err(Error::UnexpectedEof(Component::VolumeId))
    } else {
        let vsize = u32_at(b, vpos) as int;
        if vsize < 17 || vpos + vsize > end {
            Err(Error::Parse(Component::VolumeId))
        } else if u32_at(b, vpos + 12) != VOLUME_ID_FIXED {
            Err(Error::Parse(Component::VolumeId))
        } else {
            match spec_read_nul_string(b, vpos + 16, vpos + vsize, cp, Component::VolumeId) {
                Ok((label, _)) => Ok(
                    VolumeIdV {
                        drive_type: u32_at(b, vpos + 4),
                        serial_number: u32_at(b, vpos + 8),
                        volume_label: label,
                    },
                ),
                Err(e) => Err(e),
            }
        }
    }
}

/// The common network relative link sub-block at `cpos`, bounded by `end`.
pub open spec fn spec_read_cnrl(b: Seq<u8>, cpos: int, end: int, cp: u16) -> Result<
    CommonNetworkRelativeLinkV,
    Error,
> {
    if !have(b, cpos, 20) || cpos + 20 > end {
        Err(Error::UnexpectedEof(Component::CommonNetworkRelativeLink))
    } else {
        let csize = u32_at(b, cpos) as int;
        let cflags = u32_at(b, cpos + 4);
        let nno = u32_at(b, cpos + 8) as int;
        let dno = u32_at(b, cpos + 12) as int;
        let provider = u32_at(b, cpos + 16);
        if csize < 20 || cpos + csize > end {
            Err(Error::Parse(Component::CommonNetworkRelativeLink))
        } else if !(20 <= nno < csize) {
            Err(Error::OutOfBounds(Component::CommonNetworkRelativeLink))
        } else if cflags & CNRL_VALID_DEVICE != 0 && !(20 <= dno < csize) {
            Err(Error::OutOfBounds(Component::CommonNetworkRelativeLink))
        } else if cflags & CNRL_VALID_DEVICE == 0 && dno != 0 {
            Err(Error::Parse(Component::CommonNetworkRelativeLink))
        } else {
            match spec_read_nul_string(
                b,
                cpos + nno,
                cpos + csize,
                cp,
                Component::CommonNetworkRelativeLink,
            ) {
                Err(e) => Err(e),
                Ok((net_name, _)) => {
                    if cflags & CNRL_VALID_DEVICE != 0 {
                        match spec_read_nul_string(
                            b,
                            cpos + dno,
                            cpos + csize,
                            cp,
                            Component::CommonNetworkRelativeLink,
                        ) {
                            Err(e) => Err(e),
                            Ok((device, _)) => Ok(
                                CommonNetworkRelativeLinkV {
                                    net_name,
                                    device_name: Some(device),
                                    network_provider_type: if cflags & CNRL_VALID_NET_TYPE != 0 {
                                        Some(provider)
                                    } else {
                                        None
                                    },
                                },
                            ),
                        }
                    } else {
                        Ok(
                            CommonNetworkRelativeLinkV {
                                net_name,
                                device_name: None,
                                network_provider_type: if cflags & CNRL_VALID_NET_TYPE != 0 {
                                    Some(provider)
                                } else {
                                    None
                                },
                            },
                        )
                    }
                },
            }
        }
    }
}

/// The link information block at `pos`: sizes, flags and the offset table,
/// then each pointed-to field, every offset checked against the declared
/// total size before it is followed.
pub open spec fn spec_read_link_info(b: Seq<u8>, pos: int, cp: u16) -> Result<
    (LinkInfoV, int),
    Error,
> {
    if !have(b, pos, 8) {
        Err(Error::UnexpectedEof(Component::LinkInfo))
    } else {
        let size = u32_at(b, pos) as int;
        let hs = u32_at(b, pos + 4) as int;
        if !have(b, pos, size) {
            Err(Error::UnexpectedEof(Component::LinkInfo))
        } else if !(hs == LI_HEADER_BASIC || hs == LI_HEADER_EXTENDED) || size < hs {
            Err(Error::Parse(Component::LinkInfo))
        } else {
            let end = pos + size;
            let flags = u32_at(b, pos + 8);
            let has_vol = flags & LI_VOLUME_ID_AND_LOCAL_BASE_PATH != 0;
            let has_cnrl = flags & LI_CNRL_AND_PATH_SUFFIX != 0;
            let vol_off = u32_at(b, pos + 12) as int;
            let lbp_off = u32_at(b, pos + 16) as int;
            let cnrl_off = u32_at(b, pos + 20) as int;
            let cps_off = u32_at(b, pos + 24) as int;
            let lbpu_off = if hs == LI_HEADER_EXTENDED {
                u32_at(b, pos + 28) as int
            } else {
                0
            };
            let cpsu_off = if hs == LI_HEADER_EXTENDED {
                u32_at(b, pos + 32) as int
            } else {
                0
            };
            if !has_vol && !has_cnrl {
                Err(Error::Parse(Component::LinkInfo))
            } else if has_vol != (vol_off != 0) || has_vol != (lbp_off != 0) || has_cnrl != (
            cnrl_off != 0) || cps_off == 0 {
                Err(Error::Parse(Component::LinkInfo))
            } else if vol_off >= size || lbp_off >= size || cnrl_off >= size || cps_off >= size
                || lbpu_off >= size || cpsu_off >= size {
                Err(Error::OutOfBounds(Component::LinkInfo))
            } else {
                let vol = if has_vol {
                    spec_read_volume_id(b, pos + vol_off, end, cp)
                } else {
                    Ok(
                        VolumeIdV {
                            drive_type: 0,
                            serial_number: 0,
                            volume_label: Seq::empty(),
                        },
                    )
                };
                let lbp = if has_vol {
                    spec_read_nul_string(b, pos + lbp_off, end, cp, Component::LinkInfo)
                } else {
                    Ok((Seq::empty(), 0int))
                };
                let cnrl = if has_cnrl {
                    spec_read_cnrl(b, pos + cnrl_off, end, cp)
                } else {
                    Ok(
                        CommonNetworkRelativeLinkV {
                            net_name: Seq::empty(),
                            device_name: None,
                            network_provider_type: None,
                        },
                    )
                };
                let cps = spec_read_nul_string(b, pos + cps_off, end, cp, Component::LinkInfo);
                let lbpu = if lbpu_off != 0 {
                    spec_read_nul_utf16(b, pos + lbpu_off, end, Component::LinkInfo)
                } else {
                    Ok((Seq::empty(), 0int))
                };
                let cpsu = if cpsu_off != 0 {
                    spec_read_nul_utf16(b, pos + cpsu_off, end, Component::LinkInfo)
                } else {
                    Ok((Seq::empty(), 0int))
                };
                if vol is Err {
                    Err(vol->Err_0)
                } else if lbp is Err {
                    Err(lbp->Err_0)
                } else if cnrl is Err {
                    Err(cnrl->Err_0)
                } else if cps is Err {
                    Err(cps->Err_0)
                } else if lbpu is Err {
                    Err(lbpu->Err_0)
                } else if cpsu is Err {
                    Err(cpsu->Err_0)
                } else {
                    Ok(
                        (
                            LinkInfoV {
                                volume_id: if has_vol {
                                    Some(vol->Ok_0)
                                } else {
                                    None
                                },
                                local_base_path: if has_vol {
                                    Some(lbp->Ok_0.0)
                                } else {
                                    None
                                },
                                common_network_relative_link: if has_cnrl {
                                    Some(cnrl->Ok_0)
                                } else {
                                    None
                                },
                                common_path_suffix: cps->Ok_0.0,
                                local_base_path_unicode: if lbpu_off != 0 {
                                    Some(lbpu->Ok_0.0)
                                } else {
                                    None
                                },
                                common_path_suffix_unicode: if cpsu_off != 0 {
                                    Some(cpsu->Ok_0.0)
                                } else {
                                    None
                                },
                            },
                            end,
                        ),
                    )
                }
            }
        }
    }
}

/// Decodes the volume identifier sub-block.
fn read_volume_id(data: &Vec<u8>, vpos: usize, end: usize, cp: u16) -> (r: Result<VolumeId, Error>)
    requires
        end <= data@.len(),
    ensures
        match r {
            Ok(v) => spec_read_volume_id(data@, vpos as int, end as int, cp) == Ok::<_, Error>(v@),
            Err(e) => spec_read_volume_id(data@, vpos as int, end as int, cp) == Err::<
                VolumeIdV,
                _,
            >(e),
        },
{
    if vpos > end || end - vpos < 16 {
        return Err(Error::UnexpectedEof(Component::VolumeId));
    }
    let vsize = read_u32(data, vpos) as usize;
    if vsize < 17 || end - vpos < vsize {
        return Err(Error::Parse(Component::VolumeId));
    }
    if read_u32(data, vpos + 12) != VOLUME_ID_FIXED {
        return Err(Error::Parse(Component::VolumeId));
    }
    let label = match read_nul_string(data, vpos + 16, vpos + vsize, cp, Component::VolumeId) {
        Ok((s, _)) => s,
        Err(e) => {
            return Err(e);
        },
    };
    Ok(
        VolumeId {
            drive_type: read_u32(data, vpos + 4),
            serial_number: read_u32(data, vpos + 8),
            volume_label: FixedSizeString::new(label),
        },
    )
}

/// Decodes the common network relative link sub-block.
fn read_cnrl(data: &Vec<u8>, cpos: usize, end: usize, cp: u16) -> (r: Result<
    CommonNetworkRelativeLink,
    Error,
>)
    requires
        end <= data@.len(),
    ensures
        match r {
            Ok(v) => spec_read_cnrl(data@, cpos as int, end as int, cp) == Ok::<_, Error>(v@),
            Err(e) => spec_read_cnrl(data@, cpos as int, end as int, cp) == Err::<
                CommonNetworkRelativeLinkV,
                _,
            >(e),
        },
{
    if cpos > end || end - cpos < 20 {
        return Err(Error::UnexpectedEof(Component::CommonNetworkRelativeLink));
    }
    let csize = read_u32(data, cpos) as usize;
    let cflags = read_u32(data, cpos + 4);
    let nno = read_u32(data, cpos + 8) as usize;
    let dno = read_u32(data, cpos + 12) as usize;
    let provider = read_u32(data, cpos + 16);
    if csize < 20 || end - cpos < csize {
        return Err(Error::Parse(Component::CommonNetworkRelativeLink));
    }
    if !(20 <= nno && nno < csize) {
        return Err(Error::OutOfBounds(Component::CommonNetworkRelativeLink));
    }
    let has_device = cflags & CNRL_VALID_DEVICE != 0;
    if has_device && !(20 <= dno && dno < csize) {
        return Err(Error::OutOfBounds(Component::CommonNetworkRelativeLink));
    }
    if !has_device && dno != 0 {
        return Err(Error::Parse(Component::CommonNetworkRelativeLink));
    }
    let net_name = match read_nul_string(
        data,
        cpos + nno,
        cpos + csize,
        cp,
        Component::CommonNetworkRelativeLink,
    ) {
        Ok((s, _)) => s,
        Err(e) => {
            return Err(e);
        },
    };
    let device_name = if has_device {
        match read_nul_string(
            data,
            cpos + dno,
            cpos + csize,
            cp,
            Component::CommonNetworkRelativeLink,
        ) {
            Ok((s, _)) => Some(s),
            Err(e) => {
                return Err(e);
            },
        }
    } else {
        None
    };
    let network_provider_type = if cflags & CNRL_VALID_NET_TYPE != 0 {
        Some(provider)
    } else {
        None
    };
    Ok(CommonNetworkRelativeLink { net_name, device_name, network_provider_type })
}

/// Decodes the link information block at `pos`.
#[verifier::rlimit(100)]
pub fn read_link_info(data: &Vec<u8>, pos: usize, cp: u16) -> (r: Result<(LinkInfo, usize), Error>)
    ensures
        match r {
            Ok((li, np)) => spec_read_link_info(data@, pos as int, cp) == Ok::<_, Error>(
                (li@, np as int),
            ) && li@.wf() && np >= pos,
            Err(e) => spec_read_link_info(data@, pos as int, cp) == Err::<(LinkInfoV, int), _>(e),
        },
{
    let len = data.len();
    if pos > len || len - pos < 8 {
        return Err(Error::UnexpectedEof(Component::LinkInfo));
    }
    let size = read_u32(data, pos) as usize;
    let hs = read_u32(data, pos + 4) as usize;
    if len - pos < size {
        return Err(Error::UnexpectedEof(Component::LinkInfo));
    }
    if !(hs == LI_HEADER_BASIC as usize || hs == LI_HEADER_EXTENDED as usize) || size < hs {
        return Err(Error::Parse(Component::LinkInfo));
    }
    let end = pos + size;
    let flags = read_u32(data, pos + 8);
    let has_vol = flags & LI_VOLUME_ID_AND_LOCAL_BASE_PATH != 0;
    let has_cnrl = flags & LI_CNRL_AND_PATH_SUFFIX != 0;
    let vol_off = read_u32(data, pos + 12) as usize;
    let lbp_off = read_u32(data, pos + 16) as usize;
    let cnrl_off = read_u32(data, pos + 20) as usize;
    let cps_off = read_u32(data, pos + 24) as usize;
    let lbpu_off = if hs == LI_HEADER_EXTENDED as usize {
        read_u32(data, pos + 28) as usize
    } else {
        0
    };
    let cpsu_off = if hs == LI_HEADER_EXTENDED as usize {
        read_u32(data, pos + 32) as usize
    } else {
        0
    };
    if !has_vol && !has_cnrl {
        return Err(Error::Parse(Component::LinkInfo));
    }
    if has_vol != (vol_off != 0) || has_vol != (lbp_off != 0) || has_cnrl != (cnrl_off != 0)
        || cps_off == 0 {
        return Err(Error::Parse(Component::LinkInfo));
    }
    if vol_off >= size || lbp_off >= size || cnrl_off >= size || cps_off >= size || lbpu_off >= size
        || cpsu_off >= size {
        return Err(Error::OutOfBounds(Component::LinkInfo));
    }
    let volume_id = if has_vol {
        match read_volume_id(data, pos + vol_off, end, cp) {
            Ok(v) => Some(v),
            Err(e) => {
                return Err(e);
            },
        }
    } else {
        None
    };
    let local_base_path = if has_vol {
        match read_nul_string(data, pos + lbp_off, end, cp, Component::LinkInfo) {
            Ok((s, _)) => Some(s),
            Err(e) => {
                return Err(e);
            },
        }
    } else {
        None
    };
    let common_network_relative_link = if has_cnrl {
        match read_cnrl(data, pos + cnrl_off, end, cp) {
            Ok(v) => Some(v),
            Err(e) => {
                return Err(e);
            },
        }
    } else {
        None
    };
    let common_path_suffix = match read_nul_string(data, pos + cps_off, end, cp,
        Component::LinkInfo) {
        Ok((s, _)) => s,
        Err(e) => {
            return Err(e);
        },
    };
    let local_base_path_unicode = if lbpu_off != 0 {
        match read_nul_utf16(data, pos + lbpu_off, end, Component::LinkInfo) {
            Ok((s, _)) => Some(s),
            Err(e) => {
                return Err(e);
            },
        }
    } else {
        None
    };
    let common_path_suffix_unicode = if cpsu_off != 0 {
        match read_nul_utf16(data, pos + cpsu_off, end, Component::LinkInfo) {
            Ok((s, _)) => Some(s),
            Err(e) => {
                return Err(e);
            },
        }
    } else {
        None
    };
    Ok(
        (
            LinkInfo {
                volume_id,
                local_base_path,
                common_network_relative_link,
                common_path_suffix,
                local_base_path_unicode,
                common_path_suffix_unicode,
            },
            end,
        ),
    )
}


/// Checked accumulation against the 32-bit size limit of the block.
fn add_checked(running: usize, add: usize) -> (r: Option<usize>)
    requires
        running <= 0xFFFFFFFF,
    ensures
        match r {
            Some(v) => v == running + add && v <= 0xFFFFFFFF,
            None => running + add > 0xFFFFFFFF,
        },
{
    if add > 0xFFFFFFFFusize - running {
        None
    } else {
        Some(running + add)
    }
}

/// The canonical bytes of the link information block before the decode-back
/// guard: header and offset table, then volume identifier, local base path,
/// network block, common path suffix, and the Unicode variants; the extended
/// header is used exactly when a Unicode variant is present.  The first flag
/// that disagrees with its field, the first string that cannot be encoded,
/// and a total size beyond 32 bits are the errors, in that order.
pub open spec fn spec_build_link_info_bytes(li: LinkInfoV, cp: u16) -> Result<Seq<u8>, Error> {
    let has_vol = li.volume_id is Some;
    let has_cnrl = li.common_network_relative_link is Some;
    if has_vol != (li.local_base_path is Some) {
        Err(Error::FlagMismatch(Component::LinkInfo))
    } else if !has_vol && !has_cnrl {
        Err(Error::FlagMismatch(Component::LinkInfo))
    } else {
        let label_r = if has_vol {
            spec_write_nul_string(li.volume_id->0.volume_label, cp, Component::VolumeId)
        } else {
            Ok(Seq::empty())
        };
        match label_r {
            Err(e) => Err(e),
            Ok(label) => {
                let lbp_r = if has_vol {
                    spec_write_nul_string(li.local_base_path->0, cp, Component::LinkInfo)
                } else {
                    Ok(Seq::empty())
                };
                match lbp_r {
                    Err(e) => Err(e),
                    Ok(lbp) => {
                        let net_r = if has_cnrl {
                            spec_write_nul_string(
                                li.common_network_relative_link->0.net_name,
                                cp,
                                Component::CommonNetworkRelativeLink,
                            )
                        } else {
                            Ok(Seq::empty())
                        };
                        match net_r {
                            Err(e) => Err(e),
                            Ok(net) => {
                                let dev_r = if has_cnrl
                                    && li.common_network_relative_link->0.device_name is Some {
                                    spec_write_nul_string(
                                        li.common_network_relative_link->0.device_name->0,
                                        cp,
                                        Component::CommonNetworkRelativeLink,
                                    )
                                } else {
                                    Ok(Seq::empty())
                                };
                                match dev_r {
                                    Err(e) => Err(e),
                                    Ok(dev) => {
                                        match spec_write_nul_string(
                                            li.common_path_suffix,
                                            cp,
                                            Component::LinkInfo,
                                        ) {
                                            Err(e) => Err(e),
                                            Ok(cps) => {
                                                let lbpu_r = if li.local_base_path_unicode
                                                    is Some {
                                                    spec_write_nul_utf16(
                                                        li.local_base_path_unicode->0,
                                                        Component::LinkInfo,
                                                    )
                                                } else {
                                                    Ok(Seq::empty())
                                                };
                                                match lbpu_r {
                                                    Err(e) => Err(e),
                                                    Ok(lbpu) => {
                                                        let cpsu_r = if li
                                                            .common_path_suffix_unicode is Some {
                                                            spec_write_nul_utf16(
                                                                li.common_path_suffix_unicode->0,
                                                                Component::LinkInfo,
                                                            )
                                                        } else {
                                                            Ok(Seq::empty())
                                                        };
                                                        match cpsu_r {
                                                            Err(e) => Err(e),
                                                            Ok(cpsu) => spec_link_info_layout(
                                                                li,
                                                                label,
                                                                lbp,
                                                                net,
                                                                dev,
                                                                cps,
                                                                lbpu,
                                                                cpsu,
                                                            ),
                                                        }
                                                    },
                                                }
                                            },
                                        }
                                    },
                                }
                            },
                        }
                    },
                }
            },
        }
    }
}

/// The byte size of the whole block assembled from already-encoded pieces.
pub open spec fn spec_link_info_total(
    li: LinkInfoV,
    label: Seq<u8>,
    lbp: Seq<u8>,
    net: Seq<u8>,
    dev: Seq<u8>,
    cps: Seq<u8>,
    lbpu: Seq<u8>,
    cpsu: Seq<u8>,
) -> int {
    let extended = li.local_base_path_unicode is Some || li.common_path_suffix_unicode is Some;
    let hs: int = if extended {
        LI_HEADER_EXTENDED as int
    } else {
        LI_HEADER_BASIC as int
    };
    let vol_piece_len: int = if li.volume_id is Some {
        16 + label.len() as int
    } else {
        0
    };
    let cnrl_piece_len: int = if li.common_network_relative_link is Some {
        20 + net.len() as int + dev.len() as int
    } else {
        0
    };
    hs + vol_piece_len + lbp.len() + cnrl_piece_len + cps.len() + lbpu.len() + cpsu.len()
}

/// The assembled block from already-encoded pieces, or the size error.
pub open spec fn spec_link_info_layout(
    li: LinkInfoV,
    label: Seq<u8>,
    lbp: Seq<u8>,
    net: Seq<u8>,
    dev: Seq<u8>,
    cps: Seq<u8>,
    lbpu: Seq<u8>,
    cpsu: Seq<u8>,
) -> Result<Seq<u8>, Error> {
    let has_vol = li.volume_id is Some;
    let has_cnrl = li.common_network_relative_link is Some;
    let extended = li.local_base_path_unicode is Some || li.common_path_suffix_unicode is Some;
    let hs: int = if extended {
        LI_HEADER_EXTENDED as int
    } else {
        LI_HEADER_BASIC as int
    };
    let vol_piece_len: int = if has_vol {
        16 + label.len() as int
    } else {
        0
    };
    let cnrl_piece_len: int = if has_cnrl {
        20 + net.len() as int + dev.len() as int
    } else {
        0
    };
    let total = spec_link_info_total(li, label, lbp, net, dev, cps, lbpu, cpsu);
    if total > 0xFFFFFFFF {
        Err(Error::TooLarge(Component::LinkInfo))
    } else {
        let vol_off: int = if has_vol {
            hs
        } else {
            0
        };
        let lbp_off: int = if has_vol {
            hs + vol_piece_len
        } else {
            0
        };
        let cnrl_off: int = if has_cnrl {
            hs + vol_piece_len + lbp.len()
        } else {
            0
        };
        let cps_off: int = hs + vol_piece_len + lbp.len() + cnrl_piece_len;
        let lbpu_off: int = if li.local_base_path_unicode is Some {
            cps_off + cps.len()
        } else {
            0
        };
        let cpsu_off: int = if li.common_path_suffix_unicode is Some {
            cps_off + cps.len() + lbpu.len()
        } else {
            0
        };
        let li_flags = (if has_vol {
            LI_VOLUME_ID_AND_LOCAL_BASE_PATH
        } else {
            0
        }) | (if has_cnrl {
            LI_CNRL_AND_PATH_SUFFIX
        } else {
            0
        });
        let vol_piece: Seq<u8> = if has_vol {
            u32_le_bytes((16 + label.len()) as u32) + u32_le_bytes(li.volume_id->0.drive_type)
                + u32_le_bytes(li.volume_id->0.serial_number) + u32_le_bytes(VOLUME_ID_FIXED)
                + label
        } else {
            Seq::empty()
        };
        let cnrl_piece: Seq<u8> = if has_cnrl {
            let c = li.common_network_relative_link->0;
            let cflags = (if c.device_name is Some {
                CNRL_VALID_DEVICE
            } else {
                0
            }) | (if c.network_provider_type is Some {
                CNRL_VALID_NET_TYPE
            } else {
                0
            });
            let dno: u32 = if c.device_name is Some {
                (20 + net.len()) as u32
            } else {
                0
            };
            let provider: u32 = if c.network_provider_type is Some {
                c.network_provider_type->0
            } else {
                0
            };
            u32_le_bytes((20 + net.len() + dev.len()) as u32) + u32_le_bytes(cflags)
                + u32_le_bytes(CNRL_FIXED) + u32_le_bytes(dno) + u32_le_bytes(provider) + net + dev
        } else {
            Seq::empty()
        };
        let table_ext: Seq<u8> = if extended {
            u32_le_bytes(lbpu_off as u32) + u32_le_bytes(cpsu_off as u32)
        } else {
            Seq::empty()
        };
        Ok(
            u32_le_bytes(total as u32) + u32_le_bytes(hs as u32) + u32_le_bytes(li_flags)
                + u32_le_bytes(vol_off as u32) + u32_le_bytes(lbp_off as u32) + u32_le_bytes(
                cnrl_off as u32,
            ) + u32_le_bytes(cps_off as u32) + table_ext + vol_piece + lbp + cnrl_piece + cps
                + lbpu + cpsu,
        )
    }
}

/// The bytes the link information block encodes to: the canonical layout,
/// accepted only where decoding it gives back exactly the given value.
pub open spec fn spec_write_link_info(li: LinkInfoV, cp: u16) -> Result<Seq<u8>, Error> {
    match spec_build_link_info_bytes(li, cp) {
        Err(e) => Err(e),
        Ok(bytes) => match spec_read_link_info(bytes, 0, cp) {
            Ok((li2, np)) => {
                if li2 == li && np == bytes.len() {
                    Ok(bytes)
                } else {
                    Err(Error::Unencodable(Component::LinkInfo))
                }
            },
            Err(_) => Err(Error::Unencodable(Component::LinkInfo)),
        },
    }
}

/// Computes the block's total size, refusing one beyond the 32-bit field.
fn link_info_total(
    li: &LinkInfo,
    label: &Vec<u8>,
    lbp: &Vec<u8>,
    net: &Vec<u8>,
    dev: &Vec<u8>,
    cps: &Vec<u8>,
    lbpu: &Vec<u8>,
    cpsu: &Vec<u8>,
) -> (r: Result<usize, Error>)
    ensures
        match r {
            Ok(t) => t == spec_link_info_total(li@, label@, lbp@, net@, dev@, cps@, lbpu@, cpsu@)
                && t <= 0xFFFFFFFF,
            Err(e) => spec_link_info_total(li@, label@, lbp@, net@, dev@, cps@, lbpu@, cpsu@)
                > 0xFFFFFFFF && e == Error::TooLarge(Component::LinkInfo),
        },
{
    let has_vol = li.volume_id.is_some();
    let has_cnrl = li.common_network_relative_link.is_some();
    let extended = li.local_base_path_unicode.is_some() || li.common_path_suffix_unicode.is_some();
    let hs: usize = if extended {
        LI_HEADER_EXTENDED as usize
    } else {
        LI_HEADER_BASIC as usize
    };
    let mut running: usize = hs;
    if has_vol {
        running = match add_checked(running, 16) {
            Some(v) => v,
            None => {
                return Err(Error::TooLarge(Component::LinkInfo));
            },
        };
        running = match add_checked(running, label.len()) {
            Some(v) => v,
            None => {
                return Err(Error::TooLarge(Component::LinkInfo));
            },
        };
    }
    running = match add_checked(running, lbp.len()) {
        Some(v) => v,
        None => {
            return Err(Error::TooLarge(Component::LinkInfo));
        },
    };
    if has_cnrl {
        running = match add_checked(running, 20) {
            Some(v) => v,
            None => {
                return Err(Error::TooLarge(Component::LinkInfo));
            },
        };
        running = match add_checked(running, net.len()) {
            Some(v) => v,
            None => {
                return Err(Error::TooLarge(Component::LinkInfo));
            },
        };
        running = match add_checked(running, dev.len()) {
            Some(v) => v,
            None => {
                return Err(Error::TooLarge(Component::LinkInfo));
            },
        };
    }
    running = match add_checked(running, cps.len()) {
        Some(v) => v,
        None => {
            return Err(Error::TooLarge(Component::LinkInfo));
        },
    };
    running = match add_checked(running, lbpu.len()) {
        Some(v) => v,
        None => {
            return Err(Error::TooLarge(Component::LinkInfo));
        },
    };
    running = match add_checked(running, cpsu.len()) {
        Some(v) => v,
        None => {
            return Err(Error::TooLarge(Component::LinkInfo));
        },
    };
    Ok(running)
}

/// Concatenates table and pieces of the block in file order.
#[verifier::rlimit(100)]
fn concat_link_info(
    extended: bool,
    has_vol: bool,
    has_cnrl: bool,
    total: u32,
    hs: u32,
    li_flags: u32,
    vol_off: u32,
    lbp_off: u32,
    cnrl_off: u32,
    cps_off: u32,
    lbpu_off: u32,
    cpsu_off: u32,
    vsize: u32,
    drive: u32,
    serial: u32,
    csize: u32,
    cflags: u32,
    dno: u32,
    provider: u32,
    label: Vec<u8>,
    lbp: Vec<u8>,
    net: Vec<u8>,
    dev: Vec<u8>,
    cps: Vec<u8>,
    lbpu: Vec<u8>,
    cpsu: Vec<u8>,
) -> (r: Vec<u8>)
    ensures
        r@ == u32_le_bytes(total) + u32_le_bytes(hs) + u32_le_bytes(li_flags) + u32_le_bytes(
            vol_off,
        ) + u32_le_bytes(lbp_off) + u32_le_bytes(cnrl_off) + u32_le_bytes(cps_off) + (if extended {
            u32_le_bytes(lbpu_off) + u32_le_bytes(cpsu_off)
        } else {
            Seq::<u8>::empty()
        }) + (if has_vol {
            u32_le_bytes(vsize) + u32_le_bytes(drive) + u32_le_bytes(serial) + u32_le_bytes(
                VOLUME_ID_FIXED,
            ) + label@
        } else {
            Seq::<u8>::empty()
        }) + lbp@ + (if has_cnrl {
            u32_le_bytes(csize) + u32_le_bytes(cflags) + u32_le_bytes(CNRL_FIXED) + u32_le_bytes(
                dno,
            ) + u32_le_bytes(provider) + net@ + dev@
        } else {
            Seq::<u8>::empty()
        }) + cps@ + lbpu@ + cpsu@,
{
    let ghost glabel = label@;
    let ghost glbp = lbp@;
    let ghost gnet = net@;
    let ghost gdev = dev@;
    let ghost gcps = cps@;
    let ghost glbpu = lbpu@;
    let ghost gcpsu = cpsu@;
    let mut label = label;
    let mut lbp = lbp;
    let mut net = net;
    let mut dev = dev;
    let mut cps = cps;
    let mut lbpu = lbpu;
    let mut cpsu = cpsu;
    let mut buf: Vec<u8> = Vec::new();
    push_u32(&mut buf, total);
    push_u32(&mut buf, hs);
    push_u32(&mut buf, li_flags);
    push_u32(&mut buf, vol_off);
    push_u32(&mut buf, lbp_off);
    push_u32(&mut buf, cnrl_off);
    push_u32(&mut buf, cps_off);
    if extended {
        push_u32(&mut buf, lbpu_off);
        push_u32(&mut buf, cpsu_off);
    }
    let ghost table = buf@;
    proof {
        assert(table =~= u32_le_bytes(total) + u32_le_bytes(hs) + u32_le_bytes(li_flags)
            + u32_le_bytes(vol_off) + u32_le_bytes(lbp_off) + u32_le_bytes(cnrl_off)
            + u32_le_bytes(cps_off) + (if extended {
            u32_le_bytes(lbpu_off) + u32_le_bytes(cpsu_off)
        } else {
            Seq::<u8>::empty()
        }));
    }
    if has_vol {
        push_u32(&mut buf, vsize);
        push_u32(&mut buf, drive);
        push_u32(&mut buf, serial);
        push_u32(&mut buf, VOLUME_ID_FIXED);
        buf.append(&mut label);
    }
    let ghost after_vol = buf@;
    proof {
        assert(after_vol =~= table + (if has_vol {
            u32_le_bytes(vsize) + u32_le_bytes(drive) + u32_le_bytes(serial) + u32_le_bytes(
                VOLUME_ID_FIXED,
            ) + glabel
        } else {
            Seq::<u8>::empty()
        }));
    }
    buf.append(&mut lbp);
    if has_cnrl {
        push_u32(&mut buf, csize);
        push_u32(&mut buf, cflags);
        push_u32(&mut buf, CNRL_FIXED);
        push_u32(&mut buf, dno);
        push_u32(&mut buf, provider);
        buf.append(&mut net);
        buf.append(&mut dev);
    }
    let ghost after_cnrl = buf@;
    proof {
        assert(after_cnrl =~= after_vol + glbp + (if has_cnrl {
            u32_le_bytes(csize) + u32_le_bytes(cflags) + u32_le_bytes(CNRL_FIXED) + u32_le_bytes(
                dno,
            ) + u32_le_bytes(provider) + gnet + gdev
        } else {
            Seq::<u8>::empty()
        }));
    }
    buf.append(&mut cps);
    buf.append(&mut lbpu);
    buf.append(&mut cpsu);
    proof {
        assert(buf@ =~= after_cnrl + gcps + glbpu + gcpsu);
        assert(buf@ =~= table + (if has_vol {
            u32_le_bytes(vsize) + u32_le_bytes(drive) + u32_le_bytes(serial) + u32_le_bytes(
                VOLUME_ID_FIXED,
            ) + glabel
        } else {
            Seq::<u8>::empty()
        }) + glbp + (if has_cnrl {
            u32_le_bytes(csize) + u32_le_bytes(cflags) + u32_le_bytes(CNRL_FIXED) + u32_le_bytes(
                dno,
            ) + u32_le_bytes(provider) + gnet + gdev
        } else {
            Seq::<u8>::empty()
        }) + gcps + glbpu + gcpsu);
    }
    buf
}

/// Assembles the block from already-encoded pieces, checking the total size
/// against the 32-bit size field.
#[verifier::rlimit(100)]
fn assemble_link_info(
    li: &LinkInfo,
    label: Vec<u8>,
    lbp: Vec<u8>,
    net: Vec<u8>,
    dev: Vec<u8>,
    cps: Vec<u8>,
    lbpu: Vec<u8>,
    cpsu: Vec<u8>,
) -> (r: Result<Vec<u8>, Error>)
    requires
        li@.volume_id is Some <==> li@.local_base_path is Some,
        li@.volume_id is Some || li@.common_network_relative_link is Some,
    ensures
        match r {
            Ok(buf) => spec_link_info_layout(li@, label@, lbp@, net@, dev@, cps@, lbpu@, cpsu@)
                == Ok::<Seq<u8>, Error>(buf@),
            Err(e) => spec_link_info_layout(li@, label@, lbp@, net@, dev@, cps@, lbpu@, cpsu@)
                == Err::<Seq<u8>, Error>(e),
        },
{
    let total = match link_info_total(li, &label, &lbp, &net, &dev, &cps, &lbpu, &cpsu) {
        Ok(t) => t,
        Err(e) => {
            return Err(e);
        },
    };
    let has_vol = li.volume_id.is_some();
    let has_cnrl = li.common_network_relative_link.is_some();
    let extended = li.local_base_path_unicode.is_some() || li.common_path_suffix_unicode.is_some();
    let hs: usize = if extended {
        LI_HEADER_EXTENDED as usize
    } else {
        LI_HEADER_BASIC as usize
    };
    let vol_piece_len: usize = if has_vol {
        16 + label.len()
    } else {
        0
    };
    let cnrl_piece_len: usize = if has_cnrl {
        20 + net.len() + dev.len()
    } else {
        0
    };
    let vol_off: usize = if has_vol {
        hs
    } else {
        0
    };
    let lbp_off: usize = if has_vol {
        hs + vol_piece_len
    } else {
        0
    };
    let cnrl_off: usize = if has_cnrl {
        hs + vol_piece_len + lbp.len()
    } else {
        0
    };
    let cps_off: usize = hs + vol_piece_len + lbp.len() + cnrl_piece_len;
    let lbpu_off: usize = if li.local_base_path_unicode.is_some() {
        cps_off + cps.len()
    } else {
        0
    };
    let cpsu_off: usize = if li.common_path_suffix_unicode.is_some() {
        cps_off + cps.len() + lbpu.len()
    } else {
        0
    };
    let li_flags: u32 = (if has_vol {
        LI_VOLUME_ID_AND_LOCAL_BASE_PATH
    } else {
        0
    }) | (if has_cnrl {
        LI_CNRL_AND_PATH_SUFFIX
    } else {
        0
    });
    let vsize: u32 = if has_vol {
        (16 + label.len()) as u32
    } else {
        0
    };
    let (drive, serial) = match &li.volume_id {
        Some(v) => (v.drive_type, v.serial_number),
        None => (0, 0),
    };
    let csize: u32 = if has_cnrl {
        (20 + net.len() + dev.len()) as u32
    } else {
        0
    };
    let (cflags, dno, provider) = match &li.common_network_relative_link {
        Some(c) => {
            let cflags: u32 = (if c.device_name.is_some() {
                CNRL_VALID_DEVICE
            } else {
                0
            }) | (if c.network_provider_type.is_some() {
                CNRL_VALID_NET_TYPE
            } else {
                0
            });
            let dno: u32 = if c.device_name.is_some() {
                (20 + net.len()) as u32
            } else {
                0
            };
            let provider: u32 = match &c.network_provider_type {
                Some(p) => *p,
                None => 0,
            };
            (cflags, dno, provider)
        },
        None => (0, 0, 0),
    };
    let ghost glabel = label@;
    let ghost glbp = lbp@;
    let ghost gnet = net@;
    let ghost gdev = dev@;
    let ghost gcps = cps@;
    let ghost glbpu = lbpu@;
    let ghost gcpsu = cpsu@;
    let buf = concat_link_info(
        extended,
        has_vol,
        has_cnrl,
        total as u32,
        hs as u32,
        li_flags,
        vol_off as u32,
        lbp_off as u32,
        cnrl_off as u32,
        cps_off as u32,
        lbpu_off as u32,
        cpsu_off as u32,
        vsize,
        drive,
        serial,
        csize,
        cflags,
        dno,
        provider,
        label,
        lbp,
        net,
        dev,
        cps,
        lbpu,
        cpsu,
    );
    proof {
        let lay = spec_link_info_layout(li@, glabel, glbp, gnet, gdev, gcps, glbpu, gcpsu);
        assert(lay is Ok);
        assert(buf@ =~= lay->Ok_0);
    }
    Ok(buf)
}

/// Lays out the link information block in the canonical order.
#[verifier::rlimit(100)]
fn build_link_info_bytes(li: &LinkInfo, cp: u16) -> (r: Result<Vec<u8>, Error>)
    ensures
        match r {
            Ok(buf) => spec_build_link_info_bytes(li@, cp) == Ok::<Seq<u8>, Error>(buf@),
            Err(e) => spec_build_link_info_bytes(li@, cp) == Err::<Seq<u8>, Error>(e),
        },
{
    let has_vol = li.volume_id.is_some();
    if has_vol != li.local_base_path.is_some() {
        return Err(Error::FlagMismatch(Component::LinkInfo));
    }
    let has_cnrl = li.common_network_relative_link.is_some();
    if !has_vol && !has_cnrl {
        return Err(Error::FlagMismatch(Component::LinkInfo));
    }
    let mut label: Vec<u8> = Vec::new();
    if let Some(v) = &li.volume_id {
        if let Err(e) = write_nul_string(&mut label, v.volume_label.as_string(), cp,
            Component::VolumeId) {
            return Err(e);
        }
        proof {
            assert(label@ =~= Seq::<u8>::empty() + spec_write_nul_string(
                li@.volume_id->0.volume_label,
                cp,
                Component::VolumeId,
            )->Ok_0);
        }
    }
    let mut lbp: Vec<u8> = Vec::new();
    if let Some(p) = &li.local_base_path {
        if let Err(e) = write_nul_string(&mut lbp, p, cp, Component::LinkInfo) {
            return Err(e);
        }
        proof {
            assert(lbp@ =~= Seq::<u8>::empty() + spec_write_nul_string(
                li@.local_base_path->0,
                cp,
                Component::LinkInfo,
            )->Ok_0);
        }
    }
    let mut net: Vec<u8> = Vec::new();
    let mut dev: Vec<u8> = Vec::new();
    if let Some(c) = &li.common_network_relative_link {
        if let Err(e) = write_nul_string(&mut net, &c.net_name, cp,
            Component::CommonNetworkRelativeLink) {
            return Err(e);
        }
        proof {
            assert(net@ =~= Seq::<u8>::empty() + spec_write_nul_string(
                li@.common_network_relative_link->0.net_name,
                cp,
                Component::CommonNetworkRelativeLink,
            )->Ok_0);
        }
        if let Some(d) = &c.device_name {
            if let Err(e) = write_nul_string(&mut dev, d, cp,
                Component::CommonNetworkRelativeLink) {
                return Err(e);
            }
            proof {
                assert(dev@ =~= Seq::<u8>::empty() + spec_write_nul_string(
                    li@.common_network_relative_link->0.device_name->0,
                    cp,
                    Component::CommonNetworkRelativeLink,
                )->Ok_0);
            }
        }
    }
    let mut cps: Vec<u8> = Vec::new();
    if let Err(e) = write_nul_string(&mut cps, &li.common_path_suffix, cp, Component::LinkInfo) {
        return Err(e);
    }
    proof {
        assert(cps@ =~= Seq::<u8>::empty() + spec_write_nul_string(
            li@.common_path_suffix,
            cp,
            Component::LinkInfo,
        )->Ok_0);
    }
    let mut lbpu: Vec<u8> = Vec::new();
    if let Some(p) = &li.local_base_path_unicode {
        if let Err(e) = write_nul_utf16(&mut lbpu, p, Component::LinkInfo) {
            return Err(e);
        }
        proof {
            assert(lbpu@ =~= Seq::<u8>::empty() + spec_write_nul_utf16(
                li@.local_base_path_unicode->0,
                Component::LinkInfo,
            )->Ok_0);
        }
    }
    let mut cpsu: Vec<u8> = Vec::new();
    if let Some(p) = &li.common_path_suffix_unicode {
        if let Err(e) = write_nul_utf16(&mut cpsu, p, Component::LinkInfo) {
            return Err(e);
        }
        proof {
            assert(cpsu@ =~= Seq::<u8>::empty() + spec_write_nul_utf16(
                li@.common_path_suffix_unicode->0,
                Component::LinkInfo,
            )->Ok_0);
        }
    }
    match assemble_link_info(li, label, lbp, net, dev, cps, lbpu, cpsu) {
        Ok(buf) => Ok(buf),
        Err(e) => Err(e),
    }
}

/// Encodes the link information block; the bytes are decoded back and
/// compared with the given value before the writer commits to them.
pub fn write_link_info(out: &mut Vec<u8>, li: &LinkInfo, cp: u16) -> (r: Result<(), Error>)
    ensures
        final(out)@.len() >= old(out)@.len(),
        forall|i: int| 0 <= i < old(out)@.len() ==> #[trigger] final(out)@[i] == old(out)@[i],
        match r {
            Ok(()) => {
                &&& li@.wf()
                &&& spec_write_link_info(li@, cp) matches Ok(w) && final(out)@ == old(out)@ + w
            },
            Err(e) => spec_write_link_info(li@, cp) == Err::<Seq<u8>, _>(e) && final(out)@ == old(
                out,
            )@,
        },
{
    let mut buf = match build_link_info_bytes(li, cp) {
        Ok(buf) => buf,
        Err(e) => {
            return Err(e);
        },
    };
    let ok = match read_link_info(&buf, 0, cp) {
        Ok((li2, np)) => np == buf.len() && li2.eq(li),
        Err(_) => false,
    };
    if !ok {
        return Err(Error::Unencodable(Component::LinkInfo));
    }
    out.append(&mut buf);
    Ok(())
}

} // verus!
