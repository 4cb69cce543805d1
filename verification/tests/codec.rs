use lnk::error::{Component, Error};
use lnk::extradata::{ExtraData, ExtraDataBlock};
use lnk::linkinfo::{CommonNetworkRelativeLink, LinkInfo, VolumeId};
use lnk::linktarget::LinkTargetIdList;
use lnk::strings::{FixedSizeString, StringEncoding};
use lnk::ShellLink;

/// A well-formed 76-byte header with the given flag word and zeros elsewhere.
fn header_bytes(flags: u32) -> Vec<u8> {
    let mut v = vec![
        0x4C, 0, 0, 0, // magic
        0x01, 0x14, 0x02, 0x00, 0x00, 0x00, 0x00, 0x00, // class id
        0xC0, 0x00, 0x00, 0x00, 0x00, 0x00, 0x00, 0x46,
    ];
    v.extend_from_slice(&flags.to_le_bytes());
    v.extend_from_slice(&[0u8; 52]);
    v
}

fn terminator() -> Vec<u8> {
    vec![0, 0, 0, 0]
}

#[test]
fn create_read_blank() {
    for encoding in &[StringEncoding::Unicode, StringEncoding::CodePage(1252)] {
        let mut shortcut = lnk::ShellLink::default().with_encoding(encoding);
        shortcut.set_name(Some("Blank name".to_string()));
        let bytes = shortcut.to_bytes().expect("Failed to save shortcut!");
        let shortcut = lnk::ShellLink::from_bytes(&bytes, 1252).unwrap();
        assert_eq!(
            shortcut.string_data().name_string(),
            &Some("Blank name".to_string())
        );
    }
}

#[test]
fn magic_mismatch_is_not_a_shell_link() {
    let mut bytes = header_bytes(0);
    bytes.extend_from_slice(&terminator());
    bytes[0] = 0x4D;
    assert_eq!(
        ShellLink::from_bytes(&bytes, 1252).unwrap_err(),
        Error::NotAShellLink
    );
}

#[test]
fn class_id_mismatch_is_not_a_shell_link() {
    let mut bytes = header_bytes(0);
    bytes.extend_from_slice(&terminator());
    bytes[5] = 0x15;
    assert_eq!(
        ShellLink::from_bytes(&bytes, 1252).unwrap_err(),
        Error::NotAShellLink
    );
}

#[test]
fn truncated_header_is_unexpected_eof() {
    let bytes = header_bytes(0)[..50].to_vec();
    assert_eq!(
        ShellLink::from_bytes(&bytes, 1252).unwrap_err(),
        Error::UnexpectedEof(Component::Header)
    );
}

#[test]
fn trailing_bytes_are_rejected() {
    let mut bytes = header_bytes(0);
    bytes.extend_from_slice(&terminator());
    bytes.push(0);
    assert_eq!(
        ShellLink::from_bytes(&bytes, 1252).unwrap_err(),
        Error::TrailingData
    );
}

#[test]
fn link_info_offset_out_of_bounds() {
    // HAS_LINK_INFO is bit 1 of the flag word.
    let mut bytes = header_bytes(0x02);
    // 32-byte block: basic header, network flag set, and a common path
    // suffix offset pointing far outside the declared size.
    bytes.extend_from_slice(&32u32.to_le_bytes());
    bytes.extend_from_slice(&0x1Cu32.to_le_bytes());
    bytes.extend_from_slice(&2u32.to_le_bytes()); // network block present
    bytes.extend_from_slice(&0u32.to_le_bytes()); // volume id offset
    bytes.extend_from_slice(&0u32.to_le_bytes()); // local base path offset
    bytes.extend_from_slice(&0x1Cu32.to_le_bytes()); // network block offset
    bytes.extend_from_slice(&0x7FFF_FFFFu32.to_le_bytes()); // suffix offset
    bytes.extend_from_slice(&[0, 0, 0, 0]);
    bytes.extend_from_slice(&terminator());
    assert_eq!(
        ShellLink::from_bytes(&bytes, 1252).unwrap_err(),
        Error::OutOfBounds(Component::LinkInfo)
    );
}

#[test]
fn decode_code_page_string() {
    // HAS_NAME is bit 2; the Unicode flag is clear, so the name is read
    // under the caller's code page: 0x80 is the euro sign in windows-1252.
    let mut bytes = header_bytes(0x04);
    bytes.extend_from_slice(&[1, 0, 0x80]);
    bytes.extend_from_slice(&terminator());
    let link = ShellLink::from_bytes(&bytes, 1252).unwrap();
    assert_eq!(link.string_data().name_string(), &Some("\u{20AC}".to_string()));
}

#[test]
fn encoding_fidelity_round_trip() {
    // ASCII text under a code page.
    let mut link = ShellLink::default().with_encoding(&StringEncoding::CodePage(1252));
    link.set_name(Some("plain ascii".to_string()));
    let bytes = link.to_bytes().unwrap();
    let back = ShellLink::from_bytes(&bytes, 1252).unwrap();
    assert_eq!(back.string_data().name_string(), &Some("plain ascii".to_string()));

    // Non-Latin text under UTF-16.
    let mut link = ShellLink::default().with_encoding(&StringEncoding::Unicode);
    link.set_name(Some("日本語".to_string()));
    let bytes = link.to_bytes().unwrap();
    // count 3, then the three UTF-16LE code units
    assert_eq!(&bytes[76..84], &[3, 0, 0xE5, 0x65, 0x2C, 0x67, 0x9E, 0x8A]);
    let back = ShellLink::from_bytes(&bytes, 1252).unwrap();
    assert_eq!(back.string_data().name_string(), &Some("日本語".to_string()));
}

#[test]
fn string_too_long_is_rejected() {
    let mut link = ShellLink::default();
    link.set_name(Some("x".repeat(70000)));
    assert_eq!(
        link.to_bytes().unwrap_err(),
        Error::StringTooLong(Component::NameString)
    );
}

#[test]
fn minimal_link_round_trip() {
    let mut link = ShellLink::default();
    link.set_name(Some("only name".to_string()));
    let bytes = link.to_bytes().unwrap();
    let back = ShellLink::from_bytes(&bytes, 1252).unwrap();
    assert_eq!(back.string_data().name_string(), &Some("only name".to_string()));
    assert_eq!(back.string_data().relative_path(), &None);
    assert_eq!(back.string_data().working_dir(), &None);
    assert_eq!(back.string_data().command_line_arguments(), &None);
    assert_eq!(back.string_data().icon_location(), &None);
    assert!(back.linktarget_id_list().is_none());
    assert!(back.link_info().is_none());
    assert!(back.extra_data().blocks().is_empty());
    assert_eq!(back, link);
}

#[test]
fn default_header_bytes_are_canonical() {
    let link = ShellLink::default();
    let bytes = link.to_bytes().unwrap();
    // magic, class identifier, flag word (Unicode bit only), show command 1
    assert_eq!(&bytes[0..4], &[0x4C, 0, 0, 0]);
    assert_eq!(
        &bytes[4..20],
        &[0x01, 0x14, 0x02, 0, 0, 0, 0, 0, 0xC0, 0, 0, 0, 0, 0, 0, 0x46]
    );
    assert_eq!(&bytes[20..24], &[0x80, 0, 0, 0]);
    assert_eq!(&bytes[60..64], &[1, 0, 0, 0]);
    assert_eq!(bytes.len(), 80);
}

#[test]
fn id_list_round_trip() {
    let mut list = LinkTargetIdList::new();
    list.push_record(vec![1, 2, 3]);
    list.push_record(vec![]);
    list.push_record(vec![0xFF; 40]);
    let mut link = ShellLink::default();
    link.set_linktarget_id_list(Some(list.clone()));
    let bytes = link.to_bytes().unwrap();
    let back = ShellLink::from_bytes(&bytes, 1252).unwrap();
    assert_eq!(back.linktarget_id_list().as_ref().unwrap(), &list);
    assert_eq!(back, link);
}

#[test]
fn extra_data_round_trip() {
    let mut extra = ExtraData::default();
    extra.push_block(ExtraDataBlock {
        signature: 0xA000_0001,
        data: vec![9, 8, 7, 6],
    });
    extra.push_block(ExtraDataBlock {
        signature: 0xDEAD_BEEF,
        data: vec![],
    });
    let mut link = ShellLink::default();
    link.set_extra_data(extra.clone());
    let bytes = link.to_bytes().unwrap();
    let back = ShellLink::from_bytes(&bytes, 1252).unwrap();
    assert_eq!(back.extra_data(), &extra);
    assert_eq!(back, link);
}

#[test]
fn link_info_round_trip() {
    let info = LinkInfo {
        volume_id: Some(VolumeId {
            drive_type: 3,
            serial_number: 0xCAFE_F00D,
            volume_label: FixedSizeString::new("DATA".to_string()),
        }),
        local_base_path: Some("C:\\Dir".to_string()),
        common_network_relative_link: None,
        common_path_suffix: "file.exe".to_string(),
        local_base_path_unicode: None,
        common_path_suffix_unicode: None,
    };
    let mut link = ShellLink::default();
    link.set_link_info(Some(info.clone()));
    let bytes = link.to_bytes().unwrap();
    let back = ShellLink::from_bytes(&bytes, 1252).unwrap();
    assert_eq!(back.link_info().as_ref().unwrap(), &info);
    assert_eq!(back, link);
}

#[test]
fn network_link_info_round_trip() {
    let info = LinkInfo {
        volume_id: None,
        local_base_path: None,
        common_network_relative_link: Some(CommonNetworkRelativeLink {
            net_name: "\\\\server\\share".to_string(),
            device_name: Some("Z:".to_string()),
            network_provider_type: Some(0x0002_0000),
        }),
        common_path_suffix: "docs\\a.txt".to_string(),
        local_base_path_unicode: None,
        common_path_suffix_unicode: Some("docs\\a.txt".to_string()),
    };
    let mut link = ShellLink::default();
    link.set_link_info(Some(info.clone()));
    let bytes = link.to_bytes().unwrap();
    let back = ShellLink::from_bytes(&bytes, 1252).unwrap();
    assert_eq!(back.link_info().as_ref().unwrap(), &info);
    assert_eq!(back, link);
}

#[test]
fn link_target_joins_with_one_separator() {
    let mut link = ShellLink::default();
    link.set_link_info(Some(LinkInfo {
        volume_id: Some(VolumeId {
            drive_type: 3,
            serial_number: 1,
            volume_label: FixedSizeString::new(String::new()),
        }),
        local_base_path: Some("C:\\Dir".to_string()),
        common_network_relative_link: None,
        common_path_suffix: "file.exe".to_string(),
        local_base_path_unicode: None,
        common_path_suffix_unicode: None,
    }));
    assert_eq!(link.link_target(), Some("C:\\Dir\\file.exe".to_string()));

    link.set_link_info(Some(LinkInfo {
        volume_id: Some(VolumeId {
            drive_type: 3,
            serial_number: 1,
            volume_label: FixedSizeString::new(String::new()),
        }),
        local_base_path: Some("C:\\Dir".to_string()),
        common_network_relative_link: None,
        common_path_suffix: String::new(),
        local_base_path_unicode: None,
        common_path_suffix_unicode: None,
    }));
    assert_eq!(link.link_target(), Some("C:\\Dir".to_string()));

    link.set_link_info(None);
    assert_eq!(link.link_target(), None);
}

#[test]
fn flag_payload_pairing_is_validated_before_encode() {
    let mut link = ShellLink::default();
    link.set_name(Some("kept".to_string()));
    // Clearing the field through the setter clears the flag too, so the
    // pairing survives and the encode succeeds.
    link.set_name(None);
    let bytes = link.to_bytes().unwrap();
    let back = ShellLink::from_bytes(&bytes, 1252).unwrap();
    assert_eq!(back.string_data().name_string(), &None);
    // A decoded link always satisfies the pairing: each present field has
    // its flag set.
    let mut link = ShellLink::default();
    link.set_name(Some("name".to_string()));
    link.set_arguments(Some("-v".to_string()));
    let bytes = link.to_bytes().unwrap();
    let back = ShellLink::from_bytes(&bytes, 1252).unwrap();
    assert!(back.string_data().name_string().is_some());
    assert!(back.string_data().command_line_arguments().is_some());
    assert!(back.string_data().relative_path().is_none());
}

#[test]
fn unencodable_code_page_string_is_rejected() {
    // The kanji cannot be carried by windows-1252 and given back unchanged.
    let mut link = ShellLink::default().with_encoding(&StringEncoding::CodePage(1252));
    link.set_name(Some("日本語".to_string()));
    assert_eq!(
        link.to_bytes().unwrap_err(),
        Error::Unencodable(Component::NameString)
    );
}

#[test]
fn error_messages_name_the_fault() {
    assert!(Error::NotAShellLink.message().contains("not a shell link"));
    assert!(Error::TrailingData.message().contains("trailing"));
}

#[test]
fn malformed_item_record_is_a_parse_error() {
    // HAS_LINK_TARGET_ID_LIST is bit 0: a record length of one is malformed.
    let mut bytes = header_bytes(0x01);
    bytes.extend_from_slice(&[4, 0, 1, 0, 9, 9]);
    bytes.extend_from_slice(&terminator());
    assert_eq!(
        ShellLink::from_bytes(&bytes, 1252).unwrap_err(),
        Error::Parse(Component::LinkTargetIdList)
    );
}

#[test]
fn oversized_id_list_is_rejected() {
    let mut list = LinkTargetIdList::new();
    list.push_record(vec![0u8; 70000]);
    let mut link = ShellLink::default();
    link.set_linktarget_id_list(Some(list));
    assert_eq!(
        link.to_bytes().unwrap_err(),
        Error::TooLarge(Component::LinkTargetIdList)
    );
}
