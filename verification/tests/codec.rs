use virtio_gpu::{
    AttachBacking, Config, CtrlCategory, CtrlHeader, CtrlType, CursorPos, DecodeError,
    DetachBacking, DisplayOne, Formats, GetEdid, MemEntry, Rect, ResourceCreate2d, ResourceFlush,
    ResourceUnref, RespDisplayInfo, RespEdid, ResponseError, SetScanout, TransferToHost2d,
    UpdateCursor, EDID_SIZE, EVENT_DISPLAY, FLAG_FENCE, F_EDID, F_VIRGL, MAX_SCANOUTS,
};

const ALL_TAGS: [(CtrlType, u32); 24] = [
    (CtrlType::CmdGetDisplayInfo, 0x0100),
    (CtrlType::CmdResourceCreate2d, 0x0101),
    (CtrlType::CmdResourceUref, 0x0102),
    (CtrlType::CmdSetScanout, 0x0103),
    (CtrlType::CmdResourceFlush, 0x0104),
    (CtrlType::CmdTransferToHost2d, 0x0105),
    (CtrlType::CmdResourceAttachBacking, 0x0106),
    (CtrlType::CmdResourceDetachBacking, 0x0107),
    (CtrlType::CmdGetCapsetInfo, 0x0108),
    (CtrlType::CmdGetCapset, 0x0109),
    (CtrlType::CmdGetEdid, 0x010A),
    (CtrlType::CmdUpdateCursor, 0x0300),
    (CtrlType::CmdMoveCursor, 0x0301),
    (CtrlType::RespOkNoData, 0x1100),
    (CtrlType::RespOkDisplayInfo, 0x1101),
    (CtrlType::RespOkCapsetInfo, 0x1102),
    (CtrlType::RespOkCapset, 0x1103),
    (CtrlType::RespOkEdid, 0x1104),
    (CtrlType::RespErrUnspec, 0x1200),
    (CtrlType::RespErrOutOfMemory, 0x1201),
    (CtrlType::RespErrInvalidScanoutId, 0x1202),
    (CtrlType::RespErrInvalidResourceId, 0x1203),
    (CtrlType::RespErrInvalidContextId, 0x1204),
    (CtrlType::RespErrInvalidParameter, 0x1205),
];

fn sample_header(tag: CtrlType) -> CtrlHeader {
    CtrlHeader::new(tag, 0x0000_0001, 0x1122_3344_5566_7788, 0x9abc_def0)
}

fn sample_rect() -> Rect {
    Rect::new(0x0102_0304, 0x0506_0708, 640, 480)
}

#[test]
fn tag_codes_are_the_protocol_numbers() {
    for (tag, code) in ALL_TAGS {
        assert_eq!(tag.code(), code);
        assert_eq!(CtrlType::from_code(code), Some(tag));
    }
}

#[test]
fn unknown_tag_codes_are_refused() {
    for code in [0u32, 0x00ff, 0x010b, 0x02ff, 0x0302, 0x10ff, 0x1105, 0x11ff, 0x1206, u32::MAX] {
        assert_eq!(CtrlType::from_code(code), None);
    }
}

#[test]
fn every_code_maps_back_to_itself_or_to_nothing() {
    let mut known = 0;
    for code in 0u32..0x2000 {
        if let Some(tag) = CtrlType::from_code(code) {
            assert_eq!(tag.code(), code);
            known += 1;
        }
    }
    assert_eq!(known, 24);
}

#[test]
fn tags_fall_into_their_ranges() {
    for (tag, code) in ALL_TAGS {
        let expected = if (0x0100..=0x010a).contains(&code) {
            CtrlCategory::Command2d
        } else if (0x0300..=0x0301).contains(&code) {
            CtrlCategory::CursorCommand
        } else if (0x1100..=0x1104).contains(&code) {
            CtrlCategory::Success
        } else {
            CtrlCategory::Error
        };
        assert_eq!(tag.category(), expected);
    }
}

#[test]
fn invalid_resource_id_is_an_error_of_its_own() {
    let resource = CtrlType::from_code(0x1203).unwrap();
    let scanout = CtrlType::from_code(0x1202).unwrap();
    assert_eq!(resource, CtrlType::RespErrInvalidResourceId);
    assert_eq!(scanout, CtrlType::RespErrInvalidScanoutId);
    assert_eq!(resource.category(), CtrlCategory::Error);
    assert_eq!(scanout.category(), CtrlCategory::Error);
    assert_eq!(resource.error(), Some(ResponseError::InvalidResourceId));
    assert_eq!(scanout.error(), Some(ResponseError::InvalidScanoutId));
    assert_ne!(resource.error(), scanout.error());
}

#[test]
fn each_error_code_has_its_own_kind() {
    assert_eq!(CtrlType::RespErrUnspec.error(), Some(ResponseError::Unspecified));
    assert_eq!(CtrlType::RespErrOutOfMemory.error(), Some(ResponseError::OutOfMemory));
    assert_eq!(CtrlType::RespErrInvalidScanoutId.error(), Some(ResponseError::InvalidScanoutId));
    assert_eq!(CtrlType::RespErrInvalidResourceId.error(), Some(ResponseError::InvalidResourceId));
    assert_eq!(CtrlType::RespErrInvalidContextId.error(), Some(ResponseError::InvalidContextId));
    assert_eq!(CtrlType::RespErrInvalidParameter.error(), Some(ResponseError::InvalidParameter));
    for (tag, code) in ALL_TAGS {
        assert_eq!(tag.error().is_some(), (0x1200..=0x1205).contains(&code));
    }
}

#[test]
fn header_outcome_separates_errors_from_the_rest() {
    let failed = CtrlHeader::request(CtrlType::RespErrOutOfMemory);
    assert_eq!(failed.outcome(), Err(ResponseError::OutOfMemory));
    let fine = CtrlHeader::request(CtrlType::RespOkDisplayInfo);
    assert_eq!(fine.outcome(), Ok(CtrlType::RespOkDisplayInfo));
    let command = CtrlHeader::request(CtrlType::CmdGetEdid);
    assert_eq!(command.outcome(), Ok(CtrlType::CmdGetEdid));
}

#[test]
fn format_codes_are_the_protocol_numbers() {
    let all = [
        (Formats::B8G8R8A8Unorm, 1u32),
        (Formats::B8G8R8X8Unorm, 2),
        (Formats::A8R8G8B8Unorm, 3),
        (Formats::X8R8G8B8Unorm, 4),
        (Formats::R8G8B8A8Unorm, 67),
        (Formats::X8B8G8R8Unorm, 68),
        (Formats::A8B8G8R8Unorm, 121),
        (Formats::R8G8B8X8Unorm, 134),
    ];
    for (format, code) in all {
        assert_eq!(format.code(), code);
        assert_eq!(Formats::from_code(code), Some(format));
    }
    for code in [0u32, 5, 66, 69, 120, 122, 133, 135, u32::MAX] {
        assert_eq!(Formats::from_code(code), None);
    }
}

#[test]
fn feature_and_event_bits() {
    assert_eq!(F_VIRGL, 0);
    assert_eq!(F_EDID, 1);
    assert_eq!(EVENT_DISPLAY, 1);
    assert_eq!(FLAG_FENCE, 1);
    assert_eq!(MAX_SCANOUTS, 16);
    assert_eq!(EDID_SIZE, 1024);
}

#[test]
fn display_info_request_header_layout() {
    let header = CtrlHeader::request(CtrlType::CmdGetDisplayInfo);
    assert_eq!(header.ctrl_type.code(), 0x0100);
    assert_eq!(header.flags, 0);
    assert_eq!(header.fence_id, 0);
    let bytes = header.encode();
    assert_eq!(bytes.len(), 24);
    assert_eq!(CtrlHeader::SIZE, 24);
    assert_eq!(&bytes[0..4], &[0x00, 0x01, 0x00, 0x00]);
    assert_eq!(&bytes[4..8], &[0, 0, 0, 0]);
    assert_eq!(&bytes[8..16], &[0, 0, 0, 0, 0, 0, 0, 0]);
    assert_eq!(&bytes[16..20], &[0, 0, 0, 0]);
    assert_eq!(&bytes[20..24], &[0, 0, 0, 0]);
    assert_eq!(CtrlHeader::decode(&bytes), Ok(header));
}

#[test]
fn header_fields_stand_at_their_offsets() {
    let header = sample_header(CtrlType::RespErrInvalidResourceId);
    let bytes = header.encode();
    assert_eq!(
        bytes,
        vec![
            0x03, 0x12, 0x00, 0x00, 0x01, 0x00, 0x00, 0x00, 0x88, 0x77, 0x66, 0x55, 0x44, 0x33,
            0x22, 0x11, 0xf0, 0xde, 0xbc, 0x9a, 0x00, 0x00, 0x00, 0x00,
        ]
    );
    assert_eq!(&bytes[0..4], &0x1203u32.to_le_bytes());
    assert_eq!(&bytes[8..16], &0x1122_3344_5566_7788u64.to_le_bytes());
}

#[test]
fn constructors_zero_the_padding() {
    assert_eq!(sample_header(CtrlType::CmdGetEdid).padding, 0);
    assert_eq!(GetEdid::new(sample_header(CtrlType::CmdGetEdid), 3).padding, 0);
    assert_eq!(MemEntry::new(1, 2).padding, 0);
    assert_eq!(CursorPos::new(1, 2, 3).padding, 0);
    assert_eq!(Config::new(1, 2, 3).reserved, 0);
    let entry = MemEntry::new(0x8000_0000_0000_1000, 0x2000).encode();
    assert_eq!(&entry[12..16], &[0, 0, 0, 0]);
}

#[test]
fn header_round_trips_for_every_tag() {
    for (tag, _) in ALL_TAGS {
        let header = sample_header(tag);
        assert_eq!(CtrlHeader::decode(&header.encode()), Ok(header));
    }
}

#[test]
fn padding_survives_a_round_trip_as_it_is() {
    let mut header = sample_header(CtrlType::CmdSetScanout);
    header.padding = 0xdead_beef;
    let bytes = header.encode();
    assert_eq!(&bytes[20..24], &[0xef, 0xbe, 0xad, 0xde]);
    assert_eq!(CtrlHeader::decode(&bytes), Ok(header));
}

#[test]
fn header_with_unknown_tag_is_refused() {
    let mut bytes = sample_header(CtrlType::CmdGetEdid).encode();
    bytes[0] = 0x0b;
    assert_eq!(CtrlHeader::decode(&bytes), Err(DecodeError::UnknownCtrlType(0x010b)));
    bytes[3] = 0xff;
    assert_eq!(CtrlHeader::decode(&bytes), Err(DecodeError::UnknownCtrlType(0xff00_010b)));
}

#[test]
fn short_input_is_truncated() {
    let bytes = sample_header(CtrlType::CmdGetEdid).encode();
    assert_eq!(CtrlHeader::decode(&bytes[..23]), Err(DecodeError::Truncated));
    assert_eq!(CtrlHeader::decode(&[]), Err(DecodeError::Truncated));
    assert_eq!(Rect::decode(&[0u8; 15]), Err(DecodeError::Truncated));
    assert_eq!(RespEdid::decode(&[0u8; 1055]), Err(DecodeError::Truncated));
    assert_eq!(RespDisplayInfo::decode(&[0u8; 407]), Err(DecodeError::Truncated));
    // Too short wins over an unknown tag.
    assert_eq!(GetEdid::decode(&[0xffu8; 31]), Err(DecodeError::Truncated));
}

#[test]
fn bytes_after_a_message_are_ignored() {
    let header = sample_header(CtrlType::RespOkNoData);
    let mut bytes = header.encode();
    bytes.extend_from_slice(&[0xaa; 7]);
    assert_eq!(CtrlHeader::decode(&bytes), Ok(header));
}

#[test]
fn fence_ties_a_response_to_its_request() {
    let request = CtrlHeader::fenced_request(CtrlType::CmdResourceFlush, 42);
    assert_eq!(request.flags, FLAG_FENCE);
    assert!(request.fenced());
    let response = CtrlHeader::new(CtrlType::RespOkNoData, FLAG_FENCE, 42, 0);
    assert!(response.answers(&request));
    let other = CtrlHeader::new(CtrlType::RespOkNoData, FLAG_FENCE, 43, 0);
    assert!(!other.answers(&request));
    let unfenced = CtrlHeader::new(CtrlType::RespOkNoData, 0, 42, 0);
    assert!(!unfenced.answers(&request));
    let plain = CtrlHeader::request(CtrlType::CmdResourceFlush);
    assert!(!plain.fenced());
    assert!(!CtrlHeader::request(CtrlType::RespOkNoData).answers(&plain));
    assert!(CtrlHeader::new(CtrlType::RespOkNoData, 3, 0, 0).fenced());
    assert!(!CtrlHeader::new(CtrlType::RespOkNoData, 2, 0, 0).fenced());
}

#[test]
fn config_round_trip_and_layout() {
    let config = Config::new(EVENT_DISPLAY, 0, 16);
    let bytes = config.encode();
    assert_eq!(bytes, vec![1, 0, 0, 0, 0, 0, 0, 0, 16, 0, 0, 0, 0, 0, 0, 0]);
    assert_eq!(Config::SIZE, 16);
    assert_eq!(Config::decode(&bytes), Ok(config));
}

#[test]
fn rect_round_trip_and_layout() {
    let rect = sample_rect();
    let bytes = rect.encode();
    assert_eq!(
        bytes,
        vec![4, 3, 2, 1, 8, 7, 6, 5, 0x80, 0x02, 0, 0, 0xe0, 0x01, 0, 0]
    );
    assert_eq!(Rect::decode(&bytes), Ok(rect));
    assert_eq!(Rect::decode_at(&bytes, 0), rect);
}

#[test]
fn display_one_round_trip() {
    let mode = DisplayOne::new(sample_rect(), 1, 0x55);
    let bytes = mode.encode();
    assert_eq!(bytes.len(), 24);
    assert_eq!(&bytes[16..20], &[1, 0, 0, 0]);
    assert_eq!(&bytes[20..24], &[0x55, 0, 0, 0]);
    assert_eq!(DisplayOne::decode(&bytes), Ok(mode));
}

#[test]
fn display_info_round_trip() {
    let mut modes = [DisplayOne::new(Rect::new(0, 0, 0, 0), 0, 0); MAX_SCANOUTS];
    for (k, mode) in modes.iter_mut().enumerate() {
        *mode = DisplayOne::new(
            Rect::new(k as u32, 2 * k as u32, 100 + k as u32, 200 + k as u32),
            (k % 2) as u32,
            k as u32 * 7,
        );
    }
    let response = RespDisplayInfo::new(sample_header(CtrlType::RespOkDisplayInfo), modes);
    let bytes = response.encode();
    assert_eq!(bytes.len(), 408);
    assert_eq!(RespDisplayInfo::SIZE, 408);
    // Mode 5 stands at offset 24 + 5 * 24.
    assert_eq!(&bytes[144..168], &modes[5].encode()[..]);
    assert_eq!(&bytes[24 + 15 * 24..], &modes[15].encode()[..]);
    assert_eq!(RespDisplayInfo::decode(&bytes), Ok(response));
}

#[test]
fn display_info_with_error_tag_still_decodes_and_reports_the_error() {
    let modes = [DisplayOne::new(Rect::new(0, 0, 0, 0), 0, 0); MAX_SCANOUTS];
    let response = RespDisplayInfo::new(CtrlHeader::request(CtrlType::RespErrUnspec), modes);
    let decoded = RespDisplayInfo::decode(&response.encode()).unwrap();
    assert_eq!(decoded.hdr.outcome(), Err(ResponseError::Unspecified));
}

#[test]
fn get_edid_round_trip() {
    let request = GetEdid::new(sample_header(CtrlType::CmdGetEdid), 7);
    let bytes = request.encode();
    assert_eq!(bytes.len(), 32);
    assert_eq!(&bytes[24..28], &[7, 0, 0, 0]);
    assert_eq!(GetEdid::decode(&bytes), Ok(request));
}

#[test]
fn edid_response_round_trip_and_valid_prefix() {
    let mut blob = [0u8; EDID_SIZE];
    for (i, byte) in blob.iter_mut().enumerate() {
        *byte = (i % 251) as u8;
    }
    let response = RespEdid::new(sample_header(CtrlType::RespOkEdid), 128, blob);
    let bytes = response.encode();
    assert_eq!(bytes.len(), 1056);
    assert_eq!(RespEdid::SIZE, 1056);
    assert_eq!(&bytes[24..28], &[128, 0, 0, 0]);
    assert_eq!(&bytes[28..32], &[0, 0, 0, 0]);
    assert_eq!(&bytes[32..], &blob[..]);
    assert_eq!(RespEdid::decode(&bytes), Ok(response));
    assert_eq!(response.valid_edid(), blob[..128].to_vec());
    let empty = RespEdid::new(sample_header(CtrlType::RespOkEdid), 0, blob);
    assert_eq!(empty.valid_edid(), Vec::<u8>::new());
    let full = RespEdid::new(sample_header(CtrlType::RespOkEdid), 1024, blob);
    assert_eq!(full.valid_edid(), blob.to_vec());
    let beyond = RespEdid::new(sample_header(CtrlType::RespOkEdid), 5000, blob);
    assert_eq!(beyond.valid_edid(), blob.to_vec());
}

#[test]
fn resource_create_round_trip_and_layout() {
    let create = ResourceCreate2d::new(
        sample_header(CtrlType::CmdResourceCreate2d),
        9,
        Formats::R8G8B8A8Unorm,
        1024,
        768,
    );
    let bytes = create.encode();
    assert_eq!(bytes.len(), 40);
    assert_eq!(&bytes[24..28], &[9, 0, 0, 0]);
    assert_eq!(&bytes[28..32], &[67, 0, 0, 0]);
    assert_eq!(&bytes[32..36], &[0, 4, 0, 0]);
    assert_eq!(&bytes[36..40], &[0, 3, 0, 0]);
    assert_eq!(ResourceCreate2d::decode(&bytes), Ok(create));
}

#[test]
fn resource_create_with_unknown_format_is_refused() {
    let create = ResourceCreate2d::new(
        sample_header(CtrlType::CmdResourceCreate2d),
        9,
        Formats::B8G8R8A8Unorm,
        1,
        1,
    );
    let mut bytes = create.encode();
    bytes[28] = 5;
    assert_eq!(ResourceCreate2d::decode(&bytes), Err(DecodeError::UnknownFormat(5)));
    // An unknown tag is found before an unknown format.
    bytes[1] = 0x77;
    assert_eq!(ResourceCreate2d::decode(&bytes), Err(DecodeError::UnknownCtrlType(0x7701)));
}

#[test]
fn resource_unref_round_trip() {
    let unref = ResourceUnref::new(sample_header(CtrlType::CmdResourceUref), 0xffff_ffff);
    let bytes = unref.encode();
    assert_eq!(bytes.len(), 32);
    assert_eq!(&bytes[24..32], &[0xff, 0xff, 0xff, 0xff, 0, 0, 0, 0]);
    assert_eq!(ResourceUnref::decode(&bytes), Ok(unref));
}

#[test]
fn set_scanout_round_trip() {
    let set = SetScanout::new(sample_header(CtrlType::CmdSetScanout), sample_rect(), 15, 3);
    let bytes = set.encode();
    assert_eq!(bytes.len(), 48);
    assert_eq!(&bytes[24..40], &sample_rect().encode()[..]);
    assert_eq!(&bytes[40..44], &[15, 0, 0, 0]);
    assert_eq!(&bytes[44..48], &[3, 0, 0, 0]);
    assert_eq!(SetScanout::decode(&bytes), Ok(set));
}

#[test]
fn resource_flush_round_trip() {
    let flush = ResourceFlush::new(sample_header(CtrlType::CmdResourceFlush), sample_rect(), 77);
    let bytes = flush.encode();
    assert_eq!(bytes.len(), 48);
    assert_eq!(&bytes[40..48], &[77, 0, 0, 0, 0, 0, 0, 0]);
    assert_eq!(ResourceFlush::decode(&bytes), Ok(flush));
}

#[test]
fn transfer_round_trip() {
    let transfer = TransferToHost2d::new(
        sample_header(CtrlType::CmdTransferToHost2d),
        sample_rect(),
        0x0102_0304_0506_0708,
        5,
    );
    let bytes = transfer.encode();
    assert_eq!(bytes.len(), 56);
    assert_eq!(&bytes[40..48], &[8, 7, 6, 5, 4, 3, 2, 1]);
    assert_eq!(&bytes[48..52], &[5, 0, 0, 0]);
    assert_eq!(&bytes[52..56], &[0, 0, 0, 0]);
    assert_eq!(TransferToHost2d::decode(&bytes), Ok(transfer));
}

#[test]
fn attach_backing_with_entries_round_trip() {
    let attach = AttachBacking::new(sample_header(CtrlType::CmdResourceAttachBacking), 4, 2);
    let first = MemEntry::new(0x8020_0000, 0x1000);
    let second = MemEntry::new(0x1_0000_0000, 0x2000);
    let mut bytes = Vec::new();
    attach.encode_into(&mut bytes);
    first.encode_into(&mut bytes);
    second.encode_into(&mut bytes);
    assert_eq!(bytes.len(), 32 + 16 + 16);
    assert_eq!(AttachBacking::decode(&bytes), Ok(attach));
    assert_eq!(MemEntry::decode_at(&bytes, 32), first);
    assert_eq!(MemEntry::decode_at(&bytes, 48), second);
    assert_eq!(MemEntry::decode(&bytes[48..]), Ok(second));
    assert_eq!(&bytes[48..56], &[0, 0, 0, 0, 1, 0, 0, 0]);
}

#[test]
fn detach_backing_round_trip() {
    let detach = DetachBacking::new(sample_header(CtrlType::CmdResourceDetachBacking), 12);
    let bytes = detach.encode();
    assert_eq!(bytes.len(), 32);
    assert_eq!(DetachBacking::decode(&bytes), Ok(detach));
}

#[test]
fn cursor_round_trip() {
    let pos = CursorPos::new(1, 300, 400);
    assert_eq!(CursorPos::decode(&pos.encode()), Ok(pos));
    let update = UpdateCursor::new(sample_header(CtrlType::CmdUpdateCursor), pos, 8, 16, 24);
    let bytes = update.encode();
    assert_eq!(bytes.len(), 56);
    assert_eq!(&bytes[24..40], &pos.encode()[..]);
    assert_eq!(&bytes[40..44], &[8, 0, 0, 0]);
    assert_eq!(&bytes[44..48], &[16, 0, 0, 0]);
    assert_eq!(&bytes[48..52], &[24, 0, 0, 0]);
    assert_eq!(&bytes[52..56], &[0, 0, 0, 0]);
    assert_eq!(UpdateCursor::decode(&bytes), Ok(update));
    let moved = UpdateCursor::new(sample_header(CtrlType::CmdMoveCursor), pos, 0, 0, 0);
    assert_eq!(UpdateCursor::decode(&moved.encode()), Ok(moved));
}

#[test]
fn message_sizes() {
    assert_eq!(Config::SIZE, 16);
    assert_eq!(CtrlHeader::SIZE, 24);
    assert_eq!(Rect::SIZE, 16);
    assert_eq!(DisplayOne::SIZE, 24);
    assert_eq!(GetEdid::SIZE, 32);
    assert_eq!(ResourceCreate2d::SIZE, 40);
    assert_eq!(ResourceUnref::SIZE, 32);
    assert_eq!(SetScanout::SIZE, 48);
    assert_eq!(ResourceFlush::SIZE, 48);
    assert_eq!(TransferToHost2d::SIZE, 56);
    assert_eq!(AttachBacking::SIZE, 32);
    assert_eq!(MemEntry::SIZE, 16);
    assert_eq!(DetachBacking::SIZE, 32);
    assert_eq!(CursorPos::SIZE, 16);
    assert_eq!(UpdateCursor::SIZE, 56);
}

#[test]
fn extreme_values_round_trip() {
    let header = CtrlHeader::new(CtrlType::CmdGetCapset, u32::MAX, u64::MAX, u32::MAX);
    let bytes = header.encode();
    assert_eq!(&bytes[4..20], &[0xff; 16]);
    assert_eq!(CtrlHeader::decode(&bytes), Ok(header));
    let rect = Rect::new(u32::MAX, 0, u32::MAX, 0);
    assert_eq!(Rect::decode(&rect.encode()), Ok(rect));
    let entry = MemEntry::new(u64::MAX, u32::MAX);
    assert_eq!(MemEntry::decode(&entry.encode()), Ok(entry));
}

#[test]
fn commands_name_the_response_they_expect() {
    assert_eq!(
        CtrlType::CmdGetDisplayInfo.expected_response(),
        Some(CtrlType::RespOkDisplayInfo)
    );
    assert_eq!(CtrlType::CmdGetEdid.expected_response(), Some(CtrlType::RespOkEdid));
    assert_eq!(CtrlType::CmdGetCapsetInfo.expected_response(), Some(CtrlType::RespOkCapsetInfo));
    assert_eq!(CtrlType::CmdGetCapset.expected_response(), Some(CtrlType::RespOkCapset));
    assert_eq!(CtrlType::CmdResourceFlush.expected_response(), Some(CtrlType::RespOkNoData));
    assert_eq!(CtrlType::CmdMoveCursor.expected_response(), Some(CtrlType::RespOkNoData));
    for (tag, code) in ALL_TAGS {
        assert_eq!(tag.expected_response().is_some(), code < 0x1000);
    }
}
