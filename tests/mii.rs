use libdoodle::mii_data::{
    encode_studio_data, MiiBirthday, MiiData, MiiDeserializeError, MiiFavoriteColor, MiiGender,
    MiiNameCharacterSet, MiiPosition, MiiRegionLock, MiiSourceDevice,
};

const RECORD: [u8; 92] = [
    0x03, 0x15, 0x21, 0x30, 0x01, 0x02, 0x03, 0x04, 0x05, 0x06, 0x07, 0x08, 0x80, 0x00, 0x01, 0x00,
    0xa0, 0xa1, 0xa2, 0xa3, 0xa4, 0xa5, 0x00, 0x00, 0x2b, 0x52, 0x41, 0x00, 0x62, 0x00, 0x00, 0x00,
    0x00, 0x00, 0x00, 0x00, 0x00, 0x00, 0x00, 0x00, 0x00, 0x00, 0x00, 0x00, 0x00, 0x00, 0x40, 0x41,
    0x47, 0x12, 0x21, 0x08, 0xc5, 0x68, 0x47, 0x18, 0x06, 0x34, 0x06, 0x15, 0x81, 0x12, 0x97, 0x68,
    0x0d, 0x00, 0x00, 0x29, 0x00, 0x52, 0x48, 0x50, 0x5a, 0x00, 0xe9, 0x00, 0x00, 0x00, 0x00, 0x00,
    0x00, 0x00, 0x00, 0x00, 0x00, 0x00, 0x00, 0x00, 0x00, 0x00, 0x00, 0x00,
];

fn with_flags(flags: u16) -> [u8; 92] {
    let mut r = RECORD;
    r[24] = (flags & 0xff) as u8;
    r[25] = (flags >> 8) as u8;
    r
}

#[test]
fn decodes_header_fields() {
    let m = MiiData::from_bytes(RECORD).unwrap();
    assert!(m.copying_allowed);
    assert!(!m.name_has_profanity);
    assert_eq!(m.region_lock, MiiRegionLock::Jp);
    assert_eq!(m.name_character_set, MiiNameCharacterSet::Chn);
    assert_eq!(m.position, MiiPosition { page: 1, slot: 2 });
    assert_eq!(m.source_device, MiiSourceDevice::ThreeDS);
    assert_eq!(m.system_id, [1, 2, 3, 4, 5, 6, 7, 8]);
    assert_eq!(m.mii_id, 0x8000_0100);
    assert_eq!(m.mii_creation_date, 1_262_304_000 + 256);
    assert!(!m.is_special_mii);
    assert_eq!(m.creator_mac_address, [0xa0, 0xa1, 0xa2, 0xa3, 0xa4, 0xa5]);
    assert_eq!(m.mii_gender, MiiGender::Female);
    assert_eq!(m.mii_birthday, Some(MiiBirthday { month: 5, day: 17 }));
    assert_eq!(m.favorite_color, MiiFavoriteColor::Green);
    assert!(m.is_favorite);
    assert!(m.sharing_disabled);
    assert_eq!(m.mii_name, "Ab");
    assert_eq!(m.creator_name, "Z\u{e9}");
}

#[test]
fn decodes_features() {
    let f = MiiData::from_bytes(RECORD).unwrap().mii_features;
    assert_eq!((f.width, f.height), (0x41, 0x40));
    assert_eq!((f.face_shape, f.skin_color, f.wrinkles, f.makeup), (3, 2, 2, 1));
    assert_eq!((f.hair_style, f.hair_color, f.flip_hair), (0x21, 0, true));
    assert_eq!(
        (f.eye_style, f.eye_color, f.eye_scale, f.eye_scale_y, f.eye_rotation, f.eye_spacing_x, f.eye_position_y),
        (5, 3, 4, 3, 7, 2, 12)
    );
    assert_eq!(
        (
            f.eyebrow_style,
            f.eyebrow_color,
            f.eyebrow_scale,
            f.eyebrow_scale_y,
            f.eyebrow_rotation,
            f.eyebrow_spacing_x,
            f.eyebrow_position_y
        ),
        (6, 0, 4, 3, 6, 8, 10)
    );
    assert_eq!((f.nose_style, f.nose_scale, f.nose_position_y), (1, 4, 9));
    assert_eq!((f.mouth_style, f.mouth_color, f.mouth_scale, f.mouth_scale_y), (23, 2, 4, 3));
    assert_eq!((f.mouth_position_y, f.mustache_style), (13, 0));
    assert_eq!((f.beard_style, f.beard_color, f.mustache_scale, f.mustache_position_y), (0, 0, 4, 10));
    assert_eq!((f.glasses_style, f.glasses_color, f.glasses_scale, f.glasses_position_y), (0, 0, 4, 10));
    assert_eq!((f.mole_enabled, f.mole_scale, f.mole_position_x, f.mole_position_y), (false, 4, 2, 20));
}

#[test]
fn unknown_version_carries_the_byte() {
    for v in [0u8, 1, 2, 4, 0xff] {
        let mut r = RECORD;
        r[0] = v;
        assert_eq!(MiiData::from_bytes(r).err(), Some(MiiDeserializeError::UnknownVersion(v)));
    }
}

#[test]
fn unknown_source_device() {
    let mut r = RECORD;
    r[3] = 0x50;
    assert_eq!(MiiData::from_bytes(r).err(), Some(MiiDeserializeError::UnknownSourceDevice(5)));
    r[3] = 0x00;
    assert_eq!(MiiData::from_bytes(r).err(), Some(MiiDeserializeError::UnknownSourceDevice(0)));
}

#[test]
fn birthday_month_zero_gives_no_birthday() {
    let m = MiiData::from_bytes(with_flags(1 | 17 << 5 | 4 << 10)).unwrap();
    assert_eq!(m.mii_birthday, None);
}

#[test]
fn birthday_month_out_of_range_fails() {
    let r = with_flags(13 << 1 | 4 << 10);
    assert_eq!(MiiData::from_bytes(r).err(), Some(MiiDeserializeError::InvalidBirthdayMonth(13)));
    let r = with_flags(12 << 1 | 4 << 10);
    assert_eq!(MiiData::from_bytes(r).unwrap().mii_birthday.unwrap().month, 12);
}

#[test]
fn favorite_color_codes() {
    assert_eq!(MiiData::from_bytes(with_flags(0)).unwrap().favorite_color, MiiFavoriteColor::Red);
    assert_eq!(MiiData::from_bytes(with_flags(1 << 10)).unwrap().favorite_color, MiiFavoriteColor::Orange);
    assert_eq!(MiiData::from_bytes(with_flags(11 << 10)).unwrap().favorite_color, MiiFavoriteColor::Black);
    for c in 12u16..16 {
        assert_eq!(
            MiiData::from_bytes(with_flags(c << 10)).err(),
            Some(MiiDeserializeError::InvalidFavoriteColor(c as u8))
        );
    }
}

#[test]
fn errors_come_in_field_order() {
    let mut r = with_flags(13 << 1 | 12 << 10);
    assert_eq!(MiiData::from_bytes(r).err(), Some(MiiDeserializeError::InvalidBirthdayMonth(13)));
    r[3] = 0x70;
    assert_eq!(MiiData::from_bytes(r).err(), Some(MiiDeserializeError::UnknownSourceDevice(7)));
}

#[test]
fn studio_data_follows_the_service_order() {
    let m = MiiData::from_bytes(RECORD).unwrap();
    let expected: [u8; 46] = [
        8, 0, 65, 3, 11, 7, 4, 5, 2, 12, 3, 8, 6, 4, 6, 8, 10, 2, 1, 3, 2, 4, 1, 8, 4, 0, 10, 8, 1,
        33, 64, 4, 0, 2, 20, 3, 21, 4, 23, 13, 4, 0, 10, 4, 1, 9,
    ];
    assert_eq!(m.studio_data(), expected);
}

#[test]
fn studio_cipher_matches_reference() {
    let m = MiiData::from_bytes(RECORD).unwrap();
    let hex = encode_studio_data(&m.studio_data());
    assert_eq!(
        String::from_utf8(hex).unwrap(),
        "000f165e647678838d96a1a9a8b5b8c5d4e5eef6fc0508101f22292a292f155c5f666b868ca0abc3d5d8dfdcdfe5f3"
    );
}

#[test]
fn studio_cipher_wraps() {
    let data: Vec<u8> = (0u8..46).collect();
    assert_eq!(
        String::from_utf8(encode_studio_data(&data)).unwrap(),
        "00070d161c1f212e303f3d3e3c37415660776d869c8fa1beb0afbdaebca7c1e600270d361c3f210e301f3d1e3c1741"
    );
    assert_eq!(String::from_utf8(encode_studio_data(&[0xff])).unwrap(), "0006");
    assert_eq!(String::from_utf8(encode_studio_data(&[])).unwrap(), "00");
}

#[test]
fn studio_url() {
    let m = MiiData::from_bytes(RECORD).unwrap();
    assert_eq!(
        m.get_mii_studio_url(),
        "https://studio.mii.nintendo.com/miis/image.png?data=000f165e647678838d96a1a9a8b5b8c5d4e5eef6fc0508101f22292a292f155c5f666b868ca0abc3d5d8dfdcdfe5f3&width=512&type=face"
    );
}

#[test]
fn studio_color_remapping() {
    let mut m = MiiData::from_bytes(RECORD).unwrap();
    m.mii_features.glasses_color = 3;
    m.mii_features.mouth_color = 5;
    let d = m.studio_data();
    assert_eq!(d[23], 16);
    assert_eq!(d[36], 0);
    m.mii_features.glasses_color = 6;
    m.mii_features.mouth_color = 0;
    m.mii_features.hair_color = 2;
    let d = m.studio_data();
    assert_eq!(d[23], 0);
    assert_eq!(d[36], 19);
    assert_eq!(d[27], 2);
}
