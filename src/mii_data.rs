//! The packed Mii identity record, and the face-preview URL derived from it.

use crate::bits::PickBit;
use crate::reader::{be_u32, le_u16, le_u32, u16_from_le, u32_from_le};
use crate::text::{name_from_bytes, name_units, string_from_utf8, utf16_lossy};
use vstd::prelude::*;
use vstd::string::StringExecFns;
use vstd::utf8::{
    decode_utf8, encode_utf8, encode_utf8_decode_utf8, encode_utf8_valid_utf8, is_ascii_chars,
    is_ascii_chars_encode_utf8, valid_utf8,
};

verus! {

/// Length of a packed Mii record.
pub const MII_DATA_LEN: usize = 0x5C;

/// Seconds from the Unix epoch to 2010-01-01T00:00:00Z, from which creation times count.
pub const MII_EPOCH: u64 = 1262304000;

/// Number of bytes in the face-preview data.
pub const STUDIO_DATA_LEN: usize = 46;

/// What the face-preview URL starts with; the encoded data follows.
pub const STUDIO_URL_PREFIX: &'static str = "https://studio.mii.nintendo.com/miis/image.png?data=";

/// What the face-preview URL ends with.
pub const STUDIO_URL_SUFFIX: &'static str = "&width=512&type=face";

/// The region a Mii is locked to.
#[derive(Clone, Copy, Debug, PartialEq, Eq, Structural)]
pub enum MiiRegionLock {
    NoLock,
    Jp,
    Us,
    Eu,
}

impl MiiRegionLock {
    /// The code that stands for this value in a Mii record.
    pub open spec fn spec_code(self) -> u8 {
        match self {
            MiiRegionLock::NoLock => 0,
            MiiRegionLock::Jp => 1,
            MiiRegionLock::Us => 2,
            MiiRegionLock::Eu => 3,
        }
    }

    /// The value that `c` stands for, if any.
    pub open spec fn spec_from_code(c: u8) -> Option<MiiRegionLock> {
        if c == 0 {
            Some(MiiRegionLock::NoLock)
        } else         if c == 1 {
            Some(MiiRegionLock::Jp)
        } else         if c == 2 {
            Some(MiiRegionLock::Us)
        } else         if c == 3 {
            Some(MiiRegionLock::Eu)
        } else {
            None
        }
    }

    /// The code that stands for this value in a Mii record.
    pub fn code(&self) -> (r: u8)
        ensures
            r == self.spec_code(),
    {
        match self {
            MiiRegionLock::NoLock => 0,
            MiiRegionLock::Jp => 1,
            MiiRegionLock::Us => 2,
            MiiRegionLock::Eu => 3,
        }
    }

    /// The value that `c` stands for, if any.
    pub fn from_code(c: u8) -> (r: Option<MiiRegionLock>)
        ensures
            r == MiiRegionLock::spec_from_code(c),
    {
        match c {
            0 => Some(MiiRegionLock::NoLock),
            1 => Some(MiiRegionLock::Jp),
            2 => Some(MiiRegionLock::Us),
            3 => Some(MiiRegionLock::Eu),
            _ => None,
        }
    }
}

/// The character set of a Mii's names.
#[derive(Clone, Copy, Debug, PartialEq, Eq, Structural)]
pub enum MiiNameCharacterSet {
    JpUsEu,
    Chn,
    Kor,
    Twn,
}

impl MiiNameCharacterSet {
    /// The code that stands for this value in a Mii record.
    pub open spec fn spec_code(self) -> u8 {
        match self {
            MiiNameCharacterSet::JpUsEu => 0,
            MiiNameCharacterSet::Chn => 1,
            MiiNameCharacterSet::Kor => 2,
            MiiNameCharacterSet::Twn => 3,
        }
    }

    /// The value that `c` stands for, if any.
    pub open spec fn spec_from_code(c: u8) -> Option<MiiNameCharacterSet> {
        if c == 0 {
            Some(MiiNameCharacterSet::JpUsEu)
        } else         if c == 1 {
            Some(MiiNameCharacterSet::Chn)
        } else         if c == 2 {
            Some(MiiNameCharacterSet::Kor)
        } else         if c == 3 {
            Some(MiiNameCharacterSet::Twn)
        } else {
            None
        }
    }

    /// The code that stands for this value in a Mii record.
    pub fn code(&self) -> (r: u8)
        ensures
            r == self.spec_code(),
    {
        match self {
            MiiNameCharacterSet::JpUsEu => 0,
            MiiNameCharacterSet::Chn => 1,
            MiiNameCharacterSet::Kor => 2,
            MiiNameCharacterSet::Twn => 3,
        }
    }

    /// The value that `c` stands for, if any.
    pub fn from_code(c: u8) -> (r: Option<MiiNameCharacterSet>)
        ensures
            r == MiiNameCharacterSet::spec_from_code(c),
    {
        match c {
            0 => Some(MiiNameCharacterSet::JpUsEu),
            1 => Some(MiiNameCharacterSet::Chn),
            2 => Some(MiiNameCharacterSet::Kor),
            3 => Some(MiiNameCharacterSet::Twn),
            _ => None,
        }
    }
}

/// The kind of console a Mii was made on.
#[derive(Clone, Copy, Debug, PartialEq, Eq, Structural)]
pub enum MiiSourceDevice {
    Wii,
    DS,
    ThreeDS,
    WiiUSwitch,
}

impl MiiSourceDevice {
    /// The code that stands for this value in a Mii record.
    pub open spec fn spec_code(self) -> u8 {
        match self {
            MiiSourceDevice::Wii => 1,
            MiiSourceDevice::DS => 2,
            MiiSourceDevice::ThreeDS => 3,
            MiiSourceDevice::WiiUSwitch => 4,
        }
    }

    /// The value that `c` stands for, if any.
    pub open spec fn spec_from_code(c: u8) -> Option<MiiSourceDevice> {
        if c == 1 {
            Some(MiiSourceDevice::Wii)
        } else         if c == 2 {
            Some(MiiSourceDevice::DS)
        } else         if c == 3 {
            Some(MiiSourceDevice::ThreeDS)
        } else         if c == 4 {
            Some(MiiSourceDevice::WiiUSwitch)
        } else {
            None
        }
    }

    /// The code that stands for this value in a Mii record.
    pub fn code(&self) -> (r: u8)
        ensures
            r == self.spec_code(),
    {
        match self {
            MiiSourceDevice::Wii => 1,
            MiiSourceDevice::DS => 2,
            MiiSourceDevice::ThreeDS => 3,
            MiiSourceDevice::WiiUSwitch => 4,
        }
    }

    /// The value that `c` stands for, if any.
    pub fn from_code(c: u8) -> (r: Option<MiiSourceDevice>)
        ensures
            r == MiiSourceDevice::spec_from_code(c),
    {
        match c {
            1 => Some(MiiSourceDevice::Wii),
            2 => Some(MiiSourceDevice::DS),
            3 => Some(MiiSourceDevice::ThreeDS),
            4 => Some(MiiSourceDevice::WiiUSwitch),
            _ => None,
        }
    }
}

/// A Mii's gender.
#[derive(Clone, Copy, Debug, PartialEq, Eq, Structural)]
pub enum MiiGender {
    Male,
    Female,
}

impl MiiGender {
    /// The code that stands for this value in a Mii record.
    pub open spec fn spec_code(self) -> u8 {
        match self {
            MiiGender::Male => 0,
            MiiGender::Female => 1,
        }
    }

    /// The value that `c` stands for, if any.
    pub open spec fn spec_from_code(c: u8) -> Option<MiiGender> {
        if c == 0 {
            Some(MiiGender::Male)
        } else         if c == 1 {
            Some(MiiGender::Female)
        } else {
            None
        }
    }

    /// The code that stands for this value in a Mii record.
    pub fn code(&self) -> (r: u8)
        ensures
            r == self.spec_code(),
    {
        match self {
            MiiGender::Male => 0,
            MiiGender::Female => 1,
        }
    }

    /// The value that `c` stands for, if any.
    pub fn from_code(c: u8) -> (r: Option<MiiGender>)
        ensures
            r == MiiGender::spec_from_code(c),
    {
        match c {
            0 => Some(MiiGender::Male),
            1 => Some(MiiGender::Female),
            _ => None,
        }
    }
}

/// A Mii's favorite color.
#[derive(Clone, Copy, Debug, PartialEq, Eq, Structural)]
pub enum MiiFavoriteColor {
    Red,
    Orange,
    Yellow,
    Lime,
    Green,
    DarkBlue,
    Blue,
    Pink,
    Purple,
    Brown,
    White,
    Black,
}

impl MiiFavoriteColor {
    /// The code that stands for this value in a Mii record.
    pub open spec fn spec_code(self) -> u8 {
        match self {
            MiiFavoriteColor::Red => 0,
            MiiFavoriteColor::Orange => 1,
            MiiFavoriteColor::Yellow => 2,
            MiiFavoriteColor::Lime => 3,
            MiiFavoriteColor::Green => 4,
            MiiFavoriteColor::DarkBlue => 5,
            MiiFavoriteColor::Blue => 6,
            MiiFavoriteColor::Pink => 7,
            MiiFavoriteColor::Purple => 8,
            MiiFavoriteColor::Brown => 9,
            MiiFavoriteColor::White => 10,
            MiiFavoriteColor::Black => 11,
        }
    }

    /// The value that `c` stands for, if any.
    pub open spec fn spec_from_code(c: u8) -> Option<MiiFavoriteColor> {
        if c == 0 {
            Some(MiiFavoriteColor::Red)
        } else         if c == 1 {
            Some(MiiFavoriteColor::Orange)
        } else         if c == 2 {
            Some(MiiFavoriteColor::Yellow)
        } else         if c == 3 {
            Some(MiiFavoriteColor::Lime)
        } else         if c == 4 {
            Some(MiiFavoriteColor::Green)
        } else         if c == 5 {
            Some(MiiFavoriteColor::DarkBlue)
        } else         if c == 6 {
            Some(MiiFavoriteColor::Blue)
        } else         if c == 7 {
            Some(MiiFavoriteColor::Pink)
        } else         if c == 8 {
            Some(MiiFavoriteColor::Purple)
        } else         if c == 9 {
            Some(MiiFavoriteColor::Brown)
        } else         if c == 10 {
            Some(MiiFavoriteColor::White)
        } else         if c == 11 {
            Some(MiiFavoriteColor::Black)
        } else {
            None
        }
    }

    /// The code that stands for this value in a Mii record.
    pub fn code(&self) -> (r: u8)
        ensures
            r == self.spec_code(),
    {
        match self {
            MiiFavoriteColor::Red => 0,
            MiiFavoriteColor::Orange => 1,
            MiiFavoriteColor::Yellow => 2,
            MiiFavoriteColor::Lime => 3,
            MiiFavoriteColor::Green => 4,
            MiiFavoriteColor::DarkBlue => 5,
            MiiFavoriteColor::Blue => 6,
            MiiFavoriteColor::Pink => 7,
            MiiFavoriteColor::Purple => 8,
            MiiFavoriteColor::Brown => 9,
            MiiFavoriteColor::White => 10,
            MiiFavoriteColor::Black => 11,
        }
    }

    /// The value that `c` stands for, if any.
    pub fn from_code(c: u8) -> (r: Option<MiiFavoriteColor>)
        ensures
            r == MiiFavoriteColor::spec_from_code(c),
    {
        match c {
            0 => Some(MiiFavoriteColor::Red),
            1 => Some(MiiFavoriteColor::Orange),
            2 => Some(MiiFavoriteColor::Yellow),
            3 => Some(MiiFavoriteColor::Lime),
            4 => Some(MiiFavoriteColor::Green),
            5 => Some(MiiFavoriteColor::DarkBlue),
            6 => Some(MiiFavoriteColor::Blue),
            7 => Some(MiiFavoriteColor::Pink),
            8 => Some(MiiFavoriteColor::Purple),
            9 => Some(MiiFavoriteColor::Brown),
            10 => Some(MiiFavoriteColor::White),
            11 => Some(MiiFavoriteColor::Black),
            _ => None,
        }
    }
}

/// Where a Mii sits in the selection screen.
#[derive(Clone, Copy, Debug, PartialEq, Eq, Structural)]
pub struct MiiPosition {
    pub page: u8,
    pub slot: u8,
}

/// A birthday; the month runs from 1 to 12.
#[derive(Clone, Copy, Debug, PartialEq, Eq, Structural)]
pub struct MiiBirthday {
    pub month: u8,
    pub day: u8,
}

/// Mii character features (facial features, etc)
#[derive(Clone, Copy, Debug, PartialEq, Eq, Structural)]
pub struct MiiFeatures {
    pub width: u8,
    pub height: u8,
    pub face_shape: u8,
    pub skin_color: u8,
    pub wrinkles: u8,
    pub makeup: u8,
    pub hair_style: u8,
    pub hair_color: u8,
    pub flip_hair: bool,
    pub eye_style: u8,
    pub eye_color: u8,
    pub eye_scale: u8,
    pub eye_scale_y: u8,
    pub eye_rotation: u8,
    pub eye_spacing_x: u8,
    pub eye_position_y: u8,
    pub eyebrow_style: u8,
    pub eyebrow_color: u8,
    pub eyebrow_scale: u8,
    pub eyebrow_scale_y: u8,
    pub eyebrow_rotation: u8,
    pub eyebrow_spacing_x: u8,
    pub eyebrow_position_y: u8,
    pub nose_style: u8,
    pub nose_scale: u8,
    pub nose_position_y: u8,
    pub mouth_style: u8,
    pub mouth_color: u8,
    pub mouth_scale: u8,
    pub mouth_scale_y: u8,
    pub mouth_position_y: u8,
    pub mustache_style: u8,
    pub beard_style: u8,
    pub beard_color: u8,
    pub mustache_scale: u8,
    pub mustache_position_y: u8,
    pub glasses_style: u8,
    pub glasses_color: u8,
    pub glasses_scale: u8,
    pub glasses_position_y: u8,
    pub mole_enabled: bool,
    pub mole_scale: u8,
    pub mole_position_x: u8,
    pub mole_position_y: u8,
}

/// Why a Mii record could not be decoded.
#[derive(Clone, Copy, Debug, PartialEq, Eq, Structural)]
pub enum MiiDeserializeError {
    UnknownVersion(u8),
    UnknownSourceDevice(u8),
    InvalidBirthdayMonth(u8),
    InvalidFavoriteColor(u8),
}

/// A decoded Mii record.
pub struct MiiData {
    pub copying_allowed: bool,
    pub region_lock: MiiRegionLock,
    pub name_has_profanity: bool,
    pub name_character_set: MiiNameCharacterSet,
    pub position: MiiPosition,
    pub source_device: MiiSourceDevice,
    pub system_id: [u8; 8],
    pub mii_id: u32,
    /// The creation time, in seconds since the Unix epoch.
    pub mii_creation_date: u64,
    pub is_special_mii: bool,
    pub creator_mac_address: [u8; 6],
    pub mii_gender: MiiGender,
    pub mii_birthday: Option<MiiBirthday>,
    pub favorite_color: MiiFavoriteColor,
    pub is_favorite: bool,
    pub mii_name: String,
    pub sharing_disabled: bool,
    pub mii_features: MiiFeatures,
    pub creator_name: String,
}

/// The 16-bit flag field: gender, birthday, favorite color and favorite mark.
pub open spec fn mii_flags(b: Seq<u8>) -> u16 {
    le_u16(b, 24) as u16
}

/// The origin-device code.
pub open spec fn source_device_code(b: Seq<u8>) -> u8 {
    b[3].field(4, 6)
}

/// The birthday month code; 0 means no birthday.
pub open spec fn birthday_month(b: Seq<u8>) -> u8 {
    mii_flags(b).field(1, 4) as u8
}

/// The favorite-color code.
pub open spec fn favorite_color_code(b: Seq<u8>) -> u8 {
    mii_flags(b).field(10, 13) as u8
}

/// The birthday, present when its month is not 0.
pub open spec fn birthday_spec(b: Seq<u8>) -> Option<MiiBirthday> {
    if birthday_month(b) == 0 {
        None
    } else {
        Some(MiiBirthday { month: birthday_month(b), day: mii_flags(b).field(5, 9) as u8 })
    }
}

/// The first field of the record, in field order, that makes it undecodable.
pub open spec fn mii_error(b: Seq<u8>) -> Option<MiiDeserializeError> {
    if b[0] != 3 {
        Some(MiiDeserializeError::UnknownVersion(b[0]))
    } else if MiiSourceDevice::spec_from_code(source_device_code(b)) is None {
        Some(MiiDeserializeError::UnknownSourceDevice(source_device_code(b)))
    } else if birthday_month(b) > 12 {
        Some(MiiDeserializeError::InvalidBirthdayMonth(birthday_month(b)))
    } else if MiiFavoriteColor::spec_from_code(favorite_color_code(b)) is None {
        Some(MiiDeserializeError::InvalidFavoriteColor(favorite_color_code(b)))
    } else {
        None
    }
}

/// The appearance fields of record `b`, each a bit range of a little-endian group.
pub open spec fn features_spec(b: Seq<u8>) -> MiiFeatures {
    let eyes = le_u32(b, 52) as u32;
    let eyebrows = le_u32(b, 56) as u32;
    let nose = le_u16(b, 60) as u16;
    let mouth = le_u16(b, 62) as u16;
    let mouth_y_mustache = le_u16(b, 64) as u16;
    let beard_mustache = le_u16(b, 66) as u16;
    let glasses = le_u16(b, 68) as u16;
    let mole = le_u16(b, 70) as u16;
    MiiFeatures {
        width: b[47],
        height: b[46],
        face_shape: b[48].field(1, 4),
        skin_color: b[48].field(5, 7),
        wrinkles: b[49].field(0, 3),
        makeup: b[49].field(4, 7),
        hair_style: b[50],
        hair_color: b[51].field(0, 2),
        flip_hair: b[51].bit_set(3),
        eye_style: eyes.field(0, 5) as u8,
        eye_color: eyes.field(6, 8) as u8,
        eye_scale: eyes.field(9, 12) as u8,
        eye_scale_y: eyes.field(13, 15) as u8,
        eye_rotation: eyes.field(16, 20) as u8,
        eye_spacing_x: eyes.field(21, 24) as u8,
        eye_position_y: eyes.field(25, 29) as u8,
        eyebrow_style: eyebrows.field(0, 4) as u8,
        eyebrow_color: eyebrows.field(5, 7) as u8,
        eyebrow_scale: eyebrows.field(8, 11) as u8,
        eyebrow_scale_y: eyebrows.field(12, 14) as u8,
        eyebrow_rotation: eyebrows.field(16, 19) as u8,
        eyebrow_spacing_x: eyebrows.field(21, 24) as u8,
        eyebrow_position_y: eyebrows.field(25, 29) as u8,
        nose_style: nose.field(0, 4) as u8,
        nose_scale: nose.field(5, 8) as u8,
        nose_position_y: nose.field(9, 13) as u8,
        mouth_style: mouth.field(0, 5) as u8,
        mouth_color: mouth.field(6, 8) as u8,
        mouth_scale: mouth.field(9, 12) as u8,
        mouth_scale_y: mouth.field(13, 15) as u8,
        mouth_position_y: mouth_y_mustache.field(0, 4) as u8,
        mustache_style: mouth_y_mustache.field(5, 7) as u8,
        beard_style: beard_mustache.field(0, 2) as u8,
        beard_color: beard_mustache.field(3, 5) as u8,
        mustache_scale: beard_mustache.field(6, 9) as u8,
        mustache_position_y: beard_mustache.field(10, 14) as u8,
        glasses_style: glasses.field(0, 3) as u8,
        glasses_color: glasses.field(4, 6) as u8,
        glasses_scale: glasses.field(7, 10) as u8,
        glasses_position_y: glasses.field(11, 15) as u8,
        mole_enabled: mole.bit_set(0),
        mole_scale: mole.field(1, 4) as u8,
        mole_position_x: mole.field(5, 9) as u8,
        mole_position_y: mole.field(10, 14) as u8,
    }
}

/// Whether `m` is what record `b` holds.
pub open spec fn mii_matches(m: MiiData, b: Seq<u8>) -> bool {
    let flags = mii_flags(b);
    &&& m.copying_allowed == b[1].bit_set(0)
    &&& Some(m.region_lock) == MiiRegionLock::spec_from_code(b[1].field(2, 3))
    &&& m.name_has_profanity == b[1].bit_set(1)
    &&& Some(m.name_character_set) == MiiNameCharacterSet::spec_from_code(b[1].field(4, 5))
    &&& m.position == MiiPosition { page: b[2].field(0, 3), slot: b[2].field(4, 7) }
    &&& Some(m.source_device) == MiiSourceDevice::spec_from_code(source_device_code(b))
    &&& m.system_id@ == b.subrange(4, 12)
    &&& m.mii_id == be_u32(b, 12)
    &&& m.mii_creation_date == MII_EPOCH + m.mii_id.field(0, 27)
    &&& m.is_special_mii == !m.mii_id.bit_set(31)
    &&& m.creator_mac_address@ == b.subrange(16, 22)
    &&& m.mii_gender == (if flags.bit_set(0) { MiiGender::Female } else { MiiGender::Male })
    &&& m.mii_birthday == birthday_spec(b)
    &&& Some(m.favorite_color) == MiiFavoriteColor::spec_from_code(favorite_color_code(b))
    &&& m.is_favorite == flags.bit_set(14)
    &&& m.mii_name@ == utf16_lossy(name_units(b.subrange(26, 46)))
    &&& m.sharing_disabled == b[48].bit_set(0)
    &&& m.mii_features == features_spec(b)
    &&& m.creator_name@ == utf16_lossy(name_units(b.subrange(72, 92)))
}

/// Decoding a record fails with the version byte itself unless it is 3; a birthday month of
/// 0 gives no birthday; favorite-color codes 0 and 1 are red and orange, and codes from 12
/// up fail.
pub proof fn lemma_mii_decode_rules(b: Seq<u8>)
    requires
        b.len() == MII_DATA_LEN,
    ensures
        b[0] != 3 ==> mii_error(b) == Some(MiiDeserializeError::UnknownVersion(b[0])),
        birthday_month(b) == 0 ==> birthday_spec(b) is None,
        favorite_color_code(b) == 0 ==> MiiFavoriteColor::spec_from_code(favorite_color_code(b))
            == Some(MiiFavoriteColor::Red),
        favorite_color_code(b) == 1 ==> MiiFavoriteColor::spec_from_code(favorite_color_code(b))
            == Some(MiiFavoriteColor::Orange),
        favorite_color_code(b) >= 12 ==> mii_error(b) is Some,
{
}

impl MiiData {
    /// Decodes a 92-byte Mii record, failing on the first field, in field order, that holds
    /// an unknown version, origin device, birthday month or favorite color.
    pub fn from_bytes(bytes: [u8; 0x5C]) -> (r: Result<MiiData, MiiDeserializeError>)
        ensures
            match r {
                Ok(m) => mii_error(bytes@) is None && mii_matches(m, bytes@),
                Err(e) => mii_error(bytes@) == Some(e),
            },
    {
        let ghost b = bytes@;
        if bytes[0] != 3 {
            return Err(MiiDeserializeError::UnknownVersion(bytes[0]));
        }
        let meta_flags = bytes[1];
        let selection_position = bytes[2];
        let device_code = bytes[3].pick_bits(4..=6);
        let source_device = match MiiSourceDevice::from_code(device_code) {
            Some(d) => d,
            None => return Err(MiiDeserializeError::UnknownSourceDevice(device_code)),
        };
        let flags = u16_from_le(bytes[24], bytes[25]);
        let month = flags.pick_bits(1..=4) as u8;
        if month > 12 {
            return Err(MiiDeserializeError::InvalidBirthdayMonth(month));
        }
        let color_code = flags.pick_bits(10..=13) as u8;
        let favorite_color = match MiiFavoriteColor::from_code(color_code) {
            Some(c) => c,
            None => return Err(MiiDeserializeError::InvalidFavoriteColor(color_code)),
        };
        assert(meta_flags.field(2, 3) < 4 && meta_flags.field(4, 5) < 4) by (bit_vector);
        let region_lock = match MiiRegionLock::from_code(meta_flags.pick_bits(2..=3)) {
            Some(r) => r,
            None => MiiRegionLock::NoLock,
        };
        let name_character_set = match MiiNameCharacterSet::from_code(meta_flags.pick_bits(4..=5)) {
            Some(c) => c,
            None => MiiNameCharacterSet::JpUsEu,
        };
        let system_id: [u8; 8] = [
            bytes[4],
            bytes[5],
            bytes[6],
            bytes[7],
            bytes[8],
            bytes[9],
            bytes[10],
            bytes[11],
        ];
        assert(system_id@ =~= b.subrange(4, 12));
        let mii_id = u32_from_le(bytes[15], bytes[14], bytes[13], bytes[12]);
        let mii_creation_date = MII_EPOCH + mii_id.pick_bits(0..=27) as u64;
        let creator_mac_address: [u8; 6] = [
            bytes[16],
            bytes[17],
            bytes[18],
            bytes[19],
            bytes[20],
            bytes[21],
        ];
        assert(creator_mac_address@ =~= b.subrange(16, 22));
        let mii_gender = if flags.pick_bit(0) {
            MiiGender::Female
        } else {
            MiiGender::Male
        };
        let mii_birthday = if month != 0 {
            Some(MiiBirthday { month, day: flags.pick_bits(5..=9) as u8 })
        } else {
            None
        };
        let mut mii_name_field = [0u8; 20];
        let mut creator_name_field = [0u8; 20];
        let mut j: usize = 0;
        while j < 20
            invariant
                j <= 20,
                b == bytes@,
                forall|k: int| 0 <= k < j ==> mii_name_field@[k] == b[k + 26],
                forall|k: int| 0 <= k < j ==> creator_name_field@[k] == b[k + 72],
            decreases 20 - j,
        {
            mii_name_field[j] = bytes[j + 26];
            creator_name_field[j] = bytes[j + 72];
            j = j + 1;
        }
        assert(mii_name_field@ =~= b.subrange(26, 46));
        assert(creator_name_field@ =~= b.subrange(72, 92));
        let eyes = u32_from_le(bytes[52], bytes[53], bytes[54], bytes[55]);
        let eyebrows = u32_from_le(bytes[56], bytes[57], bytes[58], bytes[59]);
        let nose = u16_from_le(bytes[60], bytes[61]);
        let mouth = u16_from_le(bytes[62], bytes[63]);
        let mouth_y_mustache = u16_from_le(bytes[64], bytes[65]);
        let beard_mustache = u16_from_le(bytes[66], bytes[67]);
        let glasses = u16_from_le(bytes[68], bytes[69]);
        let mole = u16_from_le(bytes[70], bytes[71]);
        let mii_features = MiiFeatures {
            width: bytes[47],
            height: bytes[46],
            face_shape: bytes[48].pick_bits(1..=4),
            skin_color: bytes[48].pick_bits(5..=7),
            wrinkles: bytes[49].pick_bits(0..=3),
            makeup: bytes[49].pick_bits(4..=7),
            hair_style: bytes[50],
            hair_color: bytes[51].pick_bits(0..=2),
            flip_hair: bytes[51].pick_bit(3),
            eye_style: eyes.pick_bits(0..=5) as u8,
            eye_color: eyes.pick_bits(6..=8) as u8,
            eye_scale: eyes.pick_bits(9..=12) as u8,
            eye_scale_y: eyes.pick_bits(13..=15) as u8,
            eye_rotation: eyes.pick_bits(16..=20) as u8,
            eye_spacing_x: eyes.pick_bits(21..=24) as u8,
            eye_position_y: eyes.pick_bits(25..=29) as u8,
            eyebrow_style: eyebrows.pick_bits(0..=4) as u8,
            eyebrow_color: eyebrows.pick_bits(5..=7) as u8,
            eyebrow_scale: eyebrows.pick_bits(8..=11) as u8,
            eyebrow_scale_y: eyebrows.pick_bits(12..=14) as u8,
            eyebrow_rotation: eyebrows.pick_bits(16..=19) as u8,
            eyebrow_spacing_x: eyebrows.pick_bits(21..=24) as u8,
            eyebrow_position_y: eyebrows.pick_bits(25..=29) as u8,
            nose_style: nose.pick_bits(0..=4) as u8,
            nose_scale: nose.pick_bits(5..=8) as u8,
            nose_position_y: nose.pick_bits(9..=13) as u8,
            mouth_style: mouth.pick_bits(0..=5) as u8,
            mouth_color: mouth.pick_bits(6..=8) as u8,
            mouth_scale: mouth.pick_bits(9..=12) as u8,
            mouth_scale_y: mouth.pick_bits(13..=15) as u8,
            mouth_position_y: mouth_y_mustache.pick_bits(0..=4) as u8,
            mustache_style: mouth_y_mustache.pick_bits(5..=7) as u8,
            beard_style: beard_mustache.pick_bits(0..=2) as u8,
            beard_color: beard_mustache.pick_bits(3..=5) as u8,
            mustache_scale: beard_mustache.pick_bits(6..=9) as u8,
            mustache_position_y: beard_mustache.pick_bits(10..=14) as u8,
            glasses_style: glasses.pick_bits(0..=3) as u8,
            glasses_color: glasses.pick_bits(4..=6) as u8,
            glasses_scale: glasses.pick_bits(7..=10) as u8,
            glasses_position_y: glasses.pick_bits(11..=15) as u8,
            mole_enabled: mole.pick_bit(0),
            mole_scale: mole.pick_bits(1..=4) as u8,
            mole_position_x: mole.pick_bits(5..=9) as u8,
            mole_position_y: mole.pick_bits(10..=14) as u8,
        };
        assert(mii_features == features_spec(b));
        Ok(MiiData {
            copying_allowed: meta_flags.pick_bit(0),
            region_lock,
            name_has_profanity: meta_flags.pick_bit(1),
            name_character_set,
            position: MiiPosition {
                page: selection_position.pick_bits(0..=3),
                slot: selection_position.pick_bits(4..=7),
            },
            source_device,
            system_id,
            mii_id,
            mii_creation_date,
            is_special_mii: !mii_id.pick_bit(31),
            creator_mac_address,
            mii_gender,
            mii_birthday,
            favorite_color,
            is_favorite: flags.pick_bit(14),
            mii_name: name_from_bytes(mii_name_field),
            sharing_disabled: bytes[48].pick_bit(0),
            mii_features,
            creator_name: name_from_bytes(creator_name_field),
        })
    }
}

/// A value of 0 becomes 8; others stay.
pub open spec fn or_eight_spec(n: u8) -> u8 {
    if n == 0 {
        8
    } else {
        n
    }
}

/// 1 for true, 0 for false.
pub open spec fn bool_code_spec(b: bool) -> u8 {
    if b {
        1
    } else {
        0
    }
}

/// Glasses color 0 becomes 8, colors 1 to 5 move up by 13, and anything above is 0.
pub open spec fn glasses_color_spec(c: u8) -> u8 {
    if c == 0 {
        8
    } else if c >= 6 {
        0
    } else {
        (c + 13) as u8
    }
}

/// Mouth colors 0 to 3 move up by 19; anything above is 0.
pub open spec fn mouth_color_spec(c: u8) -> u8 {
    if c < 4 {
        (c + 19) as u8
    } else {
        0
    }
}

/// The 46 feature bytes the face-preview service reads, in its order.
pub open spec fn studio_data_spec(m: MiiData) -> Seq<u8> {
    let f = m.mii_features;
    seq![
        or_eight_spec(f.beard_color),
        f.beard_style,
        f.width,
        f.eye_scale_y,
        (f.eye_color + 8) as u8,
        f.eye_rotation,
        f.eye_scale,
        f.eye_style,
        f.eye_spacing_x,
        f.eye_position_y,
        f.eyebrow_scale_y,
        or_eight_spec(f.eyebrow_color),
        f.eyebrow_rotation,
        f.eyebrow_scale,
        f.eyebrow_style,
        f.eyebrow_spacing_x,
        f.eyebrow_position_y,
        f.skin_color,
        f.makeup,
        f.face_shape,
        f.wrinkles,
        m.favorite_color.spec_code(),
        m.mii_gender.spec_code(),
        glasses_color_spec(f.glasses_color),
        f.glasses_scale,
        f.glasses_style,
        f.glasses_position_y,
        or_eight_spec(f.hair_color),
        bool_code_spec(f.flip_hair),
        f.hair_style,
        f.height,
        f.mole_scale,
        bool_code_spec(f.mole_enabled),
        f.mole_position_x,
        f.mole_position_y,
        f.mouth_scale_y,
        mouth_color_spec(f.mouth_color),
        f.mouth_scale,
        f.mouth_style,
        f.mouth_position_y,
        f.mustache_scale,
        f.mustache_style,
        f.mustache_position_y,
        f.nose_scale,
        f.nose_style,
        f.nose_position_y,
    ]
}

/// The running transform of the preview data: each byte is XORed with the previous output
/// byte (0 for the first) and 7 is added, wrapping.
pub open spec fn studio_cipher(data: Seq<u8>) -> Seq<u8>
    decreases data.len(),
{
    if data.len() == 0 {
        Seq::empty()
    } else {
        let prev = studio_cipher(data.drop_last());
        let acc: u8 = if prev.len() == 0 {
            0
        } else {
            prev.last()
        };
        prev.push((data.last() ^ acc).wrapping_add(7))
    }
}

/// The ASCII lowercase hex digit for `n < 16`.
pub open spec fn hex_digit_spec(n: u8) -> u8 {
    if n < 10 {
        (0x30 + n) as u8
    } else {
        (0x61 + n - 10) as u8
    }
}

/// Two lowercase hex digits per byte, high nibble first.
pub open spec fn hex_bytes(s: Seq<u8>) -> Seq<u8> {
    Seq::new(
        2 * s.len(),
        |i: int|
            if i % 2 == 0 {
                hex_digit_spec(s[i / 2] / 16)
            } else {
                hex_digit_spec(s[i / 2] % 16)
            },
    )
}

/// The data parameter of the preview URL: "00", then the transformed data in hex.
pub open spec fn studio_hex_spec(data: Seq<u8>) -> Seq<u8> {
    seq![0x30u8, 0x30u8] + hex_bytes(studio_cipher(data))
}

/// The characters of ASCII bytes.
pub open spec fn ascii_chars(b: Seq<u8>) -> Seq<char> {
    b.map_values(|x: u8| x as char)
}

/// The face-preview URL of `m`.
pub open spec fn studio_url_spec(m: MiiData) -> Seq<char> {
    STUDIO_URL_PREFIX@ + ascii_chars(studio_hex_spec(studio_data_spec(m))) + STUDIO_URL_SUFFIX@
}

/// ASCII bytes are valid UTF-8 and decode to the characters of the same codes.
proof fn lemma_ascii_utf8(b: Seq<u8>)
    requires
        forall|i: int| 0 <= i < b.len() ==> b[i] < 0x80,
    ensures
        valid_utf8(b),
        decode_utf8(b) == ascii_chars(b),
{
    let chars = ascii_chars(b);
    assert(is_ascii_chars(chars));
    is_ascii_chars_encode_utf8(chars);
    assert(encode_utf8(chars) =~= b);
    encode_utf8_valid_utf8(chars);
    encode_utf8_decode_utf8(chars);
}

/// A value of 0 becomes 8; others stay.
fn or_eight(n: u8) -> (r: u8)
    ensures
        r == or_eight_spec(n),
{
    if n == 0 {
        8
    } else {
        n
    }
}

/// 1 for true, 0 for false.
fn bool_code(b: bool) -> (r: u8)
    ensures
        r == bool_code_spec(b),
{
    if b {
        1
    } else {
        0
    }
}

/// The glasses color as the preview service numbers it.
fn glasses_color_code(c: u8) -> (r: u8)
    ensures
        r == glasses_color_spec(c),
{
    if c == 0 {
        8
    } else if c >= 6 {
        0
    } else {
        c + 13
    }
}

/// The mouth color as the preview service numbers it.
fn mouth_color_code(c: u8) -> (r: u8)
    ensures
        r == mouth_color_spec(c),
{
    if c < 4 {
        c + 19
    } else {
        0
    }
}

/// The ASCII lowercase hex digit for `n < 16`.
fn hex_digit(n: u8) -> (r: u8)
    requires
        n < 16,
    ensures
        r == hex_digit_spec(n),
        r < 0x80,
{
    if n < 10 {
        0x30 + n
    } else {
        0x61 + n - 10
    }
}

/// Runs the preview transform over `data` and writes the result as the URL's data
/// parameter: "00", then two lowercase hex digits per transformed byte.
pub fn encode_studio_data(data: &[u8]) -> (r: Vec<u8>)
    ensures
        r@ == studio_hex_spec(data@),
        forall|i: int| 0 <= i < r@.len() ==> r@[i] < 0x80,
{
    let mut out: Vec<u8> = Vec::new();
    out.push(0x30);
    out.push(0x30);
    let mut acc: u8 = 0;
    let ghost mut done: Seq<u8> = Seq::empty();
    let mut i: usize = 0;
    assert(data@.take(0) =~= Seq::<u8>::empty());
    assert(hex_bytes(done) =~= Seq::<u8>::empty());
    while i < data.len()
        invariant
            i <= data.len(),
            done == studio_cipher(data@.take(i as int)),
            done.len() == i,
            acc == (if i == 0 {
                0u8
            } else {
                done.last()
            }),
            out@ == seq![0x30u8, 0x30u8] + hex_bytes(done),
            forall|k: int| 0 <= k < out@.len() ==> out@[k] < 0x80,
        decreases data.len() - i,
    {
        let encoded = (data[i] ^ acc).wrapping_add(7);
        assert(data@.take(i + 1).drop_last() =~= data@.take(i as int));
        let hi = hex_digit(encoded / 16);
        let lo = hex_digit(encoded % 16);
        out.push(hi);
        out.push(lo);
        proof {
            let next = done.push(encoded);
            assert(hex_bytes(next) =~= hex_bytes(done) + seq![hi, lo]);
            done = next;
        }
        assert(out@ =~= seq![0x30u8, 0x30u8] + hex_bytes(done));
        acc = encoded;
        i = i + 1;
    }
    assert(data@.take(data.len() as int) =~= data@);
    out
}

impl MiiData {
    /// The 46 feature bytes that the face-preview service reads.
    pub fn studio_data(&self) -> (r: [u8; 46])
        requires
            self.mii_features.eye_color + 8 <= u8::MAX,
        ensures
            r@ == studio_data_spec(*self),
    {
        let f = &self.mii_features;
        let r: [u8; 46] = [
            or_eight(f.beard_color),
            f.beard_style,
            f.width,
            f.eye_scale_y,
            f.eye_color + 8,
            f.eye_rotation,
            f.eye_scale,
            f.eye_style,
            f.eye_spacing_x,
            f.eye_position_y,
            f.eyebrow_scale_y,
            or_eight(f.eyebrow_color),
            f.eyebrow_rotation,
            f.eyebrow_scale,
            f.eyebrow_style,
            f.eyebrow_spacing_x,
            f.eyebrow_position_y,
            f.skin_color,
            f.makeup,
            f.face_shape,
            f.wrinkles,
            self.favorite_color.code(),
            self.mii_gender.code(),
            glasses_color_code(f.glasses_color),
            f.glasses_scale,
            f.glasses_style,
            f.glasses_position_y,
            or_eight(f.hair_color),
            bool_code(f.flip_hair),
            f.hair_style,
            f.height,
            f.mole_scale,
            bool_code(f.mole_enabled),
            f.mole_position_x,
            f.mole_position_y,
            f.mouth_scale_y,
            mouth_color_code(f.mouth_color),
            f.mouth_scale,
            f.mouth_style,
            f.mouth_position_y,
            f.mustache_scale,
            f.mustache_style,
            f.mustache_position_y,
            f.nose_scale,
            f.nose_style,
            f.nose_position_y,
        ];
        assert(r@ =~= studio_data_spec(*self));
        r
    }

    /// The URL of a rendered face preview, with the feature bytes encoded as its data
    /// parameter.
    pub fn get_mii_studio_url(&self) -> (r: String)
        requires
            self.mii_features.eye_color + 8 <= u8::MAX,
        ensures
            r@ == studio_url_spec(*self),
    {
        let data = self.studio_data();
        let hex = encode_studio_data(data.as_slice());
        proof {
            lemma_ascii_utf8(hex@);
        }
        let hex_text = match string_from_utf8(hex) {
            Some(t) => t,
            None => String::new(),
        };
        let mut url = String::from_str(STUDIO_URL_PREFIX);
        url.append(hex_text.as_str());
        url.append(STUDIO_URL_SUFFIX);
        url
    }
}

} // verus!
