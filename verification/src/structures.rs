use vstd::prelude::*;
use vstd::utf8::{
    decode_utf8, encode_utf8, encode_utf8_decode_utf8, encode_utf8_valid_utf8, is_ascii_chars,
    is_ascii_chars_encode_utf8, valid_utf8,
};
use crate::error::RomError;
use crate::le_bytes::{le_u16, le_u32, read_bytes, read_u16, read_u32};

verus! {

/// Bytes of the image header.
pub const ROM_HEADER_BYTES: usize = 192;

/// Bytes of a map header.
pub const MAP_HEADER_BYTES: usize = 28;

/// Bytes of a map layout.
pub const MAP_LAYOUT_BYTES: usize = 28;

/// Bytes of a tileset header.
pub const TILESET_HEADER_BYTES: usize = 24;

/// The text that `String::from_utf8_lossy` makes of bytes that are not valid
/// UTF-8: what can be read is kept, and the replacement character stands in
/// for what cannot.
pub uninterp spec fn utf8_lossy(bytes: Seq<u8>) -> Seq<char>;

/// The text that a run of bytes is read as: the text that the bytes encode
/// where they are valid UTF-8, and a lossy reading of them where not.
pub open spec fn text_of(bytes: Seq<u8>) -> Seq<char> {
    if valid_utf8(bytes) {
        decode_utf8(bytes)
    } else {
        utf8_lossy(bytes)
    }
}

/// `String::from_utf8_lossy`, as an owned string. Bytes that are valid UTF-8
/// give the text that they encode; other bytes give a text that only the
/// name above stands for.
#[verifier::external_body]
fn lossy_text(bytes: &[u8]) -> (text: String)
    ensures
        text@ == (if valid_utf8(bytes@) {
            decode_utf8(bytes@)
        } else {
            utf8_lossy(bytes@)
        }),
{
    String::from_utf8_lossy(bytes).into_owned()
}

/// Bytes below 0x80 are read as the characters with those codes.
pub proof fn lemma_ascii_bytes_are_their_text(bytes: Seq<u8>, chars: Seq<char>)
    requires
        chars.len() == bytes.len(),
        forall|i: int| 0 <= i < bytes.len() ==> bytes[i] < 0x80 && chars[i] == bytes[i] as char,
    ensures
        text_of(bytes) == chars,
{
    assert(is_ascii_chars(chars));
    is_ascii_chars_encode_utf8(chars);
    assert(encode_utf8(chars) =~= bytes);
    encode_utf8_valid_utf8(chars);
    encode_utf8_decode_utf8(chars);
}

/// Whether a record of `size` bytes lies in `data` from `offset` on.
pub open spec fn record_fits(data: Seq<u8>, offset: int, size: int) -> bool {
    0 <= offset && offset + size <= data.len()
}

/// The text of the `len` bytes at `at`: lossy, and with its padding.
pub open spec fn text_at(data: Seq<u8>, at: int, len: int) -> Seq<char> {
    text_of(data.subrange(at, at + len))
}

fn read_text(data: &[u8], at: usize, len: usize) -> (text: String)
    requires
        at + len <= data.len(),
    ensures
        text@ == text_at(data@, at as int, len as int),
{
    let bytes = read_bytes(data, at, len);
    lossy_text(bytes.as_slice())
}

fn fits(data: &[u8], offset: usize, size: usize) -> (b: bool)
    ensures
        b == record_fits(data@, offset as int, size as int),
        b ==> offset + size <= data.len(),
{
    data.len() >= size && offset <= data.len() - size
}

/// The header at the start of every image.
#[derive(Debug)]
pub struct RomHeader {
    pub entry_point: u32,
    pub logo: Vec<u8>,
    pub game_title: String,
    pub game_code: String,
    pub maker_code: String,
    pub fixed_value: u8,
    pub unit_code: u8,
    pub device_type: u8,
    pub reserved_1: Vec<u8>,
    pub version: u8,
    pub complement_check: u8,
    pub reserved_2: u16,
}

/// What a [`RomHeader`] stands for in contracts.
pub ghost struct RomHeaderView {
    pub entry_point: u32,
    pub logo: Seq<u8>,
    pub game_title: Seq<char>,
    pub game_code: Seq<char>,
    pub maker_code: Seq<char>,
    pub fixed_value: u8,
    pub unit_code: u8,
    pub device_type: u8,
    pub reserved_1: Seq<u8>,
    pub version: u8,
    pub complement_check: u8,
    pub reserved_2: u16,
}

impl View for RomHeader {
    type V = RomHeaderView;

    open spec fn view(&self) -> RomHeaderView {
        RomHeaderView {
            entry_point: self.entry_point,
            logo: self.logo@,
            game_title: self.game_title@,
            game_code: self.game_code@,
            maker_code: self.maker_code@,
            fixed_value: self.fixed_value,
            unit_code: self.unit_code,
            device_type: self.device_type,
            reserved_1: self.reserved_1@,
            version: self.version,
            complement_check: self.complement_check,
            reserved_2: self.reserved_2,
        }
    }
}

/// The image header stored at `at`.
///
/// | offset | bytes | field |
/// |---|---|---|
/// | 0 | 4 | entry point |
/// | 4 | 156 | logo |
/// | 160 | 12 | game title |
/// | 172 | 4 | game code |
/// | 176 | 2 | maker code |
/// | 178 | 1 | fixed value |
/// | 179 | 1 | unit code |
/// | 180 | 1 | device type |
/// | 181 | 7 | reserved |
/// | 188 | 1 | version |
/// | 189 | 1 | complement check |
/// | 190 | 2 | reserved |
pub open spec fn rom_header_at(data: Seq<u8>, at: int) -> RomHeaderView {
    RomHeaderView {
        entry_point: le_u32(data, at),
        logo: data.subrange(at + 4, at + 160),
        game_title: text_at(data, at + 160, 12),
        game_code: text_at(data, at + 172, 4),
        maker_code: text_at(data, at + 176, 2),
        fixed_value: data[at + 178],
        unit_code: data[at + 179],
        device_type: data[at + 180],
        reserved_1: data.subrange(at + 181, at + 188),
        version: data[at + 188],
        complement_check: data[at + 189],
        reserved_2: le_u16(data, at + 190),
    }
}

impl RomHeader {
    /// Decodes the image header stored at `offset`.
    pub fn read(data: &[u8], offset: usize) -> (result: Result<RomHeader, RomError>)
        ensures
            match result {
                Ok(header) => record_fits(data@, offset as int, ROM_HEADER_BYTES as int)
                    && header@ == rom_header_at(data@, offset as int),
                Err(e) => e == RomError::Format && !record_fits(
                    data@,
                    offset as int,
                    ROM_HEADER_BYTES as int,
                ),
            },
    {
        if !fits(data, offset, ROM_HEADER_BYTES) {
            return Err(RomError::Format);
        }
        Ok(
            RomHeader {
                entry_point: read_u32(data, offset),
                logo: read_bytes(data, offset + 4, 156),
                game_title: read_text(data, offset + 160, 12),
                game_code: read_text(data, offset + 172, 4),
                maker_code: read_text(data, offset + 176, 2),
                fixed_value: data[offset + 178],
                unit_code: data[offset + 179],
                device_type: data[offset + 180],
                reserved_1: read_bytes(data, offset + 181, 7),
                version: data[offset + 188],
                complement_check: data[offset + 189],
                reserved_2: read_u16(data, offset + 190),
            },
        )
    }
}

/// The record that describes one map.
#[derive(Debug, Clone)]
pub struct MapHeader {
    pub map_data_ptr: u32,
    pub event_data_ptr: u32,
    pub map_script_ptr: u32,
    pub connection_ptr: u32,
    pub music_index: u16,
    pub map_index: u16,
    pub label_id: u8,
    pub visibility: u8,
    pub weather: u8,
    pub map_type: u8,
    pub unused_2: u16,
    pub show_label: u8,
    pub battle_scene: u8,
}

/// The map header stored at `at`.
///
/// | offset | bytes | field |
/// |---|---|---|
/// | 0 | 4 | map data pointer |
/// | 4 | 4 | event data pointer |
/// | 8 | 4 | map script pointer |
/// | 12 | 4 | connection pointer |
/// | 16 | 2 | music index |
/// | 18 | 2 | map index |
/// | 20 | 1 | label id |
/// | 21 | 1 | visibility |
/// | 22 | 1 | weather |
/// | 23 | 1 | map type |
/// | 24 | 2 | unused |
/// | 26 | 1 | show label |
/// | 27 | 1 | battle scene |
pub open spec fn map_header_at(data: Seq<u8>, at: int) -> MapHeader {
    MapHeader {
        map_data_ptr: le_u32(data, at),
        event_data_ptr: le_u32(data, at + 4),
        map_script_ptr: le_u32(data, at + 8),
        connection_ptr: le_u32(data, at + 12),
        music_index: le_u16(data, at + 16),
        map_index: le_u16(data, at + 18),
        label_id: data[at + 20],
        visibility: data[at + 21],
        weather: data[at + 22],
        map_type: data[at + 23],
        unused_2: le_u16(data, at + 24),
        show_label: data[at + 26],
        battle_scene: data[at + 27],
    }
}

impl MapHeader {
    /// Decodes the map header stored at `offset`.
    pub fn read(data: &[u8], offset: usize) -> (result: Result<MapHeader, RomError>)
        ensures
            match result {
                Ok(header) => record_fits(data@, offset as int, MAP_HEADER_BYTES as int) && header
                    == map_header_at(data@, offset as int),
                Err(e) => e == RomError::Format && !record_fits(
                    data@,
                    offset as int,
                    MAP_HEADER_BYTES as int,
                ),
            },
    {
        if !fits(data, offset, MAP_HEADER_BYTES) {
            return Err(RomError::Format);
        }
        Ok(
            MapHeader {
                map_data_ptr: read_u32(data, offset),
                event_data_ptr: read_u32(data, offset + 4),
                map_script_ptr: read_u32(data, offset + 8),
                connection_ptr: read_u32(data, offset + 12),
                music_index: read_u16(data, offset + 16),
                map_index: read_u16(data, offset + 18),
                label_id: data[offset + 20],
                visibility: data[offset + 21],
                weather: data[offset + 22],
                map_type: data[offset + 23],
                unused_2: read_u16(data, offset + 24),
                show_label: data[offset + 26],
                battle_scene: data[offset + 27],
            },
        )
    }
}

/// The record that describes the grid of a map and names its tilesets.
#[derive(Debug, Clone)]
pub struct MapLayout {
    pub width: u32,
    pub height: u32,
    pub border_ptr: u32,
    pub map_data_ptr: u32,
    pub primary_tileset_ptr: u32,
    pub secondary_tileset_ptr: u32,
    pub border_width: u8,
    pub border_height: u8,
    pub unused: Vec<u8>,
}

/// What a [`MapLayout`] stands for in contracts.
pub ghost struct MapLayoutView {
    pub width: u32,
    pub height: u32,
    pub border_ptr: u32,
    pub map_data_ptr: u32,
    pub primary_tileset_ptr: u32,
    pub secondary_tileset_ptr: u32,
    pub border_width: u8,
    pub border_height: u8,
    pub unused: Seq<u8>,
}

impl View for MapLayout {
    type V = MapLayoutView;

    open spec fn view(&self) -> MapLayoutView {
        MapLayoutView {
            width: self.width,
            height: self.height,
            border_ptr: self.border_ptr,
            map_data_ptr: self.map_data_ptr,
            primary_tileset_ptr: self.primary_tileset_ptr,
            secondary_tileset_ptr: self.secondary_tileset_ptr,
            border_width: self.border_width,
            border_height: self.border_height,
            unused: self.unused@,
        }
    }
}

/// The map layout stored at `at`.
///
/// | offset | bytes | field |
/// |---|---|---|
/// | 0 | 4 | width |
/// | 4 | 4 | height |
/// | 8 | 4 | border pointer |
/// | 12 | 4 | map data pointer |
/// | 16 | 4 | primary tileset pointer |
/// | 20 | 4 | secondary tileset pointer |
/// | 24 | 1 | border width |
/// | 25 | 1 | border height |
/// | 26 | 2 | padding |
pub open spec fn map_layout_at(data: Seq<u8>, at: int) -> MapLayoutView {
    MapLayoutView {
        width: le_u32(data, at),
        height: le_u32(data, at + 4),
        border_ptr: le_u32(data, at + 8),
        map_data_ptr: le_u32(data, at + 12),
        primary_tileset_ptr: le_u32(data, at + 16),
        secondary_tileset_ptr: le_u32(data, at + 20),
        border_width: data[at + 24],
        border_height: data[at + 25],
        unused: data.subrange(at + 26, at + 28),
    }
}

impl MapLayout {
    /// Decodes the map layout stored at `offset`.
    pub fn read(data: &[u8], offset: usize) -> (result: Result<MapLayout, RomError>)
        ensures
            match result {
                Ok(layout) => record_fits(data@, offset as int, MAP_LAYOUT_BYTES as int) && layout@
                    == map_layout_at(data@, offset as int),
                Err(e) => e == RomError::Format && !record_fits(
                    data@,
                    offset as int,
                    MAP_LAYOUT_BYTES as int,
                ),
            },
    {
        if !fits(data, offset, MAP_LAYOUT_BYTES) {
            return Err(RomError::Format);
        }
        Ok(
            MapLayout {
                width: read_u32(data, offset),
                height: read_u32(data, offset + 4),
                border_ptr: read_u32(data, offset + 8),
                map_data_ptr: read_u32(data, offset + 12),
                primary_tileset_ptr: read_u32(data, offset + 16),
                secondary_tileset_ptr: read_u32(data, offset + 20),
                border_width: data[offset + 24],
                border_height: data[offset + 25],
                unused: read_bytes(data, offset + 26, 2),
            },
        )
    }
}

/// The record that says where the graphics and the palettes of a tileset
/// lie.
#[derive(Debug, Clone)]
pub struct TilesetHeader {
    pub is_compressed: u8,
    pub is_secondary: u8,
    pub padding: Vec<u8>,
    pub graphics_ptr: u32,
    pub palette_ptr: u32,
    pub metatiles_ptr: u32,
    pub anim_ptr: u32,
    pub behavior_ptr: u32,
}

/// What a [`TilesetHeader`] stands for in contracts.
pub ghost struct TilesetHeaderView {
    pub is_compressed: u8,
    pub is_secondary: u8,
    pub padding: Seq<u8>,
    pub graphics_ptr: u32,
    pub palette_ptr: u32,
    pub metatiles_ptr: u32,
    pub anim_ptr: u32,
    pub behavior_ptr: u32,
}

impl View for TilesetHeader {
    type V = TilesetHeaderView;

    open spec fn view(&self) -> TilesetHeaderView {
        TilesetHeaderView {
            is_compressed: self.is_compressed,
            is_secondary: self.is_secondary,
            padding: self.padding@,
            graphics_ptr: self.graphics_ptr,
            palette_ptr: self.palette_ptr,
            metatiles_ptr: self.metatiles_ptr,
            anim_ptr: self.anim_ptr,
            behavior_ptr: self.behavior_ptr,
        }
    }
}

/// The tileset header stored at `at`.
///
/// | offset | bytes | field |
/// |---|---|---|
/// | 0 | 1 | compressed |
/// | 1 | 1 | secondary |
/// | 2 | 2 | padding |
/// | 4 | 4 | graphics pointer |
/// | 8 | 4 | palette pointer |
/// | 12 | 4 | metatiles pointer |
/// | 16 | 4 | animation pointer |
/// | 20 | 4 | behaviour pointer |
pub open spec fn tileset_header_at(data: Seq<u8>, at: int) -> TilesetHeaderView {
    TilesetHeaderView {
        is_compressed: data[at],
        is_secondary: data[at + 1],
        padding: data.subrange(at + 2, at + 4),
        graphics_ptr: le_u32(data, at + 4),
        palette_ptr: le_u32(data, at + 8),
        metatiles_ptr: le_u32(data, at + 12),
        anim_ptr: le_u32(data, at + 16),
        behavior_ptr: le_u32(data, at + 20),
    }
}

impl TilesetHeader {
    /// Decodes the tileset header stored at `offset`.
    pub fn read(data: &[u8], offset: usize) -> (result: Result<TilesetHeader, RomError>)
        ensures
            match result {
                Ok(header) => record_fits(data@, offset as int, TILESET_HEADER_BYTES as int)
                    && header@ == tileset_header_at(data@, offset as int),
                Err(e) => e == RomError::Format && !record_fits(
                    data@,
                    offset as int,
                    TILESET_HEADER_BYTES as int,
                ),
            },
    {
        if !fits(data, offset, TILESET_HEADER_BYTES) {
            return Err(RomError::Format);
        }
        Ok(
            TilesetHeader {
                is_compressed: data[offset],
                is_secondary: data[offset + 1],
                padding: read_bytes(data, offset + 2, 2),
                graphics_ptr: read_u32(data, offset + 4),
                palette_ptr: read_u32(data, offset + 8),
                metatiles_ptr: read_u32(data, offset + 12),
                anim_ptr: read_u32(data, offset + 16),
                behavior_ptr: read_u32(data, offset + 20),
            },
        )
    }
}

} // verus!
