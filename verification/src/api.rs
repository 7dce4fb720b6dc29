use vstd::prelude::*;
use vstd::string::StringExecFns;
use crate::compression::{decompress_lz77, decompressed};
use crate::error::RomError;
use crate::graphics::{preview_samples, render_tile_grid};
use crate::le_bytes::{le_u16, read_u16};
use crate::patch::{
    apply_patches, calculate_header_checksum, can_be_saved, patched, patches_fit, saved_image,
    with_checksum, CHECKSUM_AT,
};
use crate::pointer::{resolve_pointer, resolved_offset};
use crate::scripting::{disassemble, disassembly, instructions, ScriptCommand};
use crate::state::RomState;
use crate::structures::{
    map_header_at, map_layout_at, record_fits, rom_header_at, tileset_header_at, MapHeader,
    MapLayout, RomHeader, TilesetHeader, TilesetHeaderView, MAP_HEADER_BYTES, MAP_LAYOUT_BYTES,
    ROM_HEADER_BYTES, TILESET_HEADER_BYTES,
};

verus! {

/// Bytes of the uncompressed graphics of a tileset that a preview reads:
/// 128 tiles.
pub const PREVIEW_GRAPHICS_BYTES: usize = 4096;

/// Bytes of the first palette of a tileset.
pub const PALETTE_BYTES: usize = 32;

/// Where the game code lies in the header of an image.
pub const GAME_CODE_AT: usize = 172;

/// Bytes of a game code.
pub const GAME_CODE_BYTES: usize = 4;

/// The four bytes of the game code in the header of an image.
pub open spec fn game_code_bytes(data: Seq<u8>) -> Seq<u8> {
    data.subrange(GAME_CODE_AT as int, GAME_CODE_AT + GAME_CODE_BYTES)
}

/// Whether the bytes of a game code name one of the two supported games:
/// `BPRE` or `BPEE` in ASCII.
pub open spec fn is_supported_code(code: Seq<u8>) -> bool {
    code == seq![0x42u8, 0x50u8, 0x52u8, 0x45u8] || code == seq![0x42u8, 0x50u8, 0x45u8, 0x45u8]
}

/// Why an image cannot be loaded, or `None` where it can: its header must
/// fit, and the four bytes of its game code must name a supported game.
pub open spec fn load_error(data: Seq<u8>) -> Option<RomError> {
    if !record_fits(data, 0, ROM_HEADER_BYTES as int) {
        Some(RomError::Format)
    } else if !is_supported_code(game_code_bytes(data)) {
        Some(RomError::UnsupportedVariant)
    } else {
        None
    }
}

/// Tells whether the bytes of a game code name one of the two supported
/// games.
pub fn is_supported_game_code(code: &[u8]) -> (supported: bool)
    ensures
        supported == is_supported_code(code@),
{
    if code.len() != GAME_CODE_BYTES {
        return false;
    }
    let fire_red = code[0] == 0x42 && code[1] == 0x50 && code[2] == 0x52 && code[3] == 0x45;
    let emerald = code[0] == 0x42 && code[1] == 0x50 && code[2] == 0x45 && code[3] == 0x45;
    proof {
        let first = seq![0x42u8, 0x50u8, 0x52u8, 0x45u8];
        let second = seq![0x42u8, 0x50u8, 0x45u8, 0x45u8];
        assert(fire_red <==> code@ =~= first) by {
            assert(first[0] == 0x42 && first[1] == 0x50 && first[2] == 0x52 && first[3] == 0x45);
        }
        assert(emerald <==> code@ =~= second) by {
            assert(second[0] == 0x42 && second[1] == 0x50 && second[2] == 0x45 && second[3]
                == 0x45);
        }
    }
    fire_red || emerald
}

/// Decodes the header of an image and tells whether the image can be
/// loaded.
pub fn check_image(data: &[u8]) -> (result: Result<RomHeader, RomError>)
    ensures
        match result {
            Ok(header) => load_error(data@) is None && header@ == rom_header_at(data@, 0),
            Err(e) => load_error(data@) == Some(e),
        },
{
    let header = match RomHeader::read(data, 0) {
        Ok(header) => header,
        Err(e) => {
            return Err(e);
        },
    };
    let code = vstd::slice::slice_subrange(data, GAME_CODE_AT, GAME_CODE_AT + GAME_CODE_BYTES);
    if !is_supported_game_code(code) {
        return Err(RomError::UnsupportedVariant);
    }
    Ok(header)
}

/// Makes `data` the image of the session, with no patch pending, and
/// reports its title. An image that is refused leaves the session as it
/// was.
pub fn load_rom(session: &mut Option<RomState>, data: Vec<u8>) -> (result: Result<String, RomError>)
    ensures
        match result {
            Ok(message) => {
                &&& load_error(data@) is None
                &&& message@ == "Loaded: "@ + rom_header_at(data@, 0).game_title
                &&& *final(session) matches Some(state) && state.data == data && state.header@
                    == rom_header_at(data@, 0) && state.patches() == Map::<u32, Seq<u8>>::empty()
            },
            Err(e) => load_error(data@) == Some(e) && *final(session) == *old(session),
        },
{
    let header = match check_image(data.as_slice()) {
        Ok(header) => header,
        Err(e) => {
            return Err(e);
        },
    };
    let mut message = "Loaded: ".to_owned();
    message.append(header.game_title.as_str());
    *session = Some(RomState::new(data, header));
    Ok(message)
}

/// Reports the game code and the title of the loaded image.
pub fn get_rom_header_info(session: &Option<RomState>) -> (result: Result<String, RomError>)
    ensures
        match result {
            Ok(info) => *session matches Some(state) && info@ == "Code: "@
                + state.header.game_code@ + ", Title: "@ + state.header.game_title@,
            Err(e) => *session is None && e == RomError::NoImageLoaded,
        },
{
    match session {
        Some(state) => {
            let mut info = "Code: ".to_owned();
            info.append(state.header.game_code.as_str());
            info.append(", Title: ");
            info.append(state.header.game_title.as_str());
            Ok(info)
        },
        None => Err(RomError::NoImageLoaded),
    }
}

/// Lists the script that a cartridge-space pointer names in the loaded
/// image.
pub fn disassemble_script(session: &Option<RomState>, offset: u32) -> (result: Result<
    Vec<ScriptCommand>,
    RomError,
>)
    ensures
        match result {
            Ok(commands) => *session matches Some(state) && resolved_offset(offset)
                < state.data@.len() && instructions(commands@) == disassembly(
                state.data@,
                resolved_offset(offset) as int,
            ),
            Err(e) => match *session {
                Some(state) => e == RomError::OutOfBounds && resolved_offset(offset)
                    >= state.data@.len(),
                None => e == RomError::NoImageLoaded,
            },
        },
{
    match session {
        Some(state) => {
            let real_offset = resolve_pointer(offset);
            if real_offset >= state.data.len() {
                return Err(RomError::OutOfBounds);
            }
            disassemble(state.data.as_slice(), real_offset)
        },
        None => Err(RomError::NoImageLoaded),
    }
}

/// The sixteen colours stored at `at`, two bytes each, low byte first.
pub open spec fn palette_at(data: Seq<u8>, at: int) -> Seq<u16> {
    Seq::new(16, |i: int| le_u16(data, at + 2 * i))
}

/// The graphics of a tileset: unpacked from the graphics pointer to the end
/// of the image where the header says that they are compressed (its flag is
/// 1), and the 4096 bytes at the graphics pointer where it does not.
pub open spec fn tileset_graphics(data: Seq<u8>, tileset: TilesetHeaderView) -> Result<
    Seq<u8>,
    RomError,
> {
    let at = resolved_offset(tileset.graphics_ptr) as int;
    if tileset.is_compressed == 1 {
        if at >= data.len() {
            Err(RomError::OutOfBounds)
        } else {
            decompressed(data.subrange(at, data.len() as int))
        }
    } else {
        if at + PREVIEW_GRAPHICS_BYTES > data.len() {
            Err(RomError::OutOfBounds)
        } else {
            Ok(data.subrange(at, at + PREVIEW_GRAPHICS_BYTES))
        }
    }
}

/// The preview of the tileset of a map whose tileset header lies at
/// `tileset_at`: its graphics drawn with its first palette.
pub open spec fn tileset_preview(data: Seq<u8>, tileset_at: int) -> Result<Seq<u8>, RomError> {
    let tileset = tileset_header_at(data, tileset_at);
    let palette_from = resolved_offset(tileset.palette_ptr) as int;
    if !record_fits(data, tileset_at, TILESET_HEADER_BYTES as int) {
        Err(RomError::Format)
    } else if palette_from + PALETTE_BYTES > data.len() {
        Err(RomError::OutOfBounds)
    } else {
        match tileset_graphics(data, tileset) {
            Ok(gfx) => Ok(preview_samples(gfx, palette_at(data, palette_from))),
            Err(e) => Err(e),
        }
    }
}

/// The preview of the map whose header `pointer` names: the samples of a
/// picture of 128 by 64 pixels that shows the first tiles of the map's
/// primary tileset.
///
/// The map header leads to the map layout and the layout to the tileset
/// header. A record that does not fit in the image is a format error; a
/// palette or graphics that lie outside it are out of bounds.
pub open spec fn map_preview(data: Seq<u8>, pointer: u32) -> Result<Seq<u8>, RomError> {
    let header_at = resolved_offset(pointer) as int;
    let layout_at = resolved_offset(map_header_at(data, header_at).map_data_ptr) as int;
    let tileset_at = resolved_offset(map_layout_at(data, layout_at).primary_tileset_ptr) as int;
    if !record_fits(data, header_at, MAP_HEADER_BYTES as int) {
        Err(RomError::Format)
    } else if !record_fits(data, layout_at, MAP_LAYOUT_BYTES as int) {
        Err(RomError::Format)
    } else {
        tileset_preview(data, tileset_at)
    }
}

/// Reads the sixteen colours of the palette stored at `at`.
pub fn read_palette(data: &[u8], at: usize) -> (palette: Vec<u16>)
    requires
        at + PALETTE_BYTES <= data.len(),
    ensures
        palette@ == palette_at(data@, at as int),
{
    let mut palette: Vec<u16> = Vec::new();
    let mut i: usize = 0;
    while i < 16
        invariant
            i <= 16,
            at + PALETTE_BYTES <= data.len(),
            palette@.len() == i,
            forall|j: int| 0 <= j < i ==> palette@[j] == le_u16(data@, at + 2 * j),
        decreases 16 - i,
    {
        let color = read_u16(data, at + 2 * i);
        palette.push(color);
        i += 1;
    }
    assert(palette@ =~= palette_at(data@, at as int));
    palette
}

/// Renders the preview of the map whose header `map_header_ptr` names in
/// the loaded image.
pub fn render_map_preview(session: &Option<RomState>, map_header_ptr: u32) -> (result: Result<
    Vec<u8>,
    RomError,
>)
    ensures
        match result {
            Ok(raw) => *session matches Some(state) && map_preview(state.data@, map_header_ptr)
                == Ok::<Seq<u8>, RomError>(raw@),
            Err(e) => match *session {
                Some(state) => map_preview(state.data@, map_header_ptr) == Err::<
                    Seq<u8>,
                    RomError,
                >(e),
                None => e == RomError::NoImageLoaded,
            },
        },
{
    let state = match session {
        Some(state) => state,
        None => {
            return Err(RomError::NoImageLoaded);
        },
    };
    let data = state.data.as_slice();
    let map_header = match MapHeader::read(data, resolve_pointer(map_header_ptr)) {
        Ok(header) => header,
        Err(e) => {
            return Err(e);
        },
    };
    let layout = match MapLayout::read(data, resolve_pointer(map_header.map_data_ptr)) {
        Ok(layout) => layout,
        Err(e) => {
            return Err(e);
        },
    };
    let tileset = match TilesetHeader::read(data, resolve_pointer(layout.primary_tileset_ptr)) {
        Ok(tileset) => tileset,
        Err(e) => {
            return Err(e);
        },
    };
    let palette_offset = resolve_pointer(tileset.palette_ptr);
    if data.len() < PALETTE_BYTES || palette_offset > data.len() - PALETTE_BYTES {
        return Err(RomError::OutOfBounds);
    }
    let palette = read_palette(data, palette_offset);
    let gfx_offset = resolve_pointer(tileset.graphics_ptr);
    let raw_gfx = if tileset.is_compressed == 1 {
        if gfx_offset >= data.len() {
            return Err(RomError::OutOfBounds);
        }
        match decompress_lz77(vstd::slice::slice_subrange(data, gfx_offset, data.len())) {
            Ok(unpacked) => unpacked,
            Err(e) => {
                return Err(e);
            },
        }
    } else {
        if data.len() < PREVIEW_GRAPHICS_BYTES || gfx_offset > data.len()
            - PREVIEW_GRAPHICS_BYTES {
            return Err(RomError::OutOfBounds);
        }
        crate::le_bytes::read_bytes(data, gfx_offset, PREVIEW_GRAPHICS_BYTES)
    };
    Ok(render_tile_grid(raw_gfx.as_slice(), palette.as_slice()))
}

/// Builds the image to write out: a copy of the loaded image with every
/// pending patch merged in and the header checksum set. The patches are
/// then dropped from the session; its image and header stay as they were.
///
/// The merged image must reach past the byte of the header checksum, as it
/// does for every image that was loaded, and each patch must end at an
/// offset that fits in memory.
pub fn save_rom(session: &mut Option<RomState>) -> (result: Result<Vec<u8>, RomError>)
    requires
        *old(session) matches Some(state) ==> can_be_saved(state.data@, state.patches()),
    ensures
        match result {
            Ok(image) => {
                &&& *old(session) matches Some(before)
                &&& *final(session) matches Some(after)
                &&& image@ == saved_image(before.data@, before.patches())
                &&& after.data == before.data
                &&& after.header == before.header
                &&& after.patches() == Map::<u32, Seq<u8>>::empty()
            },
            Err(e) => e == RomError::NoImageLoaded && *old(session) is None && *final(session)
                is None,
        },
{
    match session {
        Some(state) => {
            let mut new_data = apply_patches(&state.data, &state.modifications);
            let checksum = calculate_header_checksum(new_data.as_slice());
            new_data.set(CHECKSUM_AT, checksum);
            state.modifications.clear();
            assert(crate::state::patch_set(state.modifications@) =~= Map::<u32, Seq<u8>>::empty());
            Ok(new_data)
        },
        None => Err(RomError::NoImageLoaded),
    }
}

/// Records a patch: `data` is to replace the bytes at `offset` when the
/// image is next saved. A patch already pending for that offset is
/// replaced.
pub fn apply_patch(session: &mut Option<RomState>, offset: u32, data: Vec<u8>) -> (result: Result<
    (),
    RomError,
>)
    ensures
        match result {
            Ok(_) => {
                &&& *old(session) matches Some(before)
                &&& *final(session) matches Some(after)
                &&& after.data == before.data
                &&& after.header == before.header
                &&& after.patches() == before.patches().insert(offset, data@)
            },
            Err(e) => e == RomError::NoImageLoaded && *old(session) is None && *final(session)
                is None,
        },
{
    match session {
        Some(state) => {
            let ghost before = state.modifications@;
            state.modifications.insert(offset, data);
            assert(crate::state::patch_set(state.modifications@) =~= crate::state::patch_set(
                before,
            ).insert(offset, data@));
            Ok(())
        },
        None => Err(RomError::NoImageLoaded),
    }
}

/// An image that was loaded can be saved as long as its patches fit in
/// memory: it holds a whole header, and merging patches never shortens it.
pub proof fn lemma_loaded_image_can_be_saved(data: Seq<u8>, patches: Map<u32, Seq<u8>>)
    requires
        load_error(data) is None,
        patches_fit(patches),
    ensures
        can_be_saved(data, patches),
{
    crate::patch::lemma_patched_keeps_length(data, patches);
}

/// The game code decides whether an image with a whole header is loaded:
/// it is loaded exactly where the four bytes spell `BPRE` or `BPEE`, and
/// refused as an unsupported variant for every other code.
pub proof fn lemma_game_code_decides_load(data: Seq<u8>)
    requires
        data.len() >= ROM_HEADER_BYTES,
    ensures
        load_error(data) is None <==> is_supported_code(game_code_bytes(data)),
        load_error(data) is Some ==> load_error(data) == Some(RomError::UnsupportedVariant),
{
}

/// The header of an image that is loaded names its game: the text of its
/// game code is `BPRE` or `BPEE`.
pub proof fn lemma_loaded_header_names_its_game(data: Seq<u8>)
    requires
        load_error(data) is None,
    ensures
        rom_header_at(data, 0).game_code == "BPRE"@ || rom_header_at(data, 0).game_code
            == "BPEE"@,
{
    let bytes = game_code_bytes(data);
    let chars = Seq::new(4, |i: int| bytes[i] as char);
    assert(bytes[0] == 0x42 && bytes[1] == 0x50 && bytes[3] == 0x45 && (bytes[2] == 0x52
        || bytes[2] == 0x45));
    crate::structures::lemma_ascii_bytes_are_their_text(bytes, chars);
    assert(rom_header_at(data, 0).game_code == chars);
    reveal_strlit("BPRE");
    reveal_strlit("BPEE");
    if bytes[2] == 0x52 {
        assert(chars =~= "BPRE"@);
    } else {
        assert(chars =~= "BPEE"@);
    }
}

/// Two saves in a row give the same bytes where the patches that were
/// pending before the first change nothing in the image: the first merges
/// them, the second finds none.
pub proof fn lemma_saves_in_a_row_agree(
    data: Seq<u8>,
    patches: Map<u32, Seq<u8>>,
    first: Seq<u8>,
    second: Seq<u8>,
)
    requires
        patched(data, patches) == data,
        first == saved_image(data, patches),
        second == saved_image(data, Map::<u32, Seq<u8>>::empty()),
    ensures
        first == second,
        second == with_checksum(data),
{
    crate::patch::lemma_no_patches_change_nothing(data);
}

} // verus!
