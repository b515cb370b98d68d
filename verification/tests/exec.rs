use haldvance::exec::{draw_frame, ConsoleState, ControlModes, EnterMode, GameState};
use haldvance::input::{Key, Keys};
use haldvance::planckrand::Rng;
use haldvance::video::colmod::{Bit4, Bit8, ColorMode};
use haldvance::video::memory::{VideoMemory, VolMemcopy};
use haldvance::video::mode::{Affine, Mixed, Mode, Text, Type};
use haldvance::video::palette::{Bank, Dynamic, Full, Palette, Type as PaletteType};
use haldvance::video::tile::cbb;
use haldvance::video::tile::set::Tileset;
use haldvance::video::Control;

static WORDS: [u16; 5] = [1, 2, 3, 4, 5];
static BANK: [u16; 16] = [3; 16];
static FULL: [u16; 256] = [4; 256];
static BIG: [u16; 0x2001] = [0x7777; 0x2001];

struct Game {
    wish: Option<EnterMode>,
}

impl GameState for Game {
    fn logic(&mut self, console: &mut ConsoleState) -> Option<EnterMode> {
        if console.input.just_pressed(Key::A()) {
            self.wish.take()
        } else {
            None
        }
    }

    fn text_draw(&self, _console: &mut ConsoleState, video: &mut Control<Text>) {
        video.memory.backgrounds[0] = 1;
    }

    fn mixed_draw(&self, _console: &mut ConsoleState, video: &mut Control<Mixed>) {
        video.memory.backgrounds[0] = 2;
    }

    fn affine_draw(&self, _console: &mut ConsoleState, video: &mut Control<Affine>) {
        video.memory.backgrounds[0] = 3;
    }
}

fn memory_of(video: ControlModes) -> VideoMemory {
    match video {
        ControlModes::Text(control) => control.release(),
        ControlModes::Mixed(control) => control.release(),
        ControlModes::Affine(control) => control.release(),
    }
}

#[test]
fn a_frame_is_drawn_in_the_mode_of_the_display() {
    let mut game = Game { wish: Some(EnterMode::Affine) };
    let mut console = ConsoleState::default();
    let video = ControlModes::Text(Control::<Text>::init(VideoMemory::new()));
    console.begin_frame(Keys(0xffff));
    let request = game.logic(&mut console);
    assert_eq!(None, request);
    let video = draw_frame(&game, &mut console, video, request);
    assert!(matches!(video, ControlModes::Text(_)));
    console.begin_frame(Keys(0xfffe));
    let request = game.logic(&mut console);
    assert_eq!(Some(EnterMode::Affine), request);
    let video = draw_frame(&game, &mut console, video, request);
    assert!(matches!(video, ControlModes::Affine(_)));
    let memory = memory_of(video);
    assert_eq!(3, memory.backgrounds[0]);
    assert_eq!(2, memory.display_control);
    assert_eq!(2, console.frame);
}

#[test]
fn entering_a_mode_changes_the_kind_of_control() {
    let video = ControlModes::Text(Control::<Text>::init(VideoMemory::new()));
    let video = EnterMode::Mixed.enter(video);
    assert!(matches!(video, ControlModes::Mixed(_)));
    let video = EnterMode::Mixed.enter(video);
    assert!(matches!(video, ControlModes::Mixed(_)));
    let video = EnterMode::Text.enter(video);
    assert!(matches!(video, ControlModes::Text(_)));
    let video = EnterMode::Affine.enter(video);
    assert_eq!(2, memory_of(video).display_control);
}

#[test]
fn begin_frame_shifts_the_buttons_and_counts() {
    let mut console = ConsoleState::default();
    assert_eq!(0, console.frame);
    console.begin_frame(Keys(0x1234));
    console.begin_frame(Keys(0x5678));
    assert_eq!(Keys(0x1234), console.input.previous);
    assert_eq!(Keys(0x5678), console.input.current);
    assert_eq!(2, console.frame);
    console.frame = usize::MAX;
    console.begin_frame(Keys(0));
    assert_eq!(0, console.frame);
}

fn runs(console: &ConsoleState, offset: isize, frequency: usize) -> bool {
    let mut ran = 0;
    console.every(offset, frequency, |seen| {
        assert_eq!(console.frame, seen.frame);
        ran += 1;
    });
    assert!(ran <= 1);
    ran == 1
}

#[test]
fn every_calls_in_one_frame_of_so_many() {
    let mut console = ConsoleState::default();
    console.frame = 64;
    assert!(runs(&console, 0, 64));
    assert!(!runs(&console, 1, 64));
    assert!(runs(&console, -32, 32));
    assert!(runs(&console, 32, 96));
    assert!(!runs(&console, -1, 64));
    assert!(runs(&console, -64, 7));
    console.frame = 0;
    assert!(runs(&console, -1, 5));
    assert!(!runs(&console, -1, 7));
    console.frame = usize::MAX;
    assert!(runs(&console, 1, 1000));
    assert!(runs(&console, 11, 10));
}

#[test]
fn the_console_starts_with_the_default_generator() {
    let mut console = ConsoleState::default();
    assert_eq!(Rng::new(haldvance::planckrand::SEED_STEP).u64(), console.rng.u64());
}

#[test]
fn modes_and_depths_have_codes() {
    assert_eq!(0, Type::Text.bits());
    assert_eq!(1, Type::Mixed.bits());
    assert_eq!(2, Type::Affine.bits());
    assert_eq!(Type::Text, Text::mode_type());
    assert_eq!(Type::Mixed, Mixed::mode_type());
    assert_eq!(Type::Affine, Affine::mode_type());
    assert!(Bit8::raw_repr());
    assert!(!Bit4::raw_repr());
}

#[test]
fn palettes_know_their_kind() {
    assert_eq!(PaletteType::Dynamic, Dynamic::palette_type());
    assert_eq!(PaletteType::Bank, Bank::palette_type());
    assert_eq!(PaletteType::Full, Full::palette_type());
    assert_eq!(&[1, 2, 3, 4, 5], Dynamic::new(&WORDS).get());
    assert_eq!(16, Bank::new(&BANK).get().len());
    assert_eq!(256, Full::new(&FULL).get().len());
}

#[test]
fn palettes_are_copied_as_far_as_they_fit() {
    let mut control = Control::<Text>::init(VideoMemory::new());
    control.load_palette(&WORDS);
    assert_eq!([1, 2, 3, 4, 5, 0], control.memory.background_palette[0..6]);
    control.load_object_palette(254, &WORDS);
    assert_eq!([0, 1, 2], control.memory.object_palette[253..256]);
    control.load_object_palette(256, &WORDS);
    control.load_object_palette(usize::MAX, &WORDS);
    assert_eq!(2, control.memory.object_palette.iter().filter(|word| **word != 0).count());
    assert_eq!(5, control.memory.background_palette.iter().filter(|word| **word != 0).count());
}

#[test]
fn a_tile_set_fills_character_blocks_up_to_the_last() {
    let mut control = Control::<Text>::init(VideoMemory::new());
    control.load_tileset(cbb::Slot::new(1), &Tileset::new(&WORDS));
    assert_eq!([0, 1, 2, 3, 4, 5, 0], control.memory.backgrounds[0x1fff..0x2006]);
    control.load_tileset(cbb::Slot::new(3), &Tileset::new(&BIG));
    assert_eq!(0x7777, control.memory.backgrounds[0x6000]);
    assert_eq!(0x7777, control.memory.backgrounds[0x7fff]);
    assert_eq!(0x8000, control.memory.backgrounds.len());
    let mut control = control.enter_mode::<Affine>();
    control.load_tileset(cbb::Slot::new(2), &Tileset::new(&BIG));
    assert_eq!(0x7777, control.memory.backgrounds[0x4000]);
    assert_eq!(0x7777, control.memory.backgrounds[0x6000]);
    assert_eq!(0, control.memory.backgrounds[0x3fff]);
    assert_eq!(&WORDS, Tileset::<Bit8>::new(&WORDS).get());
}

#[test]
fn character_blocks_follow_each_other() {
    assert_eq!(4, cbb::Slot::MAX_BLOCKS);
    assert_eq!(Some(cbb::Slot(3)), cbb::Slot::new(1).add(2));
    assert_eq!(None, cbb::Slot::new(1).add(3));
    assert_eq!(None, cbb::Slot::new(0).add(usize::MAX));
    assert_eq!(2, cbb::Slot::new(2).get());
}

#[test]
fn memory_is_copied_as_much_as_fits() {
    let mut store = vec![0_u16; 6];
    store.write_slice_at_offset(4, &[1, 2, 3]);
    assert_eq!(vec![0, 0, 0, 0, 1, 2], store);
    store.write_slice(&[9]);
    assert_eq!(vec![9, 0, 0, 0, 1, 2], store);
    store.write_slice_at_offset(6, &[7]);
    assert_eq!(vec![9, 0, 0, 0, 1, 2], store);
    let mut out = [5_u16; 4];
    store.read_offset_into_slice(4, &mut out);
    assert_eq!([1, 2, 5, 5], out);
    store.read_into_slice(&mut out);
    assert_eq!([9, 0, 0, 0], out);
    store.read_offset_into_slice(9, &mut out);
    assert_eq!([9, 0, 0, 0], out);
}

#[test]
fn video_memory_starts_at_zero() {
    let memory = VideoMemory::new();
    assert_eq!(0, memory.display_control);
    assert_eq!(vec![0; 4], memory.layer_control);
    assert_eq!(0x8000, memory.backgrounds.len());
    assert_eq!(0x4000, memory.object_tiles.len());
    assert_eq!(256, memory.background_palette.len());
    assert_eq!(256, memory.object_palette.len());
    assert_eq!(128, memory.objects.len());
    assert_eq!(4, memory.text_scroll.len());
    assert_eq!(2, memory.affine_origin.len());
    assert_eq!(2, memory.affine_matrix.len());
    assert!(memory.backgrounds.iter().all(|word| *word == 0));
}
