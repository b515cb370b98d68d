use haldvance::video::colmod::{Bit4, Bit8};
use haldvance::video::memory::{Origin, RotationScale, VideoMemory};
use haldvance::video::mode::{Affine, Mixed, Text};
use haldvance::video::object::TileMapping;
use haldvance::video::structs::Pos;
use haldvance::video::tile::layer::{affine, text, MixedSlot};
use haldvance::video::tile::map::{AffineSize, TextSize};
use haldvance::video::tile::{cbb, sbb};
use haldvance::video::{Control, Layer, Priority};

fn text_control() -> Control<Text> {
    Control::<Text>::init(VideoMemory::new())
}

#[test]
fn init_puts_the_display_in_text_mode() {
    let mut memory = VideoMemory::new();
    memory.display_control = 0x1f42;
    let control = Control::<Text>::init(memory);
    assert_eq!(0x1f40, control.memory.display_control);
}

#[test]
fn entering_a_mode_writes_its_code_and_keeps_memory() {
    let mut control = text_control();
    control.enable_layer(Layer::<Text>::_0());
    control.memory.backgrounds[5] = 0xbeef;
    let control = control.enter_mode::<Affine>();
    assert_eq!(0x0102, control.memory.display_control);
    assert_eq!(0xbeef, control.memory.backgrounds[5]);
    let control = control.enter_mode::<Mixed>();
    assert_eq!(0x0101, control.memory.display_control);
    let control = control.enter_mode::<Text>();
    assert_eq!(0x0100, control.memory.display_control);
    assert_eq!(0xbeef, control.release().backgrounds[5]);
}

#[test]
fn layers_are_shown_and_hidden_by_their_bits() {
    let mut control = text_control();
    control.enable_layer(Layer::<Text>::_0());
    assert_eq!(0x0100, control.memory.display_control);
    control.enable_layer(Layer::<Text>::_3());
    assert_eq!(0x0900, control.memory.display_control);
    control.enable_layer(Layer::<Text>::_1());
    control.enable_layer(Layer::<Text>::_2());
    assert_eq!(0x0f00, control.memory.display_control);
    control.disable_layer(Layer::<Text>::_0());
    assert_eq!(0x0e00, control.memory.display_control);
    control.disable_layer(Layer::<Text>::_0());
    assert_eq!(0x0e00, control.memory.display_control);
    let mut control = control.enter_mode::<Affine>();
    assert_eq!(0x0e02, control.memory.display_control);
    control.disable_layer(Layer::<Affine>::_2());
    control.disable_layer(Layer::<Affine>::_3());
    assert_eq!(0x0202, control.memory.display_control);
    let mut control = control.enter_mode::<Mixed>();
    control.enable_layer(Layer::<Mixed>::_2());
    control.disable_layer(Layer::<Mixed>::_1());
    control.enable_layer(Layer::<Mixed>::_0());
    assert_eq!(0x0501, control.memory.display_control);
}

#[test]
fn objects_are_shown_and_laid_out_by_their_bits() {
    let mut control = text_control();
    control.enable_objects();
    assert_eq!(0x1000, control.memory.display_control);
    control.set_object_tile_mapping(TileMapping::OneDim);
    assert_eq!(0x1040, control.memory.display_control);
    control.set_object_tile_mapping(TileMapping::TwoDim);
    assert_eq!(0x1000, control.memory.display_control);
    control.disable_objects();
    assert_eq!(0x0000, control.memory.display_control);
}

#[test]
fn reset_display_control_keeps_only_the_mode() {
    let mut control = text_control().enter_mode::<Affine>();
    control.enable_objects();
    control.enable_layer(Layer::<Affine>::_2());
    control.reset_display_control();
    assert_eq!(0x0002, control.memory.display_control);
}

#[test]
fn a_layer_is_written_once_when_committed() {
    let mut control = text_control();
    control.memory.layer_control[1] = 0b0100_0011_0000_1001;
    let mut layer = control.layer(text::Slot::_1);
    assert_eq!(Priority::_1, layer.set_priority(Priority::_2));
    assert_eq!(3, layer.set_sbb(sbb::Slot::new(17)).0);
    assert_eq!(2, layer.set_cbb(cbb::Slot::new(1)).0);
    layer.set_color_mode::<Bit8>();
    layer.set_size(TextSize::Large);
    assert_eq!(0b0100_0011_0000_1001, layer.memory.layer_control[1]);
    layer.commit();
    assert_eq!(0b1101_0001_1000_0110, control.memory.layer_control[1]);
    assert_eq!(0, control.memory.layer_control[0]);
    assert_eq!(0, control.memory.layer_control[2]);
    assert_eq!(0, control.memory.layer_control[3]);
}

#[test]
fn a_handle_that_is_not_committed_writes_nothing() {
    let mut control = text_control();
    {
        let mut layer = control.layer(text::Slot::_2);
        layer.set_priority(Priority::_3);
        layer.set_sbb(sbb::Slot::new(31));
    }
    assert_eq!(0, control.memory.layer_control[2]);
}

#[test]
fn setters_give_the_value_that_was_set_before() {
    let mut control = text_control();
    let mut layer = control.layer(text::Slot::_0);
    assert_eq!(Priority::_0, layer.set_priority(Priority::_3));
    assert_eq!(Priority::_3, layer.set_priority(Priority::_1));
    assert_eq!(0, layer.set_sbb(sbb::Slot::new(22)).0);
    assert_eq!(22, layer.set_sbb(sbb::Slot::new(4)).0);
    assert_eq!(0, layer.set_cbb(cbb::Slot::new(3)).0);
    assert_eq!(3, layer.set_cbb(cbb::Slot::new(0)).0);
    layer.set_color_mode::<Bit8>();
    assert_eq!(0x0481, layer.value);
    layer.set_color_mode::<Bit4>();
    assert_eq!(0x0401, layer.value);
}

#[test]
fn text_layers_scroll_at_once() {
    let mut control = text_control();
    let mut layer = control.layer(text::Slot::_3);
    layer.set_x_offset(7);
    assert_eq!(Pos { x: 7, y: 0 }, layer.memory.text_scroll[3]);
    layer.set_y_offset(9);
    assert_eq!(Pos { x: 7, y: 9 }, layer.memory.text_scroll[3]);
    drop(layer);
    assert_eq!(Pos { x: 7, y: 9 }, control.memory.text_scroll[3]);
    assert_eq!(Pos { x: 0, y: 0 }, control.memory.text_scroll[0]);
    assert_eq!(0, control.memory.layer_control[3]);
}

#[test]
fn affine_layers_have_an_origin_and_a_matrix() {
    let mut control = text_control().enter_mode::<Affine>();
    let mut layer = control.layer(affine::Slot::_3);
    layer.set_x_offset(-300);
    layer.set_y_offset(70000);
    layer.set_transform(256, -1, 2, 255);
    layer.set_overflow(true);
    layer.set_size(AffineSize::Quad);
    layer.set_sbb(sbb::Slot::new(20));
    layer.commit();
    assert_eq!(Origin { x: -300, y: 70000 }, control.memory.affine_origin[1]);
    assert_eq!(Origin { x: 0, y: 0 }, control.memory.affine_origin[0]);
    assert_eq!(
        RotationScale { t_00: 256, t_01: -1, t_10: 2, t_11: 255 },
        control.memory.affine_matrix[1]
    );
    assert_eq!(0b1011_0100_0000_0000, control.memory.layer_control[3]);
    let mut layer = control.layer(affine::Slot::_2);
    layer.set_overflow(true);
    layer.set_overflow(false);
    layer.set_x_offset(5);
    layer.commit();
    assert_eq!(0, control.memory.layer_control[2]);
    assert_eq!(Origin { x: 5, y: 0 }, control.memory.affine_origin[0]);
}

#[test]
fn mixed_mode_has_two_text_layers_and_one_affine_layer() {
    let mut control = text_control().enter_mode::<Mixed>();
    assert_eq!(text::Slot::_0, MixedSlot::_0.into_pure_text());
    assert_eq!(text::Slot::_1, MixedSlot::_1.into_pure_text());
    let mut layer = control.text_layer(MixedSlot::_1);
    layer.set_size(TextSize::Tall);
    layer.commit();
    let mut layer = control.affine_layer();
    layer.set_size(AffineSize::Octo);
    layer.set_priority(Priority::_1);
    layer.commit();
    assert_eq!(0x8000, control.memory.layer_control[1]);
    assert_eq!(0xc001, control.memory.layer_control[2]);
}

#[test]
fn priorities_have_codes() {
    assert_eq!(0, Priority::_0.bits());
    assert_eq!(3, Priority::_3.bits());
    assert_eq!(Priority::_2, Priority::new_unchecked(2));
    assert_eq!(Priority::_1, Priority::new_unchecked(1));
}
