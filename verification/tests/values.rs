use iced_blur::geometry::{Rectangle, Size};
use iced_blur::levels::{
    align_dimension, align_size, clamp_passes, divisor_of_level, size_at_level, slot_of_level,
    MAX_LEVELS, SLOTS,
};
use iced_blur::parameters::{change_of, Change, Spread};
use iced_blur::scalar::{bits_are_nan, bits_of_power_of_two, bits_same_value};
use iced_blur::shader::{ParameterUpdate, Pipeline, Shader};
use iced_blur::texture::{Texture, TextureDescriptor, SAMPLER_BINDING, TEXTURE_BINDING};
use iced_blur::{blur, Blur, Length};

const SAMPLES: [f32; 14] = [
    0.0,
    -0.0,
    1.0,
    -1.0,
    0.1,
    2.5,
    50.0,
    f32::MIN_POSITIVE,
    f32::MAX,
    f32::MIN,
    f32::INFINITY,
    f32::NEG_INFINITY,
    f32::NAN,
    f32::EPSILON,
];

#[test]
fn equality_on_bits_is_equality_of_numbers() {
    for a in SAMPLES {
        for b in SAMPLES {
            assert_eq!(bits_same_value(a.to_bits(), b.to_bits()), a == b, "{a} {b}");
        }
    }
    let other_nan = f32::from_bits(0xFFC0_0001);
    assert!(other_nan.is_nan());
    assert!(!bits_same_value(other_nan.to_bits(), other_nan.to_bits()));
    assert!(!bits_same_value(0x7F80_0001, 1.0f32.to_bits()));
}

#[test]
fn not_a_number_is_told_from_its_bits() {
    for a in SAMPLES {
        assert_eq!(bits_are_nan(a.to_bits()), a.is_nan(), "{a}");
    }
    assert!(bits_are_nan(0x7F80_0001));
    assert!(bits_are_nan(0xFFFF_FFFF));
    assert!(!bits_are_nan(0x7F80_0000));
    assert!(!bits_are_nan(0xFF80_0000));
}

#[test]
fn powers_of_two_have_their_bits() {
    for exponent in 0..=200u32 {
        let bits = bits_of_power_of_two(exponent);
        assert_eq!(f32::from_bits(bits), 2f32.powi(exponent as i32), "{exponent}");
    }
    assert_eq!(bits_of_power_of_two(0), 0x3F80_0000);
    assert_eq!(bits_of_power_of_two(4), 16.0f32.to_bits());
    assert_eq!(bits_of_power_of_two(16), 65536.0f32.to_bits());
    assert_eq!(bits_of_power_of_two(128), f32::INFINITY.to_bits());
    assert_eq!(bits_of_power_of_two(u32::MAX), f32::INFINITY.to_bits());
}

#[test]
fn a_scalar_is_encoded_as_it_lies_in_memory() {
    for a in SAMPLES {
        let shader = Shader::new(1, a.to_bits());
        let bytes = Pipeline::new(Size::new(1, 1), shader, 4).parameter_bytes();
        assert_eq!(bytes, a.to_ne_bytes().to_vec());
        let mut pipeline = Pipeline::new(Size::new(1, 1), Shader::new(1, 0x7FC0_0000), 4);
        let update = pipeline.update(Size::new(1, 1), &shader);
        assert_eq!(update.parameters, ParameterUpdate::Write(a.to_ne_bytes().to_vec()));
    }
    let shader = Shader::new(1, 0x0102_0304);
    let bytes = Pipeline::new(Size::new(1, 1), shader, 4).parameter_bytes();
    assert!(bytes == vec![4, 3, 2, 1] || bytes == vec![1, 2, 3, 4]);
}

#[test]
fn passes_are_clamped_to_the_maximum() {
    assert_eq!(MAX_LEVELS, 16);
    assert_eq!(clamp_passes(0), 0);
    assert_eq!(clamp_passes(1), 1);
    assert_eq!(clamp_passes(16), 16);
    assert_eq!(clamp_passes(17), 16);
    assert_eq!(clamp_passes(255), 16);
    assert_eq!(clamp_passes(u32::MAX), 16);
}

#[test]
fn levels_halve_down_to_a_sixteenth() {
    let divisors: Vec<u32> = (0..8).map(divisor_of_level).collect();
    assert_eq!(divisors, vec![1, 2, 4, 8, 16, 16, 16, 16]);
    assert_eq!(divisor_of_level(u32::MAX), 16);
    assert_eq!(size_at_level(Size::new(1000, 37), 0), Size::new(1000, 37));
    assert_eq!(size_at_level(Size::new(1000, 37), 1), Size::new(500, 18));
    assert_eq!(size_at_level(Size::new(1000, 37), 3), Size::new(125, 4));
    assert_eq!(size_at_level(Size::new(1000, 37), 4), Size::new(62, 2));
    assert_eq!(size_at_level(Size::new(1000, 37), 9), Size::new(62, 2));
    assert_eq!(size_at_level(Size::new(15, 0), 4), Size::new(1, 1));
    assert_eq!(size_at_level(Size::new(u32::MAX, u32::MAX), 0), Size::new(u32::MAX, u32::MAX));
}

#[test]
fn levels_map_to_a_bounded_chain() {
    assert_eq!(SLOTS, 6);
    let slots: Vec<usize> = (0..12).map(slot_of_level).collect();
    assert_eq!(slots, vec![0, 1, 2, 3, 4, 5, 4, 5, 4, 5, 4, 5]);
    for level in 0..1000u32 {
        assert!(slot_of_level(level) < SLOTS);
        assert_ne!(slot_of_level(level), slot_of_level(level + 1));
        let region = Size::new(777, 333);
        assert_eq!(
            size_at_level(region, slot_of_level(level) as u32),
            size_at_level(region, level)
        );
    }
    assert_eq!(slot_of_level(u32::MAX), 5);
}

#[test]
fn dimensions_round_up_to_powers_of_two() {
    assert_eq!(align_dimension(0), 1);
    assert_eq!(align_dimension(1), 1);
    assert_eq!(align_dimension(2), 2);
    assert_eq!(align_dimension(3), 4);
    assert_eq!(align_dimension(5), 8);
    assert_eq!(align_dimension(128), 128);
    assert_eq!(align_dimension(129), 256);
    assert_eq!(align_dimension(0x7FFF_FFFF), 0x8000_0000);
    assert_eq!(align_dimension(0x8000_0000), 0x8000_0000);
    assert_eq!(align_dimension(0x8000_0001), 0x8000_0000);
    assert_eq!(align_dimension(u32::MAX), 0x8000_0000);
    for pixels in 1..5000u32 {
        assert_eq!(align_dimension(pixels), pixels.next_power_of_two());
    }
    assert_eq!(align_size(Size::new(100, 4097)), Size::new(128, 8192));
}

#[test]
fn spreads_change_by_kind_and_value() {
    let one = Spread::Uniform(1.0f32.to_bits());
    let two = Spread::Uniform(2.0f32.to_bits());
    assert_eq!(change_of(Spread::Binary, Spread::Binary), Change::Keep);
    assert_eq!(change_of(one, one), Change::Keep);
    assert_eq!(change_of(one, two), Change::Write);
    assert_eq!(change_of(one, Spread::Binary), Change::Create);
    assert_eq!(change_of(Spread::Binary, one), Change::Create);
    let nan = Spread::Uniform(f32::NAN.to_bits());
    assert_eq!(change_of(nan, nan), Change::Write);
    let zero = Spread::Uniform(0.0f32.to_bits());
    let minus_zero = Spread::Uniform((-0.0f32).to_bits());
    assert_eq!(change_of(zero, minus_zero), Change::Keep);
}

#[test]
fn a_texture_is_replaced_only_for_another_size() {
    let mut texture = Texture::new(Size::new(30, 20));
    assert_eq!(texture.size(), Size::new(30, 20));
    assert!(!texture.update(Size::new(30, 20)));
    assert_eq!(texture.size(), Size::new(30, 20));
    assert!(texture.update(Size::new(30, 21)));
    assert_eq!(texture.size(), Size::new(30, 21));
    assert!(texture.update(Size::new(0, 0)));
    assert_eq!(texture.size(), Size::new(1, 1));
    assert!(!texture.update(Size::new(1, 0)));
    assert!(!texture.update(Size::new(0, 1)));
    assert_eq!(Texture::new(Size::new(0, 9)).size(), Size::new(1, 9));
}

#[test]
fn a_texture_is_described_for_the_device() {
    assert_eq!(TEXTURE_BINDING, 0);
    assert_eq!(SAMPLER_BINDING, 1);
    assert_eq!(
        Texture::new(Size::new(12, 0)).descriptor(),
        TextureDescriptor {
            size: Size::new(12, 1),
            mip_level_count: 1,
            sample_count: 1,
            render_attachment: true,
            texture_binding: true,
            copy_destination: true,
        }
    );
}

#[test]
fn rectangles_and_sizes_keep_their_fields() {
    let rectangle = Rectangle::new(1, 2, 3, 4);
    assert_eq!(rectangle, Rectangle { x: 1, y: 2, width: 3, height: 4 });
    assert_eq!(Size::new(3, 4), Size { width: 3, height: 4 });
}

#[test]
fn a_blur_has_no_extent_unless_told() {
    let widget = blur(3);
    assert_eq!(widget.size(), (None, None));
    assert_eq!(widget.shader().passes, 3);
    assert_eq!(widget.shader().spread, Spread::Binary);
    let same = Blur::new(3);
    assert_eq!(same.size(), widget.size());
    assert_eq!(same.shader(), widget.shader());
}

#[test]
fn a_blur_takes_extent_and_parameters() {
    let widget = blur(2).width(Length::Fill);
    assert_eq!(widget.size(), (Some(Length::Fill), None));
    let widget = widget.height(Length::FillPortion(3));
    assert_eq!(widget.size(), (Some(Length::Fill), Some(Length::FillPortion(3))));
    assert_eq!(widget.shader().passes, 2);
    let widget = widget.height(Length::Shrink);
    assert_eq!(widget.size(), (Some(Length::Fill), Some(Length::Shrink)));
    let widget = widget.passes(7, 1.5f32.to_bits());
    assert_eq!(widget.shader().passes, 7);
    assert_eq!(widget.shader().spread, Spread::Uniform(1.5f32.to_bits()));
    assert_eq!(widget.size(), (Some(Length::Fill), Some(Length::Shrink)));
    let widget = widget.radius(255).width(Length::Fixed(40.0f32.to_bits()));
    assert_eq!(widget.shader().passes, 255);
    assert_eq!(widget.shader().spread, Spread::Binary);
    assert_eq!(
        widget.size(),
        (Some(Length::Fixed(40.0f32.to_bits())), Some(Length::Shrink))
    );
}
