use iced_blur::geometry::Size;
use iced_blur::parameters::{stride_for, Spread, MAX_ALIGNMENT};
use iced_blur::shader::{ParameterUpdate, Pipeline, Resize, Shader};

fn sizes(pipeline: &Pipeline) -> Vec<(u32, u32)> {
    pipeline.textures().iter().map(|t| (t.size().width, t.size().height)).collect()
}

#[test]
fn first_preparation_creates_the_pipeline() {
    let shader = Shader::new(3, 1.0f32.to_bits());
    let mut storage = None;
    let outcome = shader.prepare(&mut storage, Size::new(100, 100), 256);
    assert!(outcome.created);
    assert!(outcome.update.resized.is_empty());
    assert_eq!(outcome.update.parameters, ParameterUpdate::Keep);
    let pipeline = storage.as_ref().unwrap();
    assert_eq!(pipeline.region(), Size::new(100, 100));
    assert_eq!(pipeline.blur(), shader);
    assert_eq!(pipeline.stride(), 256);
    assert_eq!(sizes(pipeline), vec![(100, 100), (50, 50), (25, 25), (12, 12), (6, 6), (6, 6)]);

    let outcome = shader.prepare(&mut storage, Size::new(100, 100), 256);
    assert!(!outcome.created);
    assert!(outcome.update.resized.is_empty());
    assert_eq!(outcome.update.parameters, ParameterUpdate::Keep);
}

#[test]
fn resizing_replaces_every_slot_before_the_next_frame() {
    let shader = Shader::new(4, 1.0f32.to_bits());
    let mut storage = None;
    let _ = shader.prepare(&mut storage, Size::new(100, 100), 256);
    let outcome = shader.prepare(&mut storage, Size::new(400, 300), 256);
    assert!(!outcome.created);
    assert_eq!(
        outcome.update.resized,
        vec![
            Resize { slot: 0, size: Size::new(400, 300) },
            Resize { slot: 1, size: Size::new(200, 150) },
            Resize { slot: 2, size: Size::new(100, 75) },
            Resize { slot: 3, size: Size::new(50, 37) },
            Resize { slot: 4, size: Size::new(25, 18) },
            Resize { slot: 5, size: Size::new(25, 18) },
        ]
    );
    let pipeline = storage.as_ref().unwrap();
    assert_eq!(pipeline.region(), Size::new(400, 300));
    assert_eq!(
        sizes(pipeline),
        vec![(400, 300), (200, 150), (100, 75), (50, 37), (25, 18), (25, 18)]
    );

    let outcome = shader.prepare(&mut storage, Size::new(400, 300), 256);
    assert!(outcome.update.resized.is_empty());
    assert_eq!(
        sizes(storage.as_ref().unwrap()),
        vec![(400, 300), (200, 150), (100, 75), (50, 37), (25, 18), (25, 18)]
    );
}

#[test]
fn only_slots_of_another_size_are_replaced() {
    let shader = Shader::new(4, 1.0f32.to_bits());
    let mut pipeline = Pipeline::new(Size::new(16, 16), shader, 256);
    assert_eq!(sizes(&pipeline), vec![(16, 16), (8, 8), (4, 4), (2, 2), (1, 1), (1, 1)]);
    let update = pipeline.update(Size::new(17, 16), &shader);
    assert_eq!(update.resized, vec![Resize { slot: 0, size: Size::new(17, 16) }]);
    let update = pipeline.update(Size::new(17, 3), &shader);
    assert_eq!(
        update.resized,
        vec![
            Resize { slot: 0, size: Size::new(17, 3) },
            Resize { slot: 1, size: Size::new(8, 1) },
            Resize { slot: 2, size: Size::new(4, 1) },
            Resize { slot: 3, size: Size::new(2, 1) },
        ]
    );
    assert_eq!(sizes(&pipeline), vec![(17, 3), (8, 1), (4, 1), (2, 1), (1, 1), (1, 1)]);
}

#[test]
fn an_empty_region_still_has_textures() {
    let shader = Shader::new(2, 1.0f32.to_bits());
    let pipeline = Pipeline::new(Size::new(0, 0), shader, 256);
    assert_eq!(pipeline.region(), Size::new(0, 0));
    assert_eq!(sizes(&pipeline), vec![(1, 1); 6]);
    let pipeline = Pipeline::new(Size::new(0, 40), shader, 256);
    assert_eq!(sizes(&pipeline), vec![(1, 40), (1, 20), (1, 10), (1, 5), (1, 2), (1, 2)]);
}

#[test]
fn a_radius_works_on_powers_of_two() {
    let shader = Shader::with_radius(3);
    assert_eq!(shader.region(Size::new(100, 300)), Size::new(128, 512));
    assert_eq!(shader.region(Size::new(128, 128)), Size::new(128, 128));
    assert_eq!(shader.region(Size::new(0, 1)), Size::new(1, 1));
    let mut storage = None;
    let _ = shader.prepare(&mut storage, Size::new(100, 300), 256);
    let pipeline = storage.as_ref().unwrap();
    assert_eq!(pipeline.region(), Size::new(128, 512));
    assert_eq!(
        sizes(pipeline),
        vec![(128, 512), (64, 256), (32, 128), (16, 64), (8, 32), (8, 32)]
    );
    let outcome = shader.prepare(&mut storage, Size::new(120, 400), 256);
    assert!(outcome.update.resized.is_empty());

    let uniform = Shader::new(3, 1.0f32.to_bits());
    assert_eq!(uniform.region(Size::new(100, 300)), Size::new(100, 300));
}

#[test]
fn a_changed_offset_is_written_once() {
    let mut storage = None;
    let _ = Shader::new(3, 1.0f32.to_bits()).prepare(&mut storage, Size::new(10, 10), 256);
    let changed = Shader::new(3, 2.5f32.to_bits());
    let outcome = changed.prepare(&mut storage, Size::new(10, 10), 256);
    assert_eq!(
        outcome.update.parameters,
        ParameterUpdate::Write(2.5f32.to_ne_bytes().to_vec())
    );
    assert_eq!(storage.as_ref().unwrap().blur(), changed);
    let outcome = changed.prepare(&mut storage, Size::new(10, 10), 256);
    assert_eq!(outcome.update.parameters, ParameterUpdate::Keep);
    let more = Shader::new(9, 2.5f32.to_bits());
    let outcome = more.prepare(&mut storage, Size::new(10, 10), 256);
    assert_eq!(outcome.update.parameters, ParameterUpdate::Keep);
    assert_eq!(storage.as_ref().unwrap().blur(), more);
}

#[test]
fn zero_of_either_sign_is_the_same_offset() {
    let mut storage = None;
    let _ = Shader::new(1, 0.0f32.to_bits()).prepare(&mut storage, Size::new(10, 10), 256);
    let outcome = Shader::new(1, (-0.0f32).to_bits()).prepare(&mut storage, Size::new(10, 10), 256);
    assert_eq!(outcome.update.parameters, ParameterUpdate::Keep);
    let outcome = Shader::new(1, 1.0f32.to_bits()).prepare(&mut storage, Size::new(10, 10), 256);
    assert_eq!(
        outcome.update.parameters,
        ParameterUpdate::Write(1.0f32.to_ne_bytes().to_vec())
    );
}

#[test]
fn an_offset_that_is_no_number_is_written_every_time() {
    let shader = Shader::new(1, f32::NAN.to_bits());
    let mut storage = None;
    let outcome = shader.prepare(&mut storage, Size::new(10, 10), 256);
    assert!(outcome.created);
    assert_eq!(
        outcome.update.parameters,
        ParameterUpdate::Write(f32::NAN.to_ne_bytes().to_vec())
    );
    let outcome = shader.prepare(&mut storage, Size::new(10, 10), 256);
    assert_eq!(
        outcome.update.parameters,
        ParameterUpdate::Write(f32::NAN.to_ne_bytes().to_vec())
    );
}

#[test]
fn the_buffer_is_created_anew_when_the_kind_of_spread_changes() {
    let mut storage = None;
    let _ = Shader::new(2, 1.0f32.to_bits()).prepare(&mut storage, Size::new(64, 64), 32);
    let radius = Shader::with_radius(2);
    let outcome = radius.prepare(&mut storage, Size::new(64, 64), 32);
    let bytes = match outcome.update.parameters {
        ParameterUpdate::Create(bytes) => bytes,
        other => panic!("a table needs a buffer of its own, not {other:?}"),
    };
    assert_eq!(bytes.len(), 17 * 32);
    for level in 0..17usize {
        let record = &bytes[level * 32..(level + 1) * 32];
        assert_eq!(record[..4], 2f32.powi(level as i32).to_ne_bytes());
        assert!(record[4..].iter().all(|byte| *byte == 0));
    }
    let outcome = radius.prepare(&mut storage, Size::new(64, 64), 32);
    assert_eq!(outcome.update.parameters, ParameterUpdate::Keep);
    let back = Shader::new(2, 1.0f32.to_bits());
    let outcome = back.prepare(&mut storage, Size::new(64, 64), 32);
    assert_eq!(
        outcome.update.parameters,
        ParameterUpdate::Create(1.0f32.to_ne_bytes().to_vec())
    );
    let outcome = back.prepare(&mut storage, Size::new(64, 64), 32);
    assert_eq!(outcome.update.parameters, ParameterUpdate::Keep);
}

#[test]
fn the_buffer_starts_as_one_scalar_or_the_whole_table() {
    let radius = Pipeline::new(Size::new(8, 8), Shader::with_radius(4), 256);
    let bytes = radius.parameter_bytes();
    assert_eq!(bytes.len(), 17 * 256);
    for level in 0..17usize {
        let record = &bytes[level * 256..(level + 1) * 256];
        assert_eq!(record[..4], 2f32.powi(level as i32).to_ne_bytes());
        assert!(record[4..].iter().all(|byte| *byte == 0));
    }
    assert_eq!(bytes[256..260], 2.0f32.to_ne_bytes());

    let uniform = Pipeline::new(Size::new(8, 8), Shader::new(4, 0.75f32.to_bits()), 256);
    assert_eq!(uniform.parameter_bytes(), 0.75f32.to_ne_bytes().to_vec());
    let other = Pipeline::new(Size::new(8, 8), Shader::new(0, 50.0f32.to_bits()), 4);
    assert_eq!(other.parameter_bytes(), 50.0f32.to_ne_bytes().to_vec());
}

#[test]
fn the_stride_holds_a_scalar_at_the_alignment() {
    assert_eq!(stride_for(0), 4);
    assert_eq!(stride_for(1), 4);
    assert_eq!(stride_for(2), 4);
    assert_eq!(stride_for(3), 6);
    assert_eq!(stride_for(4), 4);
    assert_eq!(stride_for(32), 32);
    assert_eq!(stride_for(256), 256);
    assert_eq!(stride_for(MAX_ALIGNMENT), MAX_ALIGNMENT);
    assert_eq!(stride_for(MAX_ALIGNMENT + 1), MAX_ALIGNMENT);
    assert_eq!(stride_for(u32::MAX), MAX_ALIGNMENT);
    let pipeline = Pipeline::new(Size::new(8, 8), Shader::with_radius(1), 3);
    assert_eq!(pipeline.stride(), 6);
    assert_eq!(pipeline.parameter_bytes().len(), 17 * 6);
}

#[test]
fn the_stride_is_kept_from_creation() {
    let shader = Shader::with_radius(1);
    let mut storage = None;
    let _ = shader.prepare(&mut storage, Size::new(8, 8), 64);
    let _ = shader.prepare(&mut storage, Size::new(8, 8), 256);
    assert_eq!(storage.as_ref().unwrap().stride(), 64);
}

#[test]
fn constructors_keep_what_they_are_given() {
    assert_eq!(Shader::new(5, 7), Shader { passes: 5, spread: Spread::Uniform(7) });
    assert_eq!(Shader::with_radius(9), Shader { passes: 9, spread: Spread::Binary });
}
