use slv_rust::effects::{EffectColor, EffectConfig, EffectManager, EffectType, EffectTypeData, Position, HALF_SECOND_BITS};

#[test]
fn test_effect_type_conversion() {
    assert_eq!(u8::from(EffectType::PointAt), 9);
    assert_eq!(u8::from(EffectType::Beam), 4);
    assert_eq!(u8::from(EffectType::Sphere), 13);
}

#[test]
fn test_effect_color() {
    let white = EffectColor::white();
    assert_eq!(white.to_bytes(), vec![255, 255, 255, 255]);

    let red = EffectColor::red();
    assert_eq!(red.to_bytes(), vec![255, 0, 0, 255]);
}

#[test]
fn test_point_at_type_data() {
    let source = Position::new(100.0f32.to_bits(), 200.0f32.to_bits(), 300.0f32.to_bits());
    let target = Position::new(150.0f32.to_bits(), 250.0f32.to_bits(), 350.0f32.to_bits());

    let type_data = EffectTypeData::PointAt { source_pos: source, target_pos: target, target_id: None };

    let bytes = type_data.to_bytes();
    assert!(bytes.len() > 48);

    assert!(bytes.starts_with(&[0u8; 32]));
}

#[test]
fn point_at_layout_places_coordinates_little_endian() {
    let source = Position::new(100.0f32.to_bits(), 200.0f32.to_bits(), 300.0f32.to_bits());
    let target = Position::new(150.0f32.to_bits(), 250.0f32.to_bits(), 350.0f32.to_bits());
    let bytes = EffectTypeData::PointAt { source_pos: source, target_pos: target, target_id: None }.to_bytes();
    assert_eq!(bytes.len(), 61);
    assert_eq!(&bytes[32..36], &100.0f32.to_le_bytes());
    assert_eq!(&bytes[40..44], &300.0f32.to_le_bytes());
    assert_eq!(&bytes[44..48], &[0, 0, 0, 0]);
    assert_eq!(&bytes[48..52], &150.0f32.to_le_bytes());
    assert_eq!(bytes[60], 0);
}

#[test]
fn beam_sphere_and_raw_layouts() {
    let a = Position::new(1.0f32.to_bits(), 2.0f32.to_bits(), 3.0f32.to_bits());
    let b = Position::origin();
    let beam = EffectTypeData::Beam { source_pos: a, target_pos: b }.to_bytes();
    assert_eq!(beam.len(), 24);
    assert_eq!(&beam[0..4], &1.0f32.to_le_bytes());
    assert_eq!(&beam[12..24], &[0u8; 12]);
    let sphere = EffectTypeData::Sphere { center: a, radius: 5.0f32.to_bits() }.to_bytes();
    assert_eq!(sphere.len(), 16);
    assert_eq!(&sphere[12..16], &5.0f32.to_le_bytes());
    assert_eq!(EffectTypeData::Raw(vec![7, 8]).to_bytes(), vec![7, 8]);
}

#[test]
fn effect_configs() {
    let id = [3u8; 16];
    let p = EffectConfig::point_at(id, Position::origin(), Position::origin());
    assert_eq!(p.effect_type, EffectType::PointAt);
    assert_eq!(f32::from_bits(p.duration), 0.5);
    assert_eq!(p.duration, HALF_SECOND_BITS);
    assert_eq!(p.color, EffectColor::white());
    let b = EffectConfig::beam(id, Position::origin(), Position::origin());
    assert_eq!(f32::from_bits(b.duration), 1.0);
    assert_eq!(b.color, EffectColor::red());
    assert_eq!(u8::from(EffectType::Text), 0);
    assert_eq!(u8::from(EffectType::LookAt), 10);
}

#[test]
fn test_effect_manager() {
    let mut manager = EffectManager::new();
    let agent_id = *uuid::Uuid::new_v4().as_bytes();
    let session_id = *uuid::Uuid::new_v4().as_bytes();

    let source = Position::new(0.0f32.to_bits(), 0.0f32.to_bits(), 0.0f32.to_bits());
    let target = Position::new(10.0f32.to_bits(), 10.0f32.to_bits(), 10.0f32.to_bits());

    let effect = manager.create_point_at_effect(agent_id, session_id, source, target);

    assert_eq!(effect.agent_id, agent_id);
    assert_eq!(effect.session_id, session_id);
    assert_eq!(effect.effect.len(), 1);
    assert_eq!(effect.effect[0].effect_type, 9); // PointAt type
    assert_eq!(f32::from_bits(effect.effect[0].duration), 0.5);
}

#[test]
fn effect_ids_are_random_uuids_and_effects_are_kept() {
    let mut manager = EffectManager::new();
    let source = Position::new(0, 0, 0);
    let target = Position::new(1, 2, 3);
    let beam = manager.create_beam_effect([1; 16], [2; 16], source, target);
    let block = &beam.effect[0];
    assert_eq!(block.id[6] >> 4, 4);
    assert_eq!(block.id[8] >> 6, 2);
    assert_eq!(block.effect_type, 4);
    assert_eq!(block.color, vec![255, 0, 0, 255]);
    assert_eq!(block.type_data.data.len(), 24);
    assert_eq!(f32::from_bits(block.duration), 1.0);
    let point = manager.create_point_at_effect([1; 16], [2; 16], source, target);
    assert_ne!(point.effect[0].id, block.id);
    assert_eq!(manager.active_effect_count(), 2);
    manager.cleanup_expired_effects();
    assert_eq!(manager.active_effect_count(), 0);
}
