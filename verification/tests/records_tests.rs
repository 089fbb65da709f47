use snowfall::records::{
    spawn_particles, Draw, SnowflakeInstance, BAND_HEIGHT, GRAVITY_X, GRAVITY_Y, MAX_AGE,
    MINUS_ONE, ONE, SCALE_MAX, SCALE_MIN, ZERO,
};

#[test]
fn constants_are_the_bit_patterns_of_their_numbers() {
    assert_eq!(ZERO, 0.0f32.to_bits());
    assert_eq!(ONE, 1.0f32.to_bits());
    assert_eq!(MINUS_ONE, (-1.0f32).to_bits());
    assert_eq!(BAND_HEIGHT, (1.0f32 + 0.05).to_bits());
    assert_eq!(SCALE_MIN, (0.1f32 * 0.01).to_bits());
    assert_eq!(SCALE_MAX, (1.5f32 * 0.01).to_bits());
    assert_eq!(GRAVITY_X, 0.1f32.to_bits());
    assert_eq!(GRAVITY_Y, (-1.0f32).to_bits());
    assert_eq!(MAX_AGE, 100.0f32.to_bits());
}

#[test]
fn spawn_gives_a_flake_at_rest_of_age_zero() {
    let flake = SnowflakeInstance::spawn(0.5f32.to_bits(), (-0.75f32).to_bits(), 0.01f32.to_bits());
    assert_eq!(
        flake,
        Some(SnowflakeInstance {
            pos: [0.5f32.to_bits(), (-0.75f32).to_bits()],
            vel: [0, 0],
            scale: 0.01f32.to_bits(),
            age: 0,
        })
    );
}

#[test]
fn spawn_takes_the_edges_of_the_band() {
    let s = 0.005f32.to_bits();
    assert!(SnowflakeInstance::spawn(ONE, BAND_HEIGHT, s).is_some());
    assert!(SnowflakeInstance::spawn(MINUS_ONE, (-1.05f32).to_bits(), s).is_some());
    assert!(SnowflakeInstance::spawn(0, 0, SCALE_MIN).is_some());
    assert!(SnowflakeInstance::spawn(0x8000_0000, 0, SCALE_MAX).is_some());
}

#[test]
fn spawn_refuses_what_lies_outside() {
    let s = 0.005f32.to_bits();
    assert_eq!(SnowflakeInstance::spawn(ONE + 1, 0, s), None);
    assert_eq!(SnowflakeInstance::spawn((-1.5f32).to_bits(), 0, s), None);
    assert_eq!(SnowflakeInstance::spawn(0, BAND_HEIGHT + 1, s), None);
    assert_eq!(SnowflakeInstance::spawn(0, (-1.06f32).to_bits(), s), None);
    assert_eq!(SnowflakeInstance::spawn(0, 0, SCALE_MIN - 1), None);
    assert_eq!(SnowflakeInstance::spawn(0, 0, SCALE_MAX + 1), None);
    assert_eq!(SnowflakeInstance::spawn(0, 0, (-0.01f32).to_bits()), None);
    assert_eq!(SnowflakeInstance::spawn(f32::NAN.to_bits(), 0, s), None);
    assert_eq!(SnowflakeInstance::spawn(0, f32::INFINITY.to_bits(), s), None);
}

#[test]
fn spawn_particles_gives_one_flake_for_each_draw() {
    for n in [0usize, 1, 4, 1000] {
        let mut draws = Vec::new();
        for i in 0..n {
            let x = (i as f32 / 1000.0) * 2.0 - 1.0;
            let y = -x * 1.05;
            let scale = (0.1 + (i as f32 / 1000.0) * 1.4) * 0.01;
            draws.push(Draw { x: x.to_bits(), y: y.to_bits(), scale: scale.to_bits() });
        }
        let flakes = spawn_particles(&draws).unwrap();
        assert_eq!(flakes.len(), n);
        for (flake, draw) in flakes.iter().zip(draws.iter()) {
            assert_eq!(flake.pos, [draw.x, draw.y]);
            assert_eq!(flake.vel, [0, 0]);
            assert_eq!(flake.scale, draw.scale);
            assert_eq!(flake.age, 0);
            let (x, y) = (f32::from_bits(flake.pos[0]), f32::from_bits(flake.pos[1]));
            let scale = f32::from_bits(flake.scale);
            assert!((-1.0..=1.0).contains(&x));
            assert!((-1.05..=1.05).contains(&y));
            assert!((0.001..=0.015).contains(&scale));
        }
    }
}

#[test]
fn spawn_particles_refuses_a_draw_out_of_range() {
    let good = Draw { x: 0, y: 0, scale: SCALE_MIN };
    let bad = Draw { x: 2.0f32.to_bits(), y: 0, scale: SCALE_MIN };
    assert_eq!(spawn_particles(&vec![good, bad, good]), None);
    assert_eq!(spawn_particles(&vec![good, good]).map(|f| f.len()), Some(2));
}
