use art_engine::color::Srgb8;
use art_engine::engines::{EngineKind, GRAY_SCOTT};
use art_engine::error::EngineError;
use art_engine::field::Field;
use art_engine::gray_scott::{GrayScottParams, Stencil};
use art_engine::palette::Palette;
use art_engine::pixel::{field_to_rgba, image_dimensions, OPAQUE};

fn val(b: u64) -> f64 {
    f64::from_bits(b)
}

fn coral() -> GrayScottParams {
    GrayScottParams::default()
}

fn kernel(p: GrayScottParams, su: Stencil, sv: Stencil) -> (u64, u64) {
    let lap = |s: &Stencil| {
        0.2 * (val(s.north) + val(s.south) + val(s.west) + val(s.east))
            + 0.05
                * (val(s.north_west)
                    + val(s.north_east)
                    + val(s.south_west)
                    + val(s.south_east))
            - val(s.center)
    };
    let u = val(su.center);
    let v = val(sv.center);
    let reaction = u * v * v;
    let (f, k) = (val(p.feed_rate), val(p.kill_rate));
    let (du, dv, dt) = (val(p.diffusion_u), val(p.diffusion_v), val(p.dt));
    let u_next = u + dt * (du * lap(&su) - reaction + f * (1.0 - u));
    let v_next = v + dt * (dv * lap(&sv) + reaction - (f + k) * v);
    (u_next.to_bits(), v_next.to_bits())
}

fn shade_with(palette: &Palette<Srgb8>) -> impl Fn(u64) -> Srgb8 + '_ {
    move |bits: u64| {
        let t = val(bits);
        let stops = palette.colors();
        if stops.len() == 1 {
            return stops[0];
        }
        let scaled = t * (stops.len() - 1) as f64;
        let i = palette.segment(scaled as usize);
        let frac = scaled - i as f64;
        let mix = |a: u8, b: u8| (a as f64 + frac * (b as f64 - a as f64)).round() as u8;
        Srgb8 {
            r: mix(stops[i].r, stops[i + 1].r),
            g: mix(stops[i].g, stops[i + 1].g),
            b: mix(stops[i].b, stops[i + 1].b),
        }
    }
}

#[test]
fn from_name_gray_scott_succeeds() {
    let engine = EngineKind::from_name("gray-scott", 32, 32, 42, coral());
    assert!(engine.is_ok());
}

#[test]
fn from_name_unknown_returns_error() {
    let result = EngineKind::from_name("nonexistent", 32, 32, 42, coral());
    assert!(matches!(result, Err(EngineError::UnknownEngine(_))));
}

#[test]
fn list_engines_includes_gray_scott() {
    let names = EngineKind::list_engines();
    assert!(names.contains(&"gray-scott"));
}

#[test]
fn trait_delegation_step_and_field() {
    let mut engine = EngineKind::from_name("gray-scott", 16, 16, 42, coral()).unwrap();
    assert_eq!(engine.field().width(), 16);
    assert_eq!(engine.field().height(), 16);
    engine.step(&kernel).unwrap();
}

#[test]
fn trait_delegation_hue_field() {
    let engine = EngineKind::from_name("gray-scott", 16, 16, 42, coral()).unwrap();
    assert!(engine.hue_field().is_none());
}

#[test]
fn determinism_same_seed() {
    let mut a = EngineKind::from_name("gray-scott", 32, 32, 99, coral()).unwrap();
    let mut b = EngineKind::from_name("gray-scott", 32, 32, 99, coral()).unwrap();
    for _ in 0..10 {
        a.step(&kernel).unwrap();
        b.step(&kernel).unwrap();
    }
    assert_eq!(a.field().data(), b.field().data());
}

#[test]
fn unknown_engine_error_carries_the_name() {
    match EngineKind::from_name("physarum", 8, 8, 1, coral()) {
        Err(EngineError::UnknownEngine(name)) => assert_eq!(name, "physarum"),
        _ => panic!("expected an unknown-engine error"),
    }
}

#[test]
fn from_name_rejects_bad_dimensions_of_a_known_engine() {
    assert!(matches!(
        EngineKind::from_name("gray-scott", 0, 8, 1, coral()),
        Err(EngineError::InvalidDimensions)
    ));
    assert!(matches!(
        EngineKind::from_name("nonexistent", 0, 8, 1, coral()),
        Err(EngineError::UnknownEngine(_))
    ));
}

#[test]
fn list_engines_is_exactly_the_registry() {
    assert_eq!(EngineKind::list_engines(), vec!["gray-scott"]);
    assert_eq!(GRAY_SCOTT, "gray-scott");
}

#[test]
fn field_of_the_engine_is_the_activator() {
    let engine = EngineKind::from_name("gray-scott", 16, 16, 42, coral()).unwrap();
    let EngineKind::GrayScott(inner) = &engine;
    assert_eq!(engine.field().data(), inner.v_field().data());
}

#[test]
fn field_to_rgba_correct_length() {
    let field = Field::new(8, 4).unwrap();
    let palette = Palette::ocean();
    let buf = field_to_rgba(&field, shade_with(&palette));
    assert_eq!(buf.len(), 8 * 4 * 4);
}

#[test]
fn field_to_rgba_alpha_always_255() {
    let field = Field::filled(4, 4, 0.5f64.to_bits()).unwrap();
    let palette = Palette::neon();
    let buf = field_to_rgba(&field, shade_with(&palette));
    for (i, &byte) in buf.iter().enumerate() {
        if i % 4 == 3 {
            assert_eq!(byte, 255, "alpha at pixel {} should be 255", i / 4);
        }
    }
}

#[test]
fn field_to_rgba_boundary_colors() {
    let palette = Palette::monochrome();
    let field_zero = Field::filled(1, 1, 0.0f64.to_bits()).unwrap();
    let field_one = Field::filled(1, 1, 1.0f64.to_bits()).unwrap();

    let buf_zero = field_to_rgba(&field_zero, shade_with(&palette));
    let buf_one = field_to_rgba(&field_one, shade_with(&palette));

    assert!(buf_zero[0] < 10, "r at t=0: {}", buf_zero[0]);
    assert!(buf_zero[1] < 10, "g at t=0: {}", buf_zero[1]);
    assert!(buf_zero[2] < 10, "b at t=0: {}", buf_zero[2]);

    assert!(buf_one[0] > 245, "r at t=1: {}", buf_one[0]);
    assert!(buf_one[1] > 245, "g at t=1: {}", buf_one[1]);
    assert!(buf_one[2] > 245, "b at t=1: {}", buf_one[2]);
}

#[test]
fn field_to_rgba_packs_each_color_in_order() {
    let field = Field::from_data(2, 2, vec![1, 2, 3, 4]).unwrap();
    let buf = field_to_rgba(&field, |bits: u64| Srgb8 {
        r: bits as u8,
        g: (bits * 10) as u8,
        b: (bits * 50) as u8,
    });
    assert_eq!(
        buf,
        vec![1, 10, 50, 255, 2, 20, 100, 255, 3, 30, 150, 255, 4, 40, 200, 255]
    );
    assert_eq!(OPAQUE, 255);
}

#[test]
fn image_dimensions_of_a_small_field() {
    let field = Field::new(8, 4).unwrap();
    assert!(matches!(image_dimensions(&field), Ok((8, 4))));
}

#[test]
fn trait_delegation_params_and_schema() {
    let engine = EngineKind::from_name("gray-scott", 16, 16, 42, coral()).unwrap();
    let params = engine.params();
    assert_eq!(params.feed_rate, 0.055f64.to_bits());
    assert_eq!(params, coral());
    let schema = engine.param_schema();
    assert!(schema.iter().any(|spec| spec.name == "feed_rate"));
    assert_eq!(schema.len(), 5);
}
