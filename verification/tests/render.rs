use art_engine::render::context::{check_color_buffer_float, COLOR_BUFFER_FLOAT};
use art_engine::render::fullscreen::FULLSCREEN_VERTEX_SHADER;
use art_engine::render::ping_pong::PingPong;
use art_engine::render::shader::{
    compile_failure, format_shader_error, line_ranges, stage_name, ShaderError, FRAGMENT_SHADER,
    VERTEX_SHADER,
};
use art_engine::render::target::{framebuffer_status, FRAMEBUFFER_COMPLETE};
use art_engine::render::texture::{
    pixel_type_for_format, TextureConfig, FLOAT, HALF_FLOAT, LINEAR, RGB16F, RGB32F, RGBA16F,
    RGBA32F, UNSIGNED_BYTE,
};
use art_engine::text::{decimal_len, push_decimal, push_upper_hex_padded};

fn expected_format(source: &str, log: &str) -> String {
    let source_lines: Vec<&str> = if source.is_empty() { Vec::new() } else { source.lines().collect() };
    let line_count = source_lines.len();
    let width = if line_count == 0 { 1 } else { line_count.to_string().len() };
    let numbered: String = source_lines
        .iter()
        .enumerate()
        .map(|(i, line)| format!("{:>width$}: {line}", i + 1, width = width))
        .collect::<Vec<_>>()
        .join("\n");
    match (numbered.is_empty(), log.is_empty()) {
        (true, true) => String::new(),
        (true, false) => log.to_string(),
        (false, true) => numbered,
        (false, false) => format!("{numbered}\n\n{log}"),
    }
}

#[test]
fn new_starts_at_index_zero() {
    let pp = PingPong::new();
    assert_eq!(pp.src_index(), 0);
}

#[test]
fn initial_src_is_zero_dst_is_one() {
    let pp = PingPong::new();
    assert_eq!(pp.src_index(), 0);
    assert_eq!(pp.dst_index(), 1);
}

#[test]
fn swap_flips_src_and_dst() {
    let mut pp = PingPong::new();
    pp.swap();
    assert_eq!(pp.src_index(), 1, "after swap, src should be 1");
    assert_eq!(pp.dst_index(), 0, "after swap, dst should be 0");
}

#[test]
fn double_swap_returns_to_initial_state() {
    let mut pp = PingPong::new();
    pp.swap();
    pp.swap();
    assert_eq!(pp.src_index(), 0);
    assert_eq!(pp.dst_index(), 1);
}

#[test]
fn src_plus_dst_invariant_holds_over_100_swaps() {
    let mut pp = PingPong::new();
    for i in 0..100 {
        assert_eq!(pp.src_index() + pp.dst_index(), 1, "invariant broken at swap {i}");
        pp.swap();
    }
    assert_eq!(pp.src_index() + pp.dst_index(), 1);
}

#[test]
fn even_swap_count_restores_initial_odd_does_not() {
    let mut pp = PingPong::new();
    for _ in 0..50 {
        pp.swap();
    }
    assert_eq!(pp.src_index(), 0, "50 swaps (even) should restore src to 0");

    pp.swap();
    assert_eq!(pp.src_index(), 1, "51 swaps (odd) should flip src to 1");
}

#[test]
fn default_ping_pong_is_new() {
    let pp = PingPong::default();
    assert_eq!(pp.src_index(), 0);
    assert_eq!(pp.dst_index(), 1);
}

#[test]
fn format_shader_error_prepends_line_numbers() {
    let source = "#version 300 es\nvoid main() {\n}\n";
    let log = "ERROR: 0:2: syntax error";
    let formatted = format_shader_error(source, log);

    assert!(
        formatted.contains("1: #version 300 es"),
        "expected line 1 with content, got:\n{formatted}"
    );
    assert!(
        formatted.contains("2: void main() {"),
        "expected line 2 with content, got:\n{formatted}"
    );
    assert!(formatted.contains("3: }"), "expected line 3 with content, got:\n{formatted}");
    assert!(formatted.contains(log), "expected original log in output, got:\n{formatted}");
}

#[test]
fn format_shader_error_handles_empty_source() {
    let formatted = format_shader_error("", "some error");
    assert!(formatted.contains("some error"), "expected log in output, got:\n{formatted}");
}

#[test]
fn format_shader_error_handles_empty_log() {
    let formatted = format_shader_error("void main() {}", "");
    assert!(
        formatted.contains("1: void main() {}"),
        "expected numbered source line, got:\n{formatted}"
    );
}

#[test]
fn format_shader_error_handles_both_empty() {
    let formatted = format_shader_error("", "");
    assert!(formatted.is_empty(), "expected empty output, got: {formatted}");
}

#[test]
fn format_shader_error_preserves_multiline_source_order() {
    let source = "line_a\nline_b\nline_c\nline_d\nline_e";
    let formatted = format_shader_error(source, "err");
    let lines: Vec<&str> = formatted.lines().collect();

    assert!(lines[0].starts_with("1: "), "got: {}", lines[0]);
    assert!(lines[1].starts_with("2: "), "got: {}", lines[1]);
    assert!(lines[2].starts_with("3: "), "got: {}", lines[2]);
    assert!(lines[3].starts_with("4: "), "got: {}", lines[3]);
    assert!(lines[4].starts_with("5: "), "got: {}", lines[4]);
}

#[test]
fn format_shader_error_right_aligns_line_numbers() {
    let source = (1..=12).map(|i| format!("line {i}")).collect::<Vec<_>>().join("\n");
    let formatted = format_shader_error(&source, "err");
    let lines: Vec<&str> = formatted.lines().collect();

    assert!(
        lines[0].starts_with(" 1: "),
        "expected right-aligned single digit, got: '{}'",
        lines[0]
    );
    assert!(
        lines[9].starts_with("10: "),
        "expected no padding for double digit, got: '{}'",
        lines[9]
    );
}

#[test]
fn format_shader_error_exact_output() {
    assert_eq!(
        format_shader_error("#version 300 es\nvoid main() {\n}\n", "ERROR: 0:2: syntax error"),
        "1: #version 300 es\n2: void main() {\n3: }\n\nERROR: 0:2: syntax error"
    );
    assert_eq!(format_shader_error("void main() {}", ""), "1: void main() {}");
    assert_eq!(format_shader_error("", "some error"), "some error");
    assert_eq!(format_shader_error("", ""), "");
    assert_eq!(format_shader_error("\n", "x"), "1: \n\nx");
    assert_eq!(format_shader_error("a\r\nb\r\n", ""), "1: a\n2: b");
}

#[test]
fn format_shader_error_agrees_with_the_standard_formatter() {
    let hundred: String = (1..=100).map(|i| format!("line {i}\n")).collect();
    let sources = [
        "",
        "\n",
        "\n\n",
        "a",
        "a\n",
        "a\nb",
        "a\n\nb\n",
        "a\r\nb",
        "a\rb\n",
        "a\r",
        "\r\n",
        "\r\r\n",
        "\r",
        "a\r\n\r\nb\r\n",
        "a\n\r",
        "tab\there\n  indented\n",
        "grüße\nünïcödé ✓\n",
        hundred.as_str(),
        FULLSCREEN_VERTEX_SHADER,
    ];
    for source in sources {
        for log in ["", "err", "two\nlines", "\n"] {
            assert_eq!(
                format_shader_error(source, log),
                expected_format(source, log),
                "source {source:?}, log {log:?}"
            );
        }
    }
}

#[test]
fn line_ranges_mark_each_line() {
    let text: Vec<char> = "ab\ncd\r\n\nef".chars().collect();
    assert_eq!(line_ranges(&text), vec![(0, 2), (3, 5), (7, 7), (8, 10)]);
    assert_eq!(line_ranges(&Vec::new()), vec![]);
    let only_feed: Vec<char> = "\n".chars().collect();
    assert_eq!(line_ranges(&only_feed), vec![(0, 0)]);
}

#[test]
fn stage_names() {
    assert_eq!(stage_name(VERTEX_SHADER), "vertex");
    assert_eq!(stage_name(FRAGMENT_SHADER), "fragment");
    assert_eq!(stage_name(0), "unknown");
    assert_eq!(stage_name(glow::VERTEX_SHADER), "vertex");
    assert_eq!(stage_name(glow::FRAGMENT_SHADER), "fragment");
    assert_eq!(stage_name(glow::GEOMETRY_SHADER), "unknown");
}

#[test]
fn compile_failure_names_the_stage_and_numbers_the_source() {
    match compile_failure(glow::FRAGMENT_SHADER, "void main() {\n}", "0:1: bad") {
        ShaderError::CompileError { stage, log } => {
            assert_eq!(stage, "fragment");
            assert_eq!(log, "1: void main() {\n2: }\n\n0:1: bad");
        }
        _ => panic!("expected a compile error"),
    }
}

#[test]
fn gl_constants_are_those_of_the_bindings() {
    assert_eq!(RGBA16F, glow::RGBA16F);
    assert_eq!(RGB16F, glow::RGB16F);
    assert_eq!(RGBA32F, glow::RGBA32F);
    assert_eq!(RGB32F, glow::RGB32F);
    assert_eq!(HALF_FLOAT, glow::HALF_FLOAT);
    assert_eq!(FLOAT, glow::FLOAT);
    assert_eq!(UNSIGNED_BYTE, glow::UNSIGNED_BYTE);
    assert_eq!(LINEAR, glow::LINEAR);
    assert_eq!(VERTEX_SHADER, glow::VERTEX_SHADER);
    assert_eq!(FRAGMENT_SHADER, glow::FRAGMENT_SHADER);
    assert_eq!(FRAMEBUFFER_COMPLETE, glow::FRAMEBUFFER_COMPLETE);
}

#[test]
fn rgba16f_sets_correct_dimensions() {
    let config = TextureConfig::rgba16f(1024, 768);
    assert_eq!(config.width, 1024);
    assert_eq!(config.height, 768);
}

#[test]
fn rgba16f_uses_half_float_internal_format() {
    let config = TextureConfig::rgba16f(512, 512);
    assert_eq!(config.internal_format, glow::RGBA16F, "expected RGBA16F internal format");
}

#[test]
fn rgba16f_uses_linear_filter() {
    let config = TextureConfig::rgba16f(256, 256);
    assert_eq!(config.filter, glow::LINEAR, "expected LINEAR filter");
}

#[test]
fn texture_config_supports_custom_values() {
    let config = TextureConfig {
        width: 64,
        height: 64,
        internal_format: glow::RGBA8,
        filter: glow::NEAREST,
    };
    assert_eq!(config.width, 64);
    assert_eq!(config.height, 64);
    assert_eq!(config.internal_format, glow::RGBA8);
    assert_eq!(config.filter, glow::NEAREST);
}

#[test]
fn texture_config_is_copy_and_clone() {
    let config = TextureConfig::rgba16f(128, 128);
    let copy = config;
    let clone = config.clone();
    assert_eq!(config, copy);
    assert_eq!(config, clone);
}

#[test]
fn pixel_type_for_rgba16f_is_half_float() {
    assert_eq!(pixel_type_for_format(glow::RGBA16F), glow::HALF_FLOAT);
}

#[test]
fn pixel_type_for_rgba32f_is_float() {
    assert_eq!(pixel_type_for_format(glow::RGBA32F), glow::FLOAT);
}

#[test]
fn pixel_type_for_rgba8_is_unsigned_byte() {
    assert_eq!(pixel_type_for_format(glow::RGBA8), glow::UNSIGNED_BYTE);
}

#[test]
fn pixel_type_for_three_channel_formats() {
    assert_eq!(pixel_type_for_format(glow::RGB16F), glow::HALF_FLOAT);
    assert_eq!(pixel_type_for_format(glow::RGB32F), glow::FLOAT);
    assert_eq!(pixel_type_for_format(glow::RGB8), glow::UNSIGNED_BYTE);
    assert_eq!(pixel_type_for_format(0), glow::UNSIGNED_BYTE);
}

#[test]
fn texture_config_debug_format_is_readable() {
    let config = TextureConfig::rgba16f(100, 200);
    let debug = format!("{config:?}");
    assert!(debug.contains("100"), "missing width in debug: {debug}");
    assert!(debug.contains("200"), "missing height in debug: {debug}");
}

#[test]
fn fullscreen_vertex_shader_contains_version_directive() {
    assert!(
        FULLSCREEN_VERTEX_SHADER.contains("#version 300 es"),
        "expected GLSL ES 3.0 version directive in:\n{FULLSCREEN_VERTEX_SHADER}"
    );
}

#[test]
fn fullscreen_vertex_shader_uses_gl_vertex_id() {
    assert!(
        FULLSCREEN_VERTEX_SHADER.contains("gl_VertexID"),
        "expected gl_VertexID usage in:\n{FULLSCREEN_VERTEX_SHADER}"
    );
}

#[test]
fn fullscreen_vertex_shader_outputs_uv_varying() {
    assert!(
        FULLSCREEN_VERTEX_SHADER.contains("v_uv"),
        "expected v_uv output varying in:\n{FULLSCREEN_VERTEX_SHADER}"
    );
}

#[test]
fn fullscreen_vertex_shader_sets_gl_position() {
    assert!(
        FULLSCREEN_VERTEX_SHADER.contains("gl_Position"),
        "expected gl_Position assignment in:\n{FULLSCREEN_VERTEX_SHADER}"
    );
}

#[test]
fn fullscreen_vertex_shader_is_valid_glsl_structure() {
    assert!(
        FULLSCREEN_VERTEX_SHADER.contains("void main()"),
        "expected main function in:\n{FULLSCREEN_VERTEX_SHADER}"
    );
    assert!(
        FULLSCREEN_VERTEX_SHADER.contains("out vec2 v_uv"),
        "expected 'out vec2 v_uv' declaration in:\n{FULLSCREEN_VERTEX_SHADER}"
    );
}

#[test]
fn fullscreen_vertex_shader_exact_text() {
    let expected = [
        "#version 300 es",
        "out vec2 v_uv;",
        "void main() {",
        "    v_uv = vec2((gl_VertexID << 1) & 2, gl_VertexID & 2);",
        "    gl_Position = vec4(v_uv * 2.0 - 1.0, 0.0, 1.0);",
        "}",
        "",
    ]
    .join("\n");
    assert_eq!(FULLSCREEN_VERTEX_SHADER, expected);
}

#[test]
fn framebuffer_status_accepts_complete_only() {
    assert_eq!(framebuffer_status(glow::FRAMEBUFFER_COMPLETE, false), Ok(()));
    assert_eq!(framebuffer_status(glow::FRAMEBUFFER_COMPLETE, true), Ok(()));
    assert_eq!(
        framebuffer_status(glow::FRAMEBUFFER_INCOMPLETE_ATTACHMENT, false),
        Err("framebuffer incomplete: status 0x8CD6".to_string())
    );
    assert_eq!(
        framebuffer_status(glow::FRAMEBUFFER_UNSUPPORTED, true),
        Err("framebuffer incomplete after resize: status 0x8CDD".to_string())
    );
    assert_eq!(framebuffer_status(0, false), Err("framebuffer incomplete: status 0x0000".to_string()));
    assert_eq!(
        framebuffer_status(0x1A, true),
        Err("framebuffer incomplete after resize: status 0x001A".to_string())
    );
    assert_eq!(
        framebuffer_status(u32::MAX, false),
        Err("framebuffer incomplete: status 0xFFFFFFFF".to_string())
    );
}

#[test]
fn decimal_and_hexadecimal_numerals_agree_with_the_standard_formatter() {
    for n in [0usize, 1, 9, 10, 11, 99, 100, 255, 256, 4095, 4096, 65535, 65536, 123_456_789, usize::MAX] {
        let mut decimal = String::from("n=");
        push_decimal(&mut decimal, n);
        assert_eq!(decimal, format!("n={n}"));
        assert_eq!(decimal_len(n), n.to_string().len());
        for width in [0usize, 1, 4, 8, 20] {
            let mut hex = String::new();
            push_upper_hex_padded(&mut hex, n, width);
            assert_eq!(hex, format!("{:0width$X}", n, width = width));
        }
    }
}

#[test]
fn color_buffer_float_is_required() {
    assert_eq!(check_color_buffer_float(true), Ok(()));
    assert_eq!(
        check_color_buffer_float(false),
        Err("required extension EXT_color_buffer_float is not supported".to_string())
    );
    assert_eq!(COLOR_BUFFER_FLOAT, "EXT_color_buffer_float");
}
