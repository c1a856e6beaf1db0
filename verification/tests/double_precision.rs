use werk_cli::binary64::{format_bytes, is_within, scale_bytes, Ratio};
use werk_cli::estimate::{classify_against_limit, EstimateResult};
use werk_cli::kv_cache::runtime_overhead_bytes;
use werk_cli::manifest::ModelFormat;
use werk_cli::media_params::normalize_media_parameter_path;
use werk_cli::outputs::cli_output_slug;
use werk_cli::redaction::{media_debug_parameter_value, trim_float, ParameterValue};
use werk_cli::remote::percent_encode_hf_path;
use werk_cli::manifest::InferenceTask;

const RATIOS: [(Ratio, f64); 9] = [
    (Ratio::Percent5, 0.05),
    (Ratio::Percent8, 0.08),
    (Ratio::Percent10, 0.10),
    (Ratio::Percent35, 0.35),
    (Ratio::Percent50, 0.50),
    (Ratio::Percent60, 0.60),
    (Ratio::Percent65, 0.65),
    (Ratio::Percent70, 0.70),
    (Ratio::Percent85, 0.85),
];

/// Numbers of all sizes, and those around powers of two.
fn numbers() -> Vec<u64> {
    let mut numbers = Vec::new();
    for shift in 0..64u32 {
        let power = 1u64 << shift;
        for near in [power.wrapping_sub(1), power, power.wrapping_add(1)] {
            numbers.push(near);
        }
    }
    let mut state: u64 = 0x9e37_79b9_7f4a_7c15;
    for round in 0..600u32 {
        state = state
            .wrapping_mul(6364136223846793005)
            .wrapping_add(1442695040888963407);
        numbers.push(state >> (round % 60));
    }
    numbers.push(u64::MAX);
    numbers
}

fn shown_bytes(bytes: u64) -> String {
    let mut value = bytes as f64;
    let mut unit = "B";
    for larger in ["KiB", "MiB", "GiB", "TiB"] {
        if value < 1024.0 {
            break;
        }
        value /= 1024.0;
        unit = larger;
    }
    if unit == "B" {
        format!("{value:.0} {unit}")
    } else {
        format!("{value:.2} {unit}")
    }
}

#[test]
fn scaling_is_double_precision() {
    for n in numbers() {
        for (ratio, factor) in RATIOS {
            assert_eq!(
                scale_bytes(n, ratio),
                (n as f64 * factor).ceil() as u64,
                "{n} * {factor}"
            );
        }
    }
}

#[test]
fn limits_are_double_precision() {
    let numbers = numbers();
    for (index, limit) in numbers.iter().enumerate() {
        for (ratio, factor) in RATIOS {
            let edge = (*limit as f64 * factor) as u64;
            let other = numbers[(index * 7 + 3) % numbers.len()];
            for n in [edge.saturating_sub(1), edge, edge.saturating_add(1), other] {
                assert_eq!(
                    is_within(n, *limit, ratio),
                    n as f64 <= *limit as f64 * factor,
                    "{n} within {limit} * {factor}"
                );
            }
        }
    }
    assert_eq!(
        classify_against_limit(71, 100, Ratio::Percent70, Ratio::Percent85),
        EstimateResult::Warning
    );
    assert_eq!(
        classify_against_limit(86, 100, Ratio::Percent70, Ratio::Percent85),
        EstimateResult::LikelyOom
    );
}

#[test]
fn byte_counts_are_shown_in_double_precision() {
    for n in numbers() {
        assert_eq!(format_bytes(n), shown_bytes(n), "{n}");
    }
}

#[test]
fn overheads_have_a_floor() {
    let mib = 1024 * 1024u64;
    for n in numbers() {
        for (format, floor, factor) in [
            (ModelFormat::Gguf, 256 * mib, 0.05),
            (ModelFormat::Mlx, 512 * mib, 0.08),
            (ModelFormat::SafeTensors, 512 * mib, 0.10),
        ] {
            assert_eq!(
                runtime_overhead_bytes(format, n),
                floor.max((n as f64 * factor).ceil() as u64)
            );
        }
    }
}

#[test]
fn fractions_lose_their_last_zeros() {
    for value in [0.0f64, 0.5, 0.75, 1.0, 2.125, 10.0, 100.25, 0.000001, 123456.789] {
        let written = format!("{value:.6}");
        let mut expected = written.clone();
        while expected.contains('.') && expected.ends_with('0') {
            expected.pop();
        }
        if expected.ends_with('.') {
            expected.pop();
        }
        assert_eq!(trim_float(&written), expected);
    }
    assert_eq!(trim_float("100"), "100");
    assert_eq!(trim_float("."), "");
}

#[test]
fn texts_are_quoted_as_json() {
    for text in [
        "balanced",
        "with \"quotes\"",
        "tab\tnew\nline",
        "\u{1}\u{8}\u{c}\r",
        "ünïcode 😀",
        "\u{7f}",
    ] {
        assert_eq!(
            media_debug_parameter_value("image.sampler", &ParameterValue::Text(text.to_string())),
            serde_json::to_string(text).unwrap()
        );
    }
}

#[test]
fn paths_are_percent_encoded() {
    for path in ["org/repo", "a b", "ü.gguf", "100%", "a~b_c-d.e", "q?x=1&y#z"] {
        let expected = path
            .bytes()
            .map(|byte| {
                if byte.is_ascii_alphanumeric() || b"-_.~/".contains(&byte) {
                    (byte as char).to_string()
                } else {
                    format!("%{byte:02X}")
                }
            })
            .collect::<String>();
        assert_eq!(percent_encode_hf_path(path), expected);
    }
}

#[test]
fn slugs_are_made_character_by_character() {
    for value in ["", "---", "A__B", "Tiny SD 1.5!", "ümlaut", "a-b--c", "  lead", "trail  "] {
        for limit in [0, 1, 2, 5, 48] {
            let mut slug = String::new();
            let mut separator = false;
            for character in value.chars() {
                if slug.len() >= limit {
                    break;
                }
                if character.is_ascii_alphanumeric() {
                    slug.push(character.to_ascii_lowercase());
                    separator = false;
                } else if !slug.is_empty() && !separator {
                    slug.push('-');
                    separator = true;
                }
            }
            while slug.ends_with('-') {
                slug.pop();
            }
            if slug.is_empty() {
                slug.push_str("model");
            }
            assert_eq!(cli_output_slug(value, limit), slug, "{value:?} {limit}");
        }
    }
    assert_eq!(
        normalize_media_parameter_path(InferenceTask::ImageGeneration, "image", "steps"),
        "image.steps"
    );
}
