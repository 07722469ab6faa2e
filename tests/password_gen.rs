use password_gen::config::{Config, ConfigError};
use password_gen::decimal::{parse_fixed, parse_u32};
use password_gen::generator::{char_for_draws, password_from_draws, select_category, PassGen};
use password_gen::palette::{char_for_draw, index_for_draw, Category};

fn args(items: &[&str]) -> Vec<String> {
    items.iter().map(|s| s.to_string()).collect()
}

fn defaults(pass_len: u32) -> Config {
    Config {
        pass_len,
        lower_case_perc: 350_000,
        upper_case_perc: 350_000,
        numbers_perc: 150_000,
        signs_perc: 150_000,
    }
}

fn all_palettes() -> String {
    let mut s = String::from("abcdefghijklmnopqrstuvwxyz");
    s.push_str("ABCDEFGHIJKLMNOPQRSTUVWXYZ");
    s.push_str("0123456789");
    s.push_str("|!@#$%&?*+~^;:-_<>");
    s
}

#[test]
fn length_alone_uses_default_shares() {
    assert_eq!(Config::new(&args(&["prog", "8"])), Ok(defaults(8)));
}

#[test]
fn explicit_shares_are_accepted() {
    assert_eq!(
        Config::new(&args(&["prog", "8", "0.35", "0.35", "0.15", "0.15"])),
        Ok(defaults(8))
    );
}

#[test]
fn shares_summing_to_two_are_refused() {
    assert_eq!(
        Config::new(&args(&["prog", "8", "0.5", "0.5", "0.5", "0.5"])),
        Err(ConfigError::Total)
    );
}

#[test]
fn unreadable_length_is_refused() {
    assert_eq!(Config::new(&args(&["prog", "abc"])), Err(ConfigError::PassLen));
}

#[test]
fn missing_length_is_refused() {
    assert_eq!(Config::new(&args(&["prog"])), Err(ConfigError::ArgCount));
}

#[test]
fn three_arguments_are_refused() {
    assert_eq!(Config::new(&args(&["prog", "8", "0.5"])), Err(ConfigError::ArgCount));
}

#[test]
fn unreadable_lower_share_is_refused() {
    assert_eq!(
        Config::new(&args(&["prog", "8", "x", "0.35", "0.15", "0.15"])),
        Err(ConfigError::LowerCasePerc)
    );
}

#[test]
fn unreadable_other_shares_are_refused() {
    assert_eq!(
        Config::new(&args(&["prog", "8", "0.35", "y", "0.15", "0.15"])),
        Err(ConfigError::UpperCasePerc)
    );
    assert_eq!(
        Config::new(&args(&["prog", "8", "0.35", "0.35", "", "0.15"])),
        Err(ConfigError::NumbersPerc)
    );
    assert_eq!(
        Config::new(&args(&["prog", "8", "0.35", "0.35", "0.15", "1.2.3"])),
        Err(ConfigError::SignsPerc)
    );
}

#[test]
fn first_unreadable_share_is_reported() {
    assert_eq!(
        Config::new(&args(&["prog", "8", "a", "b", "c", "d"])),
        Err(ConfigError::LowerCasePerc)
    );
}

#[test]
fn bad_length_is_reported_before_shares() {
    assert_eq!(
        Config::new(&args(&["prog", "-8", "x", "0.35", "0.15", "0.15"])),
        Err(ConfigError::PassLen)
    );
}

#[test]
fn total_tolerance_edges() {
    assert!(Config::new(&args(&["prog", "4", "0.34", "0.35", "0.15", "0.15"])).is_ok());
    assert!(Config::new(&args(&["prog", "4", "0.36", "0.35", "0.15", "0.15"])).is_ok());
    assert_eq!(
        Config::new(&args(&["prog", "4", "0.339", "0.35", "0.15", "0.15"])),
        Err(ConfigError::Total)
    );
    assert_eq!(
        Config::new(&args(&["prog", "4", "0.361", "0.35", "0.15", "0.15"])),
        Err(ConfigError::Total)
    );
}

#[test]
fn shares_are_not_checked_one_by_one() {
    assert_eq!(
        Config::new(&args(&["prog", "3", "1.5", "-0.5", "0", "0"])),
        Ok(Config {
            pass_len: 3,
            lower_case_perc: 1_500_000,
            upper_case_perc: -500_000,
            numbers_perc: 0,
            signs_perc: 0,
        })
    );
}

#[test]
fn unsigned_text() {
    assert_eq!(parse_u32("8"), Some(8));
    assert_eq!(parse_u32("+8"), Some(8));
    assert_eq!(parse_u32("007"), Some(7));
    assert_eq!(parse_u32("4294967295"), Some(4294967295));
    assert_eq!(parse_u32("4294967296"), None);
    assert_eq!(parse_u32("99999999999999999999"), None);
    assert_eq!(parse_u32(""), None);
    assert_eq!(parse_u32("+"), None);
    assert_eq!(parse_u32("-1"), None);
    assert_eq!(parse_u32("1a"), None);
}

#[test]
fn fixed_point_text() {
    assert_eq!(parse_fixed("0.35"), Some(350_000));
    assert_eq!(parse_fixed(".5"), Some(500_000));
    assert_eq!(parse_fixed("1."), Some(1_000_000));
    assert_eq!(parse_fixed("+2"), Some(2_000_000));
    assert_eq!(parse_fixed("-0.25"), Some(-250_000));
    assert_eq!(parse_fixed("0.1234567"), Some(123_456));
    assert_eq!(parse_fixed("1000000"), Some(1_000_000_000_000));
    assert_eq!(parse_fixed("1000001"), None);
    assert_eq!(parse_fixed("."), None);
    assert_eq!(parse_fixed(""), None);
    assert_eq!(parse_fixed("-"), None);
    assert_eq!(parse_fixed("1.2.3"), None);
    assert_eq!(parse_fixed("1e3"), None);
}

#[test]
fn generated_length_matches() {
    let cfg = defaults(8);
    let mut g = PassGen::new(&cfg);
    g.generate(&cfg.pass_len);
    assert_eq!(g.password().chars().count(), 8);
}

#[test]
fn zero_length_gives_empty_password() {
    let cfg = defaults(0);
    let mut g = PassGen::new(&cfg);
    g.generate(&cfg.pass_len);
    assert_eq!(g.password(), "");
}

#[test]
fn generated_characters_come_from_palettes() {
    let allowed = all_palettes();
    assert_eq!(allowed.chars().count(), 80);
    let cfg = defaults(2000);
    let mut g = PassGen::new(&cfg);
    g.generate(&cfg.pass_len);
    let p = g.password();
    assert_eq!(p.chars().count(), 2000);
    assert!(p.chars().all(|c| allowed.contains(c)));
}

#[test]
fn generate_twice_appends() {
    let cfg = defaults(5);
    let mut g = PassGen::new(&cfg);
    g.generate(&5);
    let first = g.password();
    g.generate(&7);
    let both = g.password();
    assert_eq!(both.chars().count(), 12);
    assert!(both.starts_with(&first));
}

#[test]
fn password_text_is_stable() {
    let cfg = defaults(16);
    let mut g = PassGen::new(&cfg);
    g.generate(&cfg.pass_len);
    let a = g.password();
    let b = g.password();
    assert_eq!(a, b);
}

#[test]
fn category_shares_converge() {
    let n: u32 = 100_000;
    let cfg = defaults(n);
    let mut g = PassGen::new(&cfg);
    g.generate(&cfg.pass_len);
    let p = g.password();
    let (mut lo, mut up, mut num, mut sig) = (0u32, 0u32, 0u32, 0u32);
    for c in p.chars() {
        if c.is_ascii_lowercase() {
            lo += 1;
        } else if c.is_ascii_uppercase() {
            up += 1;
        } else if c.is_ascii_digit() {
            num += 1;
        } else {
            sig += 1;
        }
    }
    let frac = |k: u32| k as f64 / n as f64;
    assert!((frac(lo) - 0.35).abs() < 0.01);
    assert!((frac(up) - 0.35).abs() < 0.01);
    assert!((frac(num) - 0.15).abs() < 0.01);
    assert!((frac(sig) - 0.15).abs() < 0.01);
}

#[test]
fn draw_at_lower_share_is_not_lower_case() {
    let cfg = defaults(1);
    assert_eq!(select_category(&cfg, 350_000), Category::Upper);
    assert_eq!(select_category(&cfg, 349_999), Category::Lower);
    assert_eq!(select_category(&cfg, 700_000), Category::Number);
    assert_eq!(select_category(&cfg, 699_999), Category::Upper);
    assert_eq!(select_category(&cfg, 850_000), Category::Sign);
    assert_eq!(select_category(&cfg, 999_999), Category::Sign);
    assert_eq!(char_for_draws(&cfg, 350_000, 0), 'A');
    assert_eq!(char_for_draws(&cfg, 349_999, 0), 'a');
}

#[test]
fn short_shares_leave_the_rest_to_symbols() {
    let cfg = Config {
        pass_len: 1,
        lower_case_perc: 300_000,
        upper_case_perc: 300_000,
        numbers_perc: 300_000,
        signs_perc: 95_000,
    };
    assert_eq!(select_category(&cfg, 900_000), Category::Sign);
    assert_eq!(select_category(&cfg, 999_999), Category::Sign);
}

#[test]
fn palette_index_formula() {
    assert_eq!(index_for_draw(0, 26), 0);
    assert_eq!(index_for_draw(999_999, 26), 25);
    assert_eq!(index_for_draw(500_000, 10), 5);
    assert_eq!(index_for_draw(999_999, 18), 17);
    assert_eq!(index_for_draw(38_462, 26), 1);
}

#[test]
fn upper_case_is_folded_from_lower_case() {
    assert_eq!(char_for_draw(Category::Upper, 0), 'A');
    assert_eq!(char_for_draw(Category::Upper, 999_999), 'Z');
    assert_eq!(char_for_draw(Category::Lower, 999_999), 'z');
    assert_eq!(char_for_draw(Category::Number, 999_999), '9');
    assert_eq!(char_for_draw(Category::Sign, 0), '|');
}

#[test]
fn password_from_fixed_draws() {
    let cfg = defaults(5);
    let draws: Vec<(u32, u32)> = vec![
        (0, 0),
        (350_000, 999_999),
        (700_000, 500_000),
        (850_000, 0),
        (999_999, 999_999),
    ];
    let p: String = password_from_draws(&cfg, &draws).into_iter().collect();
    assert_eq!(p, "aZ5|>");
}

#[test]
fn only_lower_case_when_its_share_is_whole() {
    let cfg = Config {
        pass_len: 500,
        lower_case_perc: 1_000_000,
        upper_case_perc: 0,
        numbers_perc: 0,
        signs_perc: 0,
    };
    let mut g = PassGen::new(&cfg);
    g.generate(&cfg.pass_len);
    let p = g.password();
    assert_eq!(p.chars().count(), 500);
    assert!(p.chars().all(|c| c.is_ascii_lowercase()));
}
