use line_endings::options::{parse_norm_option, resolve_target, NormalizeOption};
use line_endings::stats::LineSep;

#[test]
fn parse_known_options() {
    assert_eq!(parse_norm_option("lf"), Ok(NormalizeOption::Lf));
    assert_eq!(parse_norm_option("crlf"), Ok(NormalizeOption::CrLf));
    assert_eq!(parse_norm_option("cr"), Ok(NormalizeOption::Cr));
    assert_eq!(parse_norm_option("any"), Ok(NormalizeOption::MostFrequent));
}

#[test]
fn parse_unknown_option_is_rejected() {
    assert_eq!(parse_norm_option("LF"), Err("Invalid line ending".to_string()));
    assert_eq!(parse_norm_option(""), Err("Invalid line ending".to_string()));
    assert_eq!(parse_norm_option("mixed"), Err("Invalid line ending".to_string()));
}

#[test]
fn resolve_explicit_targets() {
    assert_eq!(resolve_target(&NormalizeOption::Lf, None), Some(LineSep::Lf));
    assert_eq!(resolve_target(&NormalizeOption::CrLf, Some(LineSep::Lf)), Some(LineSep::CrLf));
    assert_eq!(resolve_target(&NormalizeOption::Cr, None), Some(LineSep::Cr));
}

#[test]
fn resolve_most_frequent_follows_aggregate() {
    assert_eq!(
        resolve_target(&NormalizeOption::MostFrequent, Some(LineSep::CrLf)),
        Some(LineSep::CrLf)
    );
    assert_eq!(resolve_target(&NormalizeOption::MostFrequent, None), None);
}
