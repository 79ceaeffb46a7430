use actix_router::Path;
use actix_router::PatternError;
use actix_router::ResourceDef;

#[test]
fn parse_rejects_unbalanced_braces() {
    assert_eq!(ResourceDef::parse("/{val").unwrap_err(), PatternError::UnbalancedBrace);
    assert_eq!(ResourceDef::parse("/val}").unwrap_err(), PatternError::UnbalancedBrace);
    assert_eq!(ResourceDef::parse("/{va{l}}").unwrap_err(), PatternError::UnbalancedBrace);
}

#[test]
fn parse_rejects_empty_name() {
    assert_eq!(ResourceDef::parse("/{}").unwrap_err(), PatternError::EmptyName);
    assert_eq!(ResourceDef::parse("/{:.*}").unwrap_err(), PatternError::EmptyName);
}

#[test]
fn parse_rejects_empty_expr() {
    assert_eq!(ResourceDef::parse("/{val:}").unwrap_err(), PatternError::EmptyExpr);
}

#[test]
fn parse_rejects_unsupported_expr() {
    assert_eq!(ResourceDef::parse("/{val:[a-z]+}").unwrap_err(), PatternError::UnsupportedExpr);
}

#[test]
fn parse_rejects_tail_not_last() {
    assert_eq!(ResourceDef::parse("/{tail:.*}/more").unwrap_err(), PatternError::TailNotLast);
    assert_eq!(ResourceDef::parse("/a{tail:.*}").unwrap_err(), PatternError::TailNotLast);
}

#[test]
fn parse_rejects_adjacent_placeholders() {
    assert_eq!(ResourceDef::parse("/{a}{b}").unwrap_err(), PatternError::AdjacentPlaceholders);
}

#[test]
fn parse_accepts_well_formed_patterns() {
    assert!(ResourceDef::parse("/name").is_ok());
    assert!(ResourceDef::parse("/name/{val}/index.html").is_ok());
    assert!(ResourceDef::parse("/v{val}/{val2}/index.html").is_ok());
    assert!(ResourceDef::parse("/v/{tail:.*}").is_ok());
    assert!(ResourceDef::parse_prefix("/name").is_ok());
}

#[test]
fn capture_match_reports_consumed_length() {
    let def = ResourceDef::new("/name/{val}");
    let (consumed, caps) = def.capture_match("/name/value").unwrap();
    assert_eq!(consumed, 11);
    assert_eq!(caps.len(), 1);
    assert_eq!(caps[0].0, "val");
    assert_eq!(caps[0].1, "value");

    assert!(def.capture_match("/name").is_none());
    assert!(def.capture_match("/name/value/more").is_none());
}

#[test]
fn prefix_match_stops_at_segment_boundary() {
    let def = ResourceDef::prefix("/name");
    let (consumed, caps) = def.capture_match("/name/value").unwrap();
    assert_eq!(consumed, 5);
    assert!(caps.is_empty());

    let (consumed, _) = def.capture_match("/name").unwrap();
    assert_eq!(consumed, 5);

    assert!(def.capture_match("/name-test").is_none());
}

#[test]
fn set_id_is_reported_back() {
    let mut def = ResourceDef::new("/name");
    assert_eq!(def.id(), 0);
    def.set_id(42);
    assert_eq!(def.id(), 42);
}

#[test]
fn static_pattern_needs_exact_suffix() {
    let def = ResourceDef::new("/name");
    assert!(def.capture_match("/name").is_some());
    assert!(def.capture_match("/unknown").is_none());
    assert!(def.capture_match("/name/").is_none());
}

#[test]
fn cursor_skip_and_lookup() {
    let mut path = Path::new("/test/name");
    assert!(!path.is_empty());
    path.skip(5);
    assert_eq!(path.unprocessed(), "/name");
    assert!(path.get("val").is_none());
    path.skip(5);
    assert!(path.is_empty());
}
