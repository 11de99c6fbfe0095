use chain::binary::{is_binary, BINARY_PREFIX_LEN};
use chain::error::ErrorKind;
use chain::processor::{plan_mapping, process_file, MappingAction};
use chain::source::PathState;
use chain::substitution::{bytes_eq, render, resolve};

fn vars(pairs: &[(&str, &str)]) -> Vec<(String, String)> {
    pairs.iter().map(|(k, v)| (k.to_string(), v.to_string())).collect()
}

#[test]
fn nul_in_first_bytes_is_binary() {
    assert!(is_binary(&[0u8, 1, 2, 3]));
    let mut data = vec![b'a'; 300];
    data[255] = 0;
    assert!(is_binary(&data));
}

#[test]
fn nul_after_the_window_is_not_binary() {
    let mut data = vec![b'a'; 300];
    data[BINARY_PREFIX_LEN] = 0;
    assert!(!is_binary(&data));
}

#[test]
fn del_byte_is_binary() {
    assert!(is_binary(b"abc\x7fdef"));
}

#[test]
fn empty_and_plain_text_are_not_binary() {
    assert!(!is_binary(b""));
    assert!(!is_binary("motd=Hello, wörld\n".as_bytes()));
}

#[test]
fn binary_file_is_copied_verbatim() {
    let data: Vec<u8> = vec![0, 36, 67, 72, 65, 73, 78, 95, 70, 79, 79, 255, 254];
    let env = vars(&[("CHAIN_FOO", "x")]);
    let out = process_file(&data, &env, &vec![]).unwrap();
    assert_eq!(out.text, data);
    assert!(out.unresolved.is_empty());
}

#[test]
fn text_file_is_substituted() {
    let env = vars(&[("CHAIN_PORT", "25565")]);
    let out = process_file(b"server-port=$CHAIN_PORT\n", &env, &vec![]).unwrap();
    assert_eq!(out.text, b"server-port=25565\n".to_vec());
}

#[test]
fn invalid_utf8_text_is_a_decode_error() {
    let r = process_file(&[b'a', 0xff, 0xfe, b'b'], &vec![], &vec![]);
    assert!(matches!(r, Err(ErrorKind::DecodeError)));
}

#[test]
fn environment_wins_over_settings() {
    let env = vars(&[("CHAIN_FOO", "X")]);
    let overrides = vars(&[("CHAIN_FOO", "Y")]);
    let out = render(b"value=$CHAIN_FOO;", &env, &overrides);
    assert_eq!(out.text, b"value=X;".to_vec());
    assert!(out.unresolved.is_empty());
}

#[test]
fn settings_value_used_without_environment() {
    let overrides = vars(&[("CHAIN_FOO", "Y")]);
    let out = render(b"value=$CHAIN_FOO;", &vec![], &overrides);
    assert_eq!(out.text, b"value=Y;".to_vec());
}

#[test]
fn missing_variable_becomes_empty_and_is_reported() {
    let out = render(b"a$CHAIN_FOO b", &vec![], &vec![]);
    assert_eq!(out.text, b"a b".to_vec());
    assert_eq!(out.unresolved, vec![b"CHAIN_FOO".to_vec()]);
}

#[test]
fn placeholder_name_stops_at_other_bytes() {
    let env = vars(&[("CHAIN_", "1"), ("CHAIN_A_2", "2")]);
    let out = render(b"$CHAIN_lower $CHAIN_A_2-x $OTHER $CHAIN", &env, &vec![]);
    assert_eq!(out.text, b"1lower 2-x $OTHER $CHAIN".to_vec());
}

#[test]
fn substitution_keeps_multibyte_text() {
    let env = vars(&[("CHAIN_NAME", "Größe")]);
    let out = render("¡$CHAIN_NAME!".as_bytes(), &env, &vec![]);
    assert_eq!(String::from_utf8(out.text).unwrap(), "¡Größe!");
}

#[test]
fn resolve_looks_in_both_sources() {
    let env = vars(&[("CHAIN_A", "env")]);
    let overrides = vars(&[("CHAIN_A", "set"), ("CHAIN_B", "set-b")]);
    assert_eq!(resolve(&env, &overrides, b"CHAIN_A"), Some("env".as_bytes()));
    assert_eq!(resolve(&env, &overrides, b"CHAIN_B"), Some("set-b".as_bytes()));
    assert_eq!(resolve(&env, &overrides, b"CHAIN_C"), None);
}

#[test]
fn bytes_compare() {
    assert!(bytes_eq(b"abc", b"abc"));
    assert!(!bytes_eq(b"abc", b"abd"));
    assert!(!bytes_eq(b"abc", b"ab"));
}

#[test]
fn mapping_sources() {
    assert!(matches!(plan_mapping(PathState::Missing), Err(ErrorKind::SourceNotFound)));
    assert!(matches!(plan_mapping(PathState::File), Ok(MappingAction::ProcessFile)));
    assert!(matches!(plan_mapping(PathState::Directory), Ok(MappingAction::ProcessDirectory)));
}

#[test]
fn empty_text_and_trailing_prefix() {
    assert!(render(b"", &vec![], &vec![]).text.is_empty());
    let out = render(b"x=$CHAIN_", &vec![], &vec![]);
    assert_eq!(out.text, b"x=".to_vec());
    assert_eq!(out.unresolved, vec![b"CHAIN_".to_vec()]);
}

#[test]
fn first_placeholder_reported_first() {
    let out = render(b"x $CHAIN_FOO $CHAIN_BAR", &vec![], &vars(&[("CHAIN_BAR", "b")]));
    assert_eq!(out.text, b"x  b".to_vec());
    assert_eq!(out.unresolved, vec![b"CHAIN_FOO".to_vec()]);
}
