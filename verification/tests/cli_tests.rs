use beep::cli::{parse_args, parse_u32, BeepOptions, Command, ConfigError};

fn args(xs: &[&str]) -> Vec<Vec<u8>> {
    xs.iter().map(|s| s.as_bytes().to_vec()).collect()
}

fn emit(freq: u32, duration: u32, verbose: bool) -> Result<Command, ConfigError> {
    Ok(Command::Emit(BeepOptions { freq, duration, verbose }))
}

#[test]
fn no_arguments_take_the_defaults() {
    assert_eq!(parse_args(&args(&[])), emit(440, 1000, false));
}

#[test]
fn short_options_with_separate_values() {
    assert_eq!(parse_args(&args(&["-f", "880", "-d", "250", "-v"])), emit(880, 250, true));
}

#[test]
fn long_options() {
    assert_eq!(
        parse_args(&args(&["--frequency", "880", "--duration", "250", "--verbose"])),
        emit(880, 250, true)
    );
}

#[test]
fn attached_values() {
    assert_eq!(parse_args(&args(&["-f880", "-d250"])), emit(880, 250, false));
    assert_eq!(parse_args(&args(&["--frequency=880", "--duration=250"])), emit(880, 250, false));
}

#[test]
fn help_in_both_forms() {
    assert_eq!(parse_args(&args(&["-h"])), Ok(Command::Help));
    assert_eq!(parse_args(&args(&["--help"])), Ok(Command::Help));
}

#[test]
fn help_wins_over_a_bad_value() {
    assert_eq!(parse_args(&args(&["-h", "-f", "abc"])), Ok(Command::Help));
    assert_eq!(parse_args(&args(&["-f", "abc", "-h"])), Ok(Command::Help));
}

#[test]
fn malformed_frequency_is_a_configuration_error() {
    assert_eq!(parse_args(&args(&["--frequency", "abc"])), Err(ConfigError::InvalidFrequency));
    assert_eq!(parse_args(&args(&["-f", "12x"])), Err(ConfigError::InvalidFrequency));
    assert_eq!(parse_args(&args(&["--frequency="])), Err(ConfigError::InvalidFrequency));
}

#[test]
fn malformed_duration_is_a_configuration_error() {
    assert_eq!(parse_args(&args(&["-d", "abc"])), Err(ConfigError::InvalidDuration));
}

#[test]
fn frequency_errors_before_duration() {
    assert_eq!(parse_args(&args(&["-f", "abc", "-d", "xyz"])), Err(ConfigError::InvalidFrequency));
}

#[test]
fn unknown_options_are_refused() {
    assert_eq!(parse_args(&args(&["-x"])), Err(ConfigError::UnknownOption));
    assert_eq!(parse_args(&args(&["--frequent"])), Err(ConfigError::UnknownOption));
}

#[test]
fn repeated_options_are_refused() {
    assert_eq!(parse_args(&args(&["-v", "-v"])), Err(ConfigError::DuplicateOption));
    assert_eq!(parse_args(&args(&["-f", "1", "--frequency", "2"])), Err(ConfigError::DuplicateOption));
    assert_eq!(parse_args(&args(&["-d250", "-d", "1"])), Err(ConfigError::DuplicateOption));
}

#[test]
fn a_value_option_at_the_end_misses_its_value() {
    assert_eq!(parse_args(&args(&["-f"])), Err(ConfigError::MissingValue));
    assert_eq!(parse_args(&args(&["-v", "--duration"])), Err(ConfigError::MissingValue));
}

#[test]
fn a_flag_does_not_take_a_value() {
    assert_eq!(parse_args(&args(&["--verbose=1"])), Err(ConfigError::UnexpectedValue));
    assert_eq!(parse_args(&args(&["--help=x"])), Err(ConfigError::UnexpectedValue));
}

#[test]
fn free_arguments_are_ignored() {
    assert_eq!(parse_args(&args(&["hello", "-v", "-"])), emit(440, 1000, true));
}

#[test]
fn double_dash_ends_option_scanning() {
    assert_eq!(parse_args(&args(&["--", "-f", "abc"])), emit(440, 1000, false));
    assert_eq!(parse_args(&args(&["-v", "--", "-x"])), emit(440, 1000, true));
}

#[test]
fn the_next_argument_is_the_value_even_if_it_looks_like_an_option() {
    assert_eq!(parse_args(&args(&["-f", "-v"])), Err(ConfigError::InvalidFrequency));
}

#[test]
fn values_at_the_edge_of_u32() {
    assert_eq!(parse_args(&args(&["-f", "4294967295"])), emit(4294967295, 1000, false));
    assert_eq!(parse_args(&args(&["-f", "4294967296"])), Err(ConfigError::InvalidFrequency));
}

#[test]
fn zero_frequency_parses_as_the_silence_sentinel() {
    assert_eq!(parse_args(&args(&["-f", "0", "-d", "500"])), emit(0, 500, false));
}

#[test]
fn numerals_as_the_standard_library_reads_them() {
    assert_eq!(parse_u32(&b"440".to_vec()), Some(440));
    assert_eq!(parse_u32(&b"+440".to_vec()), Some(440));
    assert_eq!(parse_u32(&b"007".to_vec()), Some(7));
    assert_eq!(parse_u32(&b"0".to_vec()), Some(0));
    assert_eq!(parse_u32(&b"".to_vec()), None);
    assert_eq!(parse_u32(&b"+".to_vec()), None);
    assert_eq!(parse_u32(&b"-1".to_vec()), None);
    assert_eq!(parse_u32(&b" 1".to_vec()), None);
    assert_eq!(parse_u32(&b"4294967295".to_vec()), Some(u32::MAX));
    assert_eq!(parse_u32(&b"99999999999999999999".to_vec()), None);
}

#[test]
fn clustered_short_flags() {
    assert_eq!(parse_args(&args(&["-vh"])), Ok(Command::Help));
    assert_eq!(parse_args(&args(&["-hv"])), Ok(Command::Help));
}

#[test]
fn clustered_flag_with_value_letter() {
    assert_eq!(parse_args(&args(&["-vf880"])), emit(880, 1000, true));
    assert_eq!(parse_args(&args(&["-vd", "250"])), emit(440, 250, true));
}

#[test]
fn an_unknown_letter_in_a_cluster_is_refused() {
    assert_eq!(parse_args(&args(&["-vx"])), Err(ConfigError::UnknownOption));
}

#[test]
fn single_letters_behind_a_double_dash() {
    assert_eq!(parse_args(&args(&["--f", "880"])), emit(880, 1000, false));
    assert_eq!(parse_args(&args(&["--f=880"])), emit(880, 1000, false));
    assert_eq!(parse_args(&args(&["--v", "--d", "250"])), emit(440, 250, true));
    assert_eq!(parse_args(&args(&["--h"])), Ok(Command::Help));
}

#[test]
fn a_double_dash_name_takes_no_attached_short_value() {
    assert_eq!(parse_args(&args(&["--f880"])), Err(ConfigError::UnknownOption));
}
