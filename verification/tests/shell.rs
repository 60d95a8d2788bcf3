use tarstream::error::PathError;
use tarstream::shell::{parse_block_size, validate_paths, DEFAULT_BLOCK_SIZE};

#[test]
fn default_block_size_is_16_mib() {
    assert_eq!(DEFAULT_BLOCK_SIZE, 1 << 24);
    assert_eq!(DEFAULT_BLOCK_SIZE, 16777216);
}

#[test]
fn validate_paths_accepts_a_fresh_destination() {
    assert_eq!(validate_paths(true, false, false), Ok(()));
    assert_eq!(validate_paths(true, false, true), Ok(()));
}

#[test]
fn validate_paths_refuses_an_existing_destination_without_force() {
    assert_eq!(validate_paths(true, true, false), Err(PathError::DestinationExists));
    assert_eq!(validate_paths(true, true, true), Ok(()));
}

#[test]
fn validate_paths_refuses_a_missing_source_first() {
    assert_eq!(validate_paths(false, false, false), Err(PathError::SourceMissing));
    assert_eq!(validate_paths(false, true, false), Err(PathError::SourceMissing));
    assert_eq!(validate_paths(false, true, true), Err(PathError::SourceMissing));
    assert_eq!(validate_paths(false, false, true), Err(PathError::SourceMissing));
}

#[test]
fn parse_block_size_reads_decimal_digits() {
    assert_eq!(parse_block_size("0"), Some(0));
    assert_eq!(parse_block_size("1"), Some(1));
    assert_eq!(parse_block_size("4096"), Some(4096));
    assert_eq!(parse_block_size("16777216"), Some(DEFAULT_BLOCK_SIZE));
    assert_eq!(parse_block_size("007"), Some(7));
    assert_eq!(parse_block_size("+12"), Some(12));
    assert_eq!(parse_block_size("+0"), Some(0));
}

#[test]
fn parse_block_size_refuses_what_is_no_number() {
    for text in ["", "+", "-", "-1", "-0", "++1", "+-1", " 1", "1 ", "1k", "0x10", "1_000", "1.5",
        "1e3", "one", "\u{661}", "12\u{a0}", "1+", "+ 1"]
    {
        assert_eq!(parse_block_size(text), None, "{:?}", text);
    }
}

#[test]
fn parse_block_size_goes_up_to_the_largest_size() {
    let max = usize::MAX.to_string();
    assert_eq!(parse_block_size(&max), Some(usize::MAX));
    assert_eq!(parse_block_size(&format!("+{}", max)), Some(usize::MAX));
    assert_eq!(parse_block_size(&format!("000{}", max)), Some(usize::MAX));
    let over = format!("{}", usize::MAX as u128 + 1);
    assert_eq!(parse_block_size(&over), None);
    assert_eq!(parse_block_size(&format!("{}0", max)), None);
    assert_eq!(parse_block_size(&format!("{}", usize::MAX as u128 * 10)), None);
    assert_eq!(parse_block_size("99999999999999999999999999999999999999999"), None);
    assert_eq!(parse_block_size(&format!("{}", usize::MAX - 1)), Some(usize::MAX - 1));
}

#[test]
fn parse_block_size_reads_as_the_standard_library_does() {
    let mut texts: Vec<String> = Vec::new();
    let alphabet = ["", "0", "1", "9", "+", "-", " ", "a", "18446744073709551615", "4294967295"];
    for a in alphabet {
        for b in alphabet {
            for c in alphabet {
                texts.push(format!("{}{}{}", a, b, c));
            }
        }
    }
    for text in &texts {
        assert_eq!(parse_block_size(text), text.parse::<usize>().ok(), "{:?}", text);
    }
}
