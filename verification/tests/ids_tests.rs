use fanout::{creation_time_ms, id_string, parse_id};

const ID1: &str = "01912d47-1aa9-7c51-8537-3c751e5af344";

#[test]
fn parse_matches_reference_parser() {
    let v = parse_id(ID1).expect("canonical form parses");
    assert_eq!(v, uuid::Uuid::parse_str(ID1).unwrap().as_u128());
}

#[test]
fn parse_exact_value() {
    assert_eq!(
        parse_id("00000000-0000-0000-0000-000000000001"),
        Some(1u128)
    );
    assert_eq!(
        parse_id("ffffffff-ffff-ffff-ffff-ffffffffffff"),
        Some(u128::MAX)
    );
    assert_eq!(
        parse_id("FFFFFFFF-FFFF-FFFF-FFFF-FFFFFFFFFFFF"),
        Some(u128::MAX)
    );
}

#[test]
fn parse_rejects_bad_forms() {
    assert_eq!(parse_id(""), None);
    assert_eq!(parse_id("01912d47"), None);
    // Right length, hyphen out of place.
    assert_eq!(parse_id("0-1912d471aa97c51-8537-3c751e5af344"), None);
    // Right length, a non-hex character.
    assert_eq!(parse_id("01912d47-1aa9-7c51-8537-3c751e5afg44"), None);
    // 36 characters of hex without hyphens.
    assert_eq!(parse_id("01912d471aa97c5185373c751e5af34401aa"), None);
}

#[test]
fn format_round_trips() {
    let v = parse_id(ID1).unwrap();
    assert_eq!(id_string(v), ID1);
    assert_eq!(
        id_string(0),
        "00000000-0000-0000-0000-000000000000"
    );
    assert_eq!(
        id_string(u128::MAX),
        "ffffffff-ffff-ffff-ffff-ffffffffffff"
    );
}

#[test]
fn creation_time_of_version_seven() {
    let u = uuid::Uuid::parse_str(ID1).unwrap();
    let ms = creation_time_ms(u.as_u128()).expect("a version-seven identifier has a timestamp");
    let (secs, nanos) = u.get_timestamp().unwrap().to_unix();
    assert_eq!(ms, secs * 1000 + (nanos as u64) / 1_000_000);
}

#[test]
fn creation_time_of_version_one() {
    let u = uuid::Uuid::parse_str("c232ab00-9414-11ec-b3c8-9f6bdeced846").unwrap();
    let ms = creation_time_ms(u.as_u128()).expect("a version-one identifier has a timestamp");
    let (secs, nanos) = u.get_timestamp().unwrap().to_unix();
    assert_eq!(ms, secs * 1000 + (nanos as u64) / 1_000_000);
    // 2022-02-22T19:22:22Z.
    assert_eq!(ms, 1_645_557_742_000);
}

#[test]
fn creation_time_of_version_six() {
    let u = uuid::Uuid::parse_str("1ec9414c-232a-6b00-b3c8-9f6bdeced846").unwrap();
    let ms = creation_time_ms(u.as_u128()).expect("a version-six identifier has a timestamp");
    let (secs, nanos) = u.get_timestamp().unwrap().to_unix();
    assert_eq!(ms, secs * 1000 + (nanos as u64) / 1_000_000);
    assert_eq!(ms, 1_645_557_742_000);
}

#[test]
fn creation_time_wraps_as_the_reference_does() {
    // A version-one identifier whose Gregorian tick count lies before the
    // Unix epoch: the reference arithmetic wraps, and so does ours.
    let u = uuid::Uuid::parse_str("00000000-0000-1000-8000-000000000000").unwrap();
    let ms = creation_time_ms(u.as_u128()).expect("still carries a timestamp");
    let (secs, nanos) = u.get_timestamp().unwrap().to_unix();
    assert_eq!(ms, secs * 1000 + (nanos as u64) / 1_000_000);
}

#[test]
fn creation_time_absent_for_other_versions() {
    let v4 = uuid::Uuid::parse_str("7f0a1c2d-3e4f-4a5b-8c6d-7e8f9a0b1c2d").unwrap();
    assert_eq!(creation_time_ms(v4.as_u128()), None);
    assert_eq!(creation_time_ms(uuid::Uuid::nil().as_u128()), None);
    let v4bis = uuid::Uuid::parse_str("c232ab00-9414-41ec-b3c8-9f6bdeced846").unwrap();
    assert_eq!(creation_time_ms(v4bis.as_u128()), None);
}
