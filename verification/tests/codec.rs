use stream_stash::codec::{decode, encode};
use stream_stash::session::{LoggedInSession, Session, TempCodeVerifierSession};

fn logged_in(access: &str, refresh: &str, expires_at: i64) -> Session {
    Session::LoggedIn(LoggedInSession {
        access_token: access.to_string(),
        refresh_token: refresh.to_string(),
        expires_at,
    })
}

fn temp(verifier: &str) -> Session {
    Session::TempCodeVerifier(TempCodeVerifierSession {
        code_verifier: verifier.to_string(),
    })
}

#[test]
fn round_trip_logged_in() {
    let s = logged_in("ya29.a0AfH6SMB-token", "1//refresh-token", 1700000000);
    let cookie = encode(&s).unwrap();
    assert_eq!(decode(&cookie).unwrap(), s);
}

#[test]
fn round_trip_temp_code_verifier() {
    let s = temp("sGk2-LZ7~q_verifier.chars");
    let cookie = encode(&s).unwrap();
    assert_eq!(decode(&cookie).unwrap(), s);
}

#[test]
fn round_trip_empty_fields() {
    let s = logged_in("", "", 0);
    let cookie = encode(&s).unwrap();
    assert_eq!(decode(&cookie).unwrap(), s);

    let t = temp("");
    let cookie = encode(&t).unwrap();
    assert_eq!(decode(&cookie).unwrap(), t);
}

#[test]
fn round_trip_unicode_and_extreme_timestamps() {
    for &ts in &[i64::MIN, -1, 0, 1, i64::MAX] {
        let s = logged_in("tök€n-😀", "рефреш", ts);
        let cookie = encode(&s).unwrap();
        assert_eq!(decode(&cookie).unwrap(), s);
    }
}

#[test]
fn decode_rejects_foreign_strings() {
    for junk in [
        "",
        "x",
        "session",
        "T",
        "L",
        "Thello",
        "T00000000",
        "L0000000000000000",
        "{\"access_token\":\"a\"}",
        "T0000000g0000000000000000",
        "☃☃☃☃☃☃☃☃☃☃☃☃☃☃☃☃☃☃☃☃",
    ] {
        assert!(decode(junk).is_err(), "accepted junk: {junk:?}");
    }
}

#[test]
fn decode_rejects_truncation_and_extension() {
    let cookie = encode(&logged_in("t1", "r1", 12345)).unwrap();
    for cut in 0..cookie.len() {
        assert!(decode(&cookie[..cut]).is_err(), "accepted prefix of len {cut}");
    }
    let mut extended = cookie.clone();
    extended.push('0');
    assert!(decode(&extended).is_err());
}

#[test]
fn decode_rejects_every_single_character_change() {
    let cookie = encode(&temp("v1")).unwrap();
    let chars: Vec<char> = cookie.chars().collect();
    for i in 0..chars.len() {
        for replacement in ['0', 'f', 'T', 'L', 'z', ' '] {
            if chars[i] == replacement {
                continue;
            }
            let mut mutated = chars.clone();
            mutated[i] = replacement;
            let mutated: String = mutated.into_iter().collect();
            assert!(decode(&mutated).is_err(), "accepted mutation at {i}");
        }
    }
}

#[test]
fn decode_rejects_every_single_bit_flip() {
    let cookie = encode(&logged_in("t1", "r1", 1700003500)).unwrap();
    let bytes = cookie.as_bytes();
    for i in 0..bytes.len() {
        for k in 0..8 {
            let mut mutated = bytes.to_vec();
            mutated[i] ^= 1u8 << k;
            match String::from_utf8(mutated) {
                // a flip that still forms a string must be rejected by decode
                Ok(s) => assert!(decode(&s).is_err(), "accepted bit {k} of byte {i}"),
                // a flip that breaks the encoding never reaches decode
                Err(_) => {}
            }
        }
    }
}

#[test]
fn decode_rejects_non_canonical_spellings() {
    // structurally plausible, but the character slot holds a surrogate code
    // point, which no character has; the checksum is made consistent so only
    // the slot check can reject it
    let payload = "T0000000100d800";
    let sum: u32 = payload.chars().fold(0u32, |a, c| a.wrapping_add(c as u32));
    let forged = format!("{payload}{sum:08x}");
    assert!(decode(&forged).is_err());

    // uppercase hex digits are not part of the format
    let payload = "T0000000100004A";
    let sum: u32 = payload.chars().fold(0u32, |a, c| a.wrapping_add(c as u32));
    let forged = format!("{payload}{sum:08x}");
    assert!(decode(&forged).is_err());
}

#[test]
fn decode_accepts_only_matching_checksum() {
    // same payload as a genuine cookie, last checksum digit changed
    let cookie = encode(&temp("v1")).unwrap();
    let mut chars: Vec<char> = cookie.chars().collect();
    let last = chars.len() - 1;
    chars[last] = if chars[last] == '0' { '1' } else { '0' };
    let forged: String = chars.into_iter().collect();
    assert!(decode(&forged).is_err());
}

#[test]
fn encoded_cookies_discriminate_variants() {
    let a = encode(&temp("v1")).unwrap();
    let b = encode(&logged_in("v1", "", 0)).unwrap();
    assert_ne!(a, b);
    assert!(matches!(decode(&a).unwrap(), Session::TempCodeVerifier(_)));
    assert!(matches!(decode(&b).unwrap(), Session::LoggedIn(_)));
}
