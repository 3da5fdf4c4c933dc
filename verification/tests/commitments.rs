use rps_game::{choice_code, commit_to, commitment_input, digests_match, verify_commitment};
use rps_game::{Choice, GameError};

const SEVENS_ROCK: [u8; 32] = [
    11, 136, 35, 220, 240, 92, 46, 206, 208, 208, 82, 128, 255, 91, 196, 84, 207, 101, 97, 119,
    80, 163, 189, 249, 237, 193, 51, 229, 240, 236, 212, 252,
];

const SEVENS_SCISSORS: [u8; 32] = [
    97, 0, 119, 158, 101, 1, 38, 142, 212, 87, 252, 210, 115, 79, 208, 217, 161, 15, 206, 155,
    230, 32, 198, 13, 163, 89, 6, 149, 145, 67, 100, 228,
];

const COUNTING_PAPER: [u8; 32] = [
    88, 71, 16, 150, 178, 85, 174, 52, 247, 246, 243, 131, 116, 112, 90, 213, 209, 155, 102, 118,
    113, 143, 174, 132, 28, 219, 186, 176, 79, 147, 204, 87,
];

fn counting_salt() -> [u8; 32] {
    let mut salt = [0u8; 32];
    for (i, b) in salt.iter_mut().enumerate() {
        *b = i as u8;
    }
    salt
}

#[test]
fn codes_of_choices() {
    assert_eq!(choice_code(Choice::Rock), Some(1));
    assert_eq!(choice_code(Choice::Paper), Some(2));
    assert_eq!(choice_code(Choice::Scissors), Some(3));
    assert_eq!(choice_code(Choice::Lizard), None);
    assert_eq!(choice_code(Choice::Spock), None);
    assert_eq!(choice_code(Choice::Absent), None);
}

#[test]
fn input_is_salt_code_and_padding() {
    let buf = commitment_input(&counting_salt(), 3);
    assert_eq!(buf.len(), 64);
    assert_eq!(&buf[..32], &counting_salt()[..]);
    assert_eq!(buf[32], 3);
    assert!(buf[33..].iter().all(|b| *b == 0));
}

#[test]
fn commitment_is_the_sha256_digest() {
    assert_eq!(commit_to(Choice::Rock, &[7u8; 32]), Some(SEVENS_ROCK));
    assert_eq!(commit_to(Choice::Scissors, &[7u8; 32]), Some(SEVENS_SCISSORS));
    assert_eq!(commit_to(Choice::Paper, &counting_salt()), Some(COUNTING_PAPER));
    assert_eq!(commit_to(Choice::Spock, &[7u8; 32]), None);
}

#[test]
fn commitment_round_trip() {
    for choice in [Choice::Rock, Choice::Paper, Choice::Scissors] {
        for salt in [[0u8; 32], [7u8; 32], counting_salt(), [255u8; 32]] {
            let digest = commit_to(choice, &salt).unwrap();
            assert_eq!(verify_commitment(choice, &salt, &digest), Ok(()));
        }
    }
}

#[test]
fn known_digest_verifies() {
    assert_eq!(verify_commitment(Choice::Rock, &[7u8; 32], &SEVENS_ROCK), Ok(()));
    assert_eq!(verify_commitment(Choice::Paper, &counting_salt(), &COUNTING_PAPER), Ok(()));
}

#[test]
fn changed_choice_is_a_mismatch() {
    assert_eq!(
        verify_commitment(Choice::Paper, &[7u8; 32], &SEVENS_ROCK),
        Err(GameError::CommitmentMismatch)
    );
    assert_eq!(
        verify_commitment(Choice::Rock, &[7u8; 32], &SEVENS_SCISSORS),
        Err(GameError::CommitmentMismatch)
    );
}

#[test]
fn any_flipped_salt_bit_is_a_mismatch() {
    for byte in 0..32 {
        for bit in 0..8 {
            let mut salt = [7u8; 32];
            salt[byte] ^= 1 << bit;
            assert_eq!(
                verify_commitment(Choice::Rock, &salt, &SEVENS_ROCK),
                Err(GameError::CommitmentMismatch)
            );
        }
    }
}

#[test]
fn flipped_digest_bit_is_a_mismatch() {
    let mut stored = SEVENS_ROCK;
    stored[31] ^= 1;
    assert_eq!(
        verify_commitment(Choice::Rock, &[7u8; 32], &stored),
        Err(GameError::CommitmentMismatch)
    );
    assert_eq!(
        verify_commitment(Choice::Rock, &[7u8; 32], &[0u8; 32]),
        Err(GameError::CommitmentMismatch)
    );
}

#[test]
fn choices_without_a_code_are_invalid() {
    for choice in [Choice::Lizard, Choice::Spock, Choice::Absent] {
        assert_eq!(
            verify_commitment(choice, &[7u8; 32], &SEVENS_ROCK),
            Err(GameError::InvalidChoice)
        );
    }
}

#[test]
fn digests_are_compared_bytewise() {
    assert!(digests_match(&SEVENS_ROCK, &SEVENS_ROCK));
    assert!(!digests_match(&SEVENS_ROCK, &SEVENS_SCISSORS));
    let mut near = SEVENS_ROCK;
    near[0] ^= 0x80;
    assert!(!digests_match(&SEVENS_ROCK, &near));
}
