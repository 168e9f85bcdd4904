use contact_captcha::captchas::{clear_outdated, CaptchaError, CaptchaList, EXPIRY_SECONDS};
use contact_captcha::simple_captcha::SimpleCaptcha;

const T: u64 = 1_700_000_000_000;

fn challenge(image: &str, code: &str, issued: u64) -> SimpleCaptcha {
    SimpleCaptcha::from_parts(
        image.to_string(),
        code,
        "0123456789abcdefghijABCDEFGHIJ".to_string(),
        issued,
    )
}

#[test]
fn expiry_is_three_hundred_seconds() {
    assert_eq!(EXPIRY_SECONDS, 300);
}

#[test]
fn new_store_is_empty() {
    assert_eq!(CaptchaList::new().len(), 0);
}

#[test]
fn validate_consumes_on_success() {
    let mut list = CaptchaList::new();
    let captcha = challenge("aW1hZ2U=", "AB2349", T);
    let id = captcha.image_hash.clone();
    list.insert_at(captcha, T);
    assert_eq!(list.len(), 1);
    assert_eq!(list.validate_at(id.clone(), "ab2349".to_string(), T + 1_000, T + 1_000), Ok(()));
    assert_eq!(list.len(), 0);
    assert_eq!(
        list.validate_at(id, "ab2349".to_string(), T + 2_000, T + 2_000),
        Err(CaptchaError::NotFound)
    );
}

#[test]
fn validate_unknown_identifier() {
    let mut list = CaptchaList::new();
    assert_eq!(
        list.validate_at("unknown-id".to_string(), "ANY".to_string(), T, T),
        Err(CaptchaError::NotFound)
    );
    list.insert_at(challenge("aW1hZ2U=", "AB2349", T), T);
    assert_eq!(
        list.validate_at("unknown-id".to_string(), "ANY".to_string(), T, T),
        Err(CaptchaError::NotFound)
    );
    assert_eq!(list.len(), 1);
}

#[test]
fn validate_consumes_on_failure() {
    let mut list = CaptchaList::new();
    let captcha = challenge("aW1hZ2U=", "AB2349", T);
    let id = captcha.image_hash.clone();
    list.insert_at(captcha, T);
    assert_eq!(
        list.validate_at(id.clone(), "WRONGCODE".to_string(), T + 1_000, T + 1_000),
        Err(CaptchaError::Invalid)
    );
    assert_eq!(list.len(), 0);
    assert_eq!(
        list.validate_at(id, "AB2349".to_string(), T + 2_000, T + 2_000),
        Err(CaptchaError::NotFound)
    );
}

#[test]
fn validate_before_expiry() {
    let mut list = CaptchaList::new();
    let captcha = challenge("aW1hZ2U=", "AB2349", T);
    let id = captcha.image_hash.clone();
    list.insert_at(captcha, T);
    assert_eq!(list.validate_at(id, "AB2349".to_string(), T + 299_000, T + 299_000), Ok(()));
}

#[test]
fn validate_at_the_limit() {
    let mut list = CaptchaList::new();
    let captcha = challenge("aW1hZ2U=", "AB2349", T);
    let id = captcha.image_hash.clone();
    list.insert_at(captcha, T);
    assert_eq!(list.validate_at(id, "AB2349".to_string(), T + 300_000, T + 300_000), Ok(()));
}

#[test]
fn validate_expired_after_the_sweep() {
    let mut list = CaptchaList::new();
    let captcha = challenge("aW1hZ2U=", "AB2349", T);
    let id = captcha.image_hash.clone();
    list.insert_at(captcha, T);
    assert_eq!(
        list.validate_at(id.clone(), "AB2349".to_string(), T + 300_000, T + 301_000),
        Err(CaptchaError::Expired)
    );
    assert_eq!(list.len(), 0);
    assert_eq!(
        list.validate_at(id, "AB2349".to_string(), T + 300_000, T + 300_000),
        Err(CaptchaError::NotFound)
    );
}

#[test]
fn validate_expired_just_past_the_limit() {
    let mut list = CaptchaList::new();
    let captcha = challenge("aW1hZ2U=", "AB2349", T);
    let id = captcha.image_hash.clone();
    list.insert_at(captcha, T);
    assert_eq!(
        list.validate_at(id, "AB2349".to_string(), T + 300_000, T + 300_001),
        Err(CaptchaError::Expired)
    );
}

#[test]
fn validate_swept_before_lookup() {
    let mut list = CaptchaList::new();
    let captcha = challenge("aW1hZ2U=", "AB2349", T);
    let id = captcha.image_hash.clone();
    list.insert_at(captcha, T);
    assert_eq!(
        list.validate_at(id, "AB2349".to_string(), T + 301_000, T + 301_000),
        Err(CaptchaError::NotFound)
    );
    assert_eq!(list.len(), 0);
}

#[test]
fn validate_sweeps_the_others() {
    let mut list = CaptchaList::new();
    let old = challenge("b2xk", "AAAAAA", T);
    let young = challenge("eW91bmc=", "BBBBBB", T + 200_000);
    let young_id = young.image_hash.clone();
    list.insert_at(old, T);
    list.insert_at(young, T + 200_000);
    assert_eq!(list.len(), 2);
    assert_eq!(
        list.validate_at("unknown-id".to_string(), "ANY".to_string(), T + 400_000, T + 400_000),
        Err(CaptchaError::NotFound)
    );
    assert_eq!(list.len(), 1);
    assert_eq!(
        list.validate_at(young_id, "bbbbbb".to_string(), T + 400_000, T + 400_000),
        Ok(())
    );
}

#[test]
fn insert_sweeps_outdated() {
    let mut list = CaptchaList::new();
    let images = ["MQ==", "Mg==", "Mw==", "NA==", "NQ=="];
    for image in images {
        list.insert_at(challenge(image, "AB2349", T), T);
    }
    assert_eq!(list.len(), 5);
    let last = challenge("Ng==", "AB2349", T + 301_000);
    let last_id = last.image_hash.clone();
    list.insert_at(last, T + 301_000);
    assert_eq!(list.len(), 1);
    assert_eq!(
        list.validate_at(last_id, "AB2349".to_string(), T + 301_000, T + 301_000),
        Ok(())
    );
}

#[test]
fn insert_keeps_fresh() {
    let mut list = CaptchaList::new();
    list.insert_at(challenge("MQ==", "AB2349", T), T);
    list.insert_at(challenge("Mg==", "AB2349", T + 300_000), T + 300_000);
    assert_eq!(list.len(), 2);
    list.insert_at(challenge("Mw==", "AB2349", T + 300_001), T + 300_001);
    assert_eq!(list.len(), 2);
}

#[test]
fn insert_overwrites_same_identifier() {
    let mut list = CaptchaList::new();
    let first = challenge("aW1hZ2U=", "AAAAAA", T);
    let second = challenge("aW1hZ2U=", "BBBBBB", T + 1_000);
    let id = first.image_hash.clone();
    assert_eq!(id, second.image_hash);
    list.insert_at(first, T);
    list.insert_at(second, T + 1_000);
    assert_eq!(list.len(), 1);
    assert_eq!(
        list.validate_at(id.clone(), "BBBBBB".to_string(), T + 2_000, T + 2_000),
        Ok(())
    );
    assert_eq!(
        list.validate_at(id, "AAAAAA".to_string(), T + 2_000, T + 2_000),
        Err(CaptchaError::NotFound)
    );
}

#[test]
fn insert_keeps_outdated_newcomer() {
    let mut list = CaptchaList::new();
    list.insert_at(challenge("aW1hZ2U=", "AB2349", T), T + 400_000);
    assert_eq!(list.len(), 1);
    clear_outdated(&mut list, T + 400_000);
    assert_eq!(list.len(), 0);
}

#[test]
fn clear_outdated_at_the_limit() {
    let mut list = CaptchaList::new();
    list.insert_at(challenge("MQ==", "AB2349", T), T);
    list.insert_at(challenge("Mg==", "AB2349", T + 1), T + 1);
    clear_outdated(&mut list, T + 300_000);
    assert_eq!(list.len(), 2);
    clear_outdated(&mut list, T + 300_001);
    assert_eq!(list.len(), 1);
    clear_outdated(&mut list, T + 300_002);
    assert_eq!(list.len(), 0);
    clear_outdated(&mut list, T + 300_003);
    assert_eq!(list.len(), 0);
}

#[test]
fn challenge_dated_ahead_is_fresh() {
    let mut list = CaptchaList::new();
    let captcha = challenge("aW1hZ2U=", "AB2349", T + 1_000_000);
    let id = captcha.image_hash.clone();
    list.insert_at(captcha, T);
    clear_outdated(&mut list, 0);
    assert_eq!(list.len(), 1);
    assert_eq!(list.validate_at(id, "AB2349".to_string(), T, T), Ok(()));
}

#[test]
fn insert_and_validate_by_the_clock() {
    let mut list = CaptchaList::new();
    let right = SimpleCaptcha::new("AB2349", "aW1hZ2U=".to_string());
    let wrong = SimpleCaptcha::new("CD6789", "b3RoZXI=".to_string());
    let right_id = right.image_hash.clone();
    let wrong_id = wrong.image_hash.clone();
    list.insert(right);
    list.insert(wrong);
    assert_eq!(list.len(), 2);
    assert_eq!(list.validate(right_id.clone(), "ab2349".to_string()), Ok(()));
    assert_eq!(list.validate(right_id, "ab2349".to_string()), Err(CaptchaError::NotFound));
    assert_eq!(list.validate(wrong_id.clone(), "WRONGCODE".to_string()), Err(CaptchaError::Invalid));
    assert_eq!(list.validate(wrong_id, "CD6789".to_string()), Err(CaptchaError::NotFound));
    assert_eq!(list.validate("unknown-id".to_string(), "ANY".to_string()), Err(CaptchaError::NotFound));
    assert_eq!(list.len(), 0);
}

#[test]
fn insert_by_the_clock_sweeps() {
    let mut list = CaptchaList::new();
    for image in ["MQ==", "Mg==", "Mw=="] {
        list.insert_at(challenge(image, "AB2349", T), T);
    }
    assert_eq!(list.len(), 3);
    list.insert(SimpleCaptcha::new("AB2349", "aW1hZ2U=".to_string()));
    assert_eq!(list.len(), 1);
}

#[test]
fn error_messages() {
    assert_eq!(CaptchaError::NotFound.message(), "Captcha not found");
    assert_eq!(CaptchaError::Expired.message(), "Captcha timed out");
    assert_eq!(CaptchaError::Invalid.message(), "Captcha not valid");
}

#[test]
fn issue_registers_and_hands_out_the_handle() {
    let mut list = CaptchaList::new();
    let (id, image) = list.issue("AB2349", "aW1hZ2U=".to_string());
    assert_eq!(image, "aW1hZ2U=");
    assert_eq!(
        id,
        "7594EC279B701E3F2E29DCE1B372A1992A6C85C46933FD8B1EF985D2172EDA980F4206DFB90CD82F5BDC3A5951F92E36EEA6609A738D3C1AAE1D281ACB4F07A7"
    );
    assert_eq!(list.len(), 1);
    assert_eq!(list.validate(id.clone(), "ab2349".to_string()), Ok(()));
    assert_eq!(list.validate(id, "ab2349".to_string()), Err(CaptchaError::NotFound));
}

#[test]
fn issue_sweeps_outdated() {
    let mut list = CaptchaList::new();
    list.insert_at(challenge("MQ==", "AB2349", T), T);
    list.insert_at(challenge("Mg==", "AB2349", T), T);
    let (id, _) = list.issue("CD6789", "aW1hZ2U=".to_string());
    assert_eq!(list.len(), 1);
    assert_eq!(list.validate(id, "WRONGCODE".to_string()), Err(CaptchaError::Invalid));
    assert_eq!(list.len(), 0);
}
