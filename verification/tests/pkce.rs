use mouflon::pkce::{url_safe_rand, verifier_to_challenge};

const ALPHABET: &str = "ABCDEFGHIJKLMNOPQRSTUVWXYZabcdefghijklmnopqrstuvwxyz0123456789-._~";

#[test]
fn test_verifier_to_challenge() {
    let sample_verifier = "8KiKcKzgi3MQ08g_AYs1jkU8jFWBFiMXf8K4GPuJjOMrjozl";
    let expected = "s83bY2yOhn9C5nu_bJnw_O33lsaF0MK_l5R78gNLrcE";
    let actual = verifier_to_challenge(sample_verifier);
    assert_eq!(&*actual, expected);
}

#[test]
fn challenge_is_deterministic() {
    let verifier = "dBjftJeZ4CVP-mB92K27uhbUJU1p1r_wW1gFWFOEjXk";
    assert_eq!(
        verifier_to_challenge(verifier),
        verifier_to_challenge(verifier)
    );
}

#[test]
fn challenge_of_empty_input_is_sha256_of_nothing() {
    // base64url, no padding, of SHA-256("")
    assert_eq!(
        verifier_to_challenge(""),
        "47DEQpj8HBSa-_TImW-5JCeuQeRkm5NMpJWZG3hSuFU"
    );
}

#[test]
fn generated_verifier_has_requested_length_and_alphabet() {
    for &len in &[16usize, 43, 64, 128] {
        let s = url_safe_rand(len);
        assert_eq!(s.len(), len);
        assert!(s.chars().all(|c| ALPHABET.contains(c)));
    }
}

#[test]
fn generated_verifiers_do_not_collide() {
    let mut seen = Vec::new();
    for _ in 0..200 {
        let v = url_safe_rand(64);
        assert!(!seen.contains(&v), "two generated verifiers collided");
        seen.push(v);
    }
}
