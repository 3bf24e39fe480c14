//! Tests of the deterministic content-art pipeline: fingerprinting,
//! rarity classification, and image synthesis.

use base64::Engine;
use genenft::art::{select_style, ArtStyle};
use genenft::numfmt::{u64_to_string, u64_to_string_padded};
use genenft::state::AppState;

#[test]
fn fingerprint_is_deterministic() {
    let state = AppState::new();
    let a = state.hash_xml_content(b"<a/>");
    let b = state.hash_xml_content(b"<a/>");
    assert_eq!(a, b);
    assert_eq!(a.len(), 64);
    assert!(a.chars().all(|c| c.is_ascii_hexdigit()));
}

#[test]
fn fingerprint_matches_known_digests() {
    let state = AppState::new();
    assert_eq!(
        state.hash_xml_content(b""),
        "e3b0c44298fc1c149afbf4c8996fb92427ae41e4649b934ca495991b7852b855"
    );
    assert_eq!(
        state.hash_xml_content(b"abc"),
        "ba7816bf8f01cfea414140de5dae2223b00361a396177a9cb410ff61f20015ad"
    );
}

#[test]
fn fingerprints_differ_for_different_content() {
    let state = AppState::new();
    assert_ne!(state.hash_xml_content(b"<a/>"), state.hash_xml_content(b"<b/>"));
}

#[test]
fn rarity_boundaries() {
    let state = AppState::new();
    assert_eq!(state.determine_rarity(""), "Common");
    assert_eq!(state.determine_rarity("12"), "Common");
    assert_eq!(state.determine_rarity("ab"), "Common");
    assert_eq!(state.determine_rarity("abc"), "Rare");
    assert_eq!(state.determine_rarity("abcd"), "Rare");
    assert_eq!(state.determine_rarity("abcde"), "Epic");
    assert_eq!(state.determine_rarity("abcdef"), "Epic");
    assert_eq!(state.determine_rarity("abcdefa"), "Legendary");
    assert_eq!(state.determine_rarity("abcdefabcdef"), "Legendary");
}

#[test]
fn rarity_counts_only_hex_letters() {
    let state = AppState::new();
    // digits and unrelated letters do not count toward the tier
    assert_eq!(state.determine_rarity("0123456789zzzz"), "Common");
    assert_eq!(state.determine_rarity("a1b2c3"), "Rare");
}

#[test]
fn rarity_is_deterministic() {
    let state = AppState::new();
    let fp = state.hash_xml_content(b"<a/>");
    assert_eq!(state.determine_rarity(&fp), state.determine_rarity(&fp));
}

#[test]
fn token_id_counts_records() {
    let state = AppState::new();
    // the seed set holds two records, so the next ordinal is 3
    assert_eq!(state.generate_token_id(), "GENE-00000003");
}

#[test]
fn visualization_is_deterministic() {
    let state = AppState::new();
    let fp = state.hash_xml_content(b"<a/>");
    let a = state.generate_xml_visualization(&fp);
    let b = state.generate_xml_visualization(&fp);
    assert!(a.is_some());
    assert_eq!(a, b);
}

#[test]
fn visualization_rejects_bad_input() {
    let state = AppState::new();
    assert_eq!(state.generate_xml_visualization("not hex!"), None);
    assert_eq!(state.generate_xml_visualization("abc"), None); // odd length
    assert_eq!(state.generate_xml_visualization("abcdef"), None); // three bytes only
    assert!(state.generate_xml_visualization("abcdef01").is_some());
}

#[test]
fn visualization_is_base64_svg() {
    let state = AppState::new();
    let fp = state.hash_xml_content(b"<a/>");
    let packed = state.generate_xml_visualization(&fp).unwrap();
    let raw = base64::engine::general_purpose::STANDARD
        .decode(packed.as_bytes())
        .unwrap();
    let svg = String::from_utf8(raw).unwrap();
    assert!(svg.starts_with("<svg "));
    assert!(svg.ends_with("</svg>"));
}

#[test]
fn visualization_styles_follow_first_byte() {
    let state = AppState::new();
    let tail = "000102030405060708090a0b0c0d0e0f101112131415161718191a1b1c1d1e";
    let decode = |first: &str| {
        let hash = format!("{first}{tail}");
        assert_eq!(hash.len(), 64);
        let packed = state.generate_xml_visualization(&hash).unwrap();
        let raw = base64::engine::general_purpose::STANDARD
            .decode(packed.as_bytes())
            .unwrap();
        String::from_utf8(raw).unwrap()
    };
    // first byte 0: the grid heatmap, translucent white cells
    let heat = decode("00");
    assert!(heat.contains("rgba(255,255,255,"));
    // caption shows the first four bytes of the full hash
    assert!(heat.contains("XML Hash: 00000102"));
    // first byte 1: the geometric style draws filled circles
    let geo = decode("01");
    assert!(geo.contains("<circle "));
    // first byte 2: the helix also draws circles, no heatmap cells
    let helix = decode("02");
    assert!(helix.contains("<circle "));
    assert!(!helix.contains("rgba(255,255,255,"));
    // first byte 3: the fractal draws stroked frames
    let fract = decode("03");
    assert!(fract.contains("stroke-width=\"2\""));
}

#[test]
fn style_selection_follows_first_byte() {
    assert_eq!(select_style(&vec![0, 9, 9]), ArtStyle::Heatmap);
    assert_eq!(select_style(&vec![1, 9, 9]), ArtStyle::Geometric);
    assert_eq!(select_style(&vec![2, 9, 9]), ArtStyle::Helix);
    assert_eq!(select_style(&vec![3, 9, 9]), ArtStyle::Fractal);
    assert_eq!(select_style(&vec![4, 9, 9]), ArtStyle::Heatmap);
    assert_eq!(select_style(&vec![255, 9, 9]), ArtStyle::Fractal);
}

#[test]
fn visualization_accepts_either_digit_case() {
    // decoding accepts upper-case digits; the same bytes give the
    // same image
    let state = AppState::new();
    let lower = "abcdef0123456789abcdef0123456789abcdef0123456789abcdef0123456789";
    let upper = "ABCDEF0123456789ABCDEF0123456789ABCDEF0123456789ABCDEF0123456789";
    assert_eq!(lower.len(), 64);
    let a = state.generate_xml_visualization(&lower[..64]);
    let b = state.generate_xml_visualization(&upper[..64]);
    assert!(a.is_some());
    assert_eq!(a, b);
}

#[test]
fn decimal_rendering() {
    assert_eq!(u64_to_string(0), "0");
    assert_eq!(u64_to_string(7), "7");
    assert_eq!(u64_to_string(1234567890), "1234567890");
    assert_eq!(u64_to_string(u64::MAX), "18446744073709551615");
    assert_eq!(u64_to_string_padded(3, 8), "00000003");
    assert_eq!(u64_to_string_padded(123456789, 8), "123456789");
}
