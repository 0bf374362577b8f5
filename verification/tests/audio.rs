use wolf3d_rs::audio::wav::{build_wav, pcm_s16_from_u8, sfx_should_play};

#[test]
fn build_wav_writes_a_16_bit_header() {
    let wav = build_wav(vec![1, 2, 3, 4], 7000, 1);
    assert_eq!(wav.len(), 44 + 4);
    assert_eq!(&wav[0..4], b"RIFF");
    assert_eq!(&wav[4..8], &40u32.to_le_bytes());
    assert_eq!(&wav[8..16], b"WAVEfmt ");
    assert_eq!(&wav[16..20], &16u32.to_le_bytes());
    assert_eq!(&wav[20..22], &1u16.to_le_bytes());
    assert_eq!(&wav[22..24], &1u16.to_le_bytes());
    assert_eq!(&wav[24..28], &7000u32.to_le_bytes());
    assert_eq!(&wav[28..32], &14000u32.to_le_bytes());
    assert_eq!(&wav[32..34], &2u16.to_le_bytes());
    assert_eq!(&wav[34..36], &16u16.to_le_bytes());
    assert_eq!(&wav[36..40], b"data");
    assert_eq!(&wav[40..44], &4u32.to_le_bytes());
    assert_eq!(&wav[44..], &[1, 2, 3, 4]);
}

#[test]
fn build_wav_stereo_rates() {
    let wav = build_wav(Vec::new(), 44100, 2);
    assert_eq!(wav.len(), 44);
    assert_eq!(&wav[28..32], &(44100u32 * 4).to_le_bytes());
    assert_eq!(&wav[32..34], &4u16.to_le_bytes());
}

#[test]
fn pcm_conversion_recentres_and_scales() {
    let pcm = pcm_s16_from_u8(&[0, 128, 255, 129]);
    let expected: Vec<u8> = [-32768i16, 0, 32512, 256].iter().flat_map(|v| v.to_le_bytes()).collect();
    assert_eq!(pcm, expected);
}

#[test]
fn sfx_priority_rule() {
    assert!(sfx_should_play(5, 3, false));
    assert!(sfx_should_play(3, 3, false));
    assert!(!sfx_should_play(2, 3, false));
    assert!(sfx_should_play(2, 3, true));
}
