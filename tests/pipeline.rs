use ic_stable_diff::bmp::VAEDecoder;
use ic_stable_diff::model::{random_states, DDIMScheduler, TextEncoder, UNet};
use ic_stable_diff::pipeline::{PipelineError, StableDiffusionModel};
use ic_stable_diff::tokenizer::SimpleTokenizer;
use ic_stable_diff::types::GenerationRequest;

fn request(prompt: &str) -> GenerationRequest {
    GenerationRequest {
        prompt: prompt.to_string(),
        negative_prompt: None,
        width: None,
        height: None,
        num_inference_steps: None,
        guidance_scale_bits: None,
        seed: None,
    }
}

#[test]
fn tokenize_words_exact_ids() {
    let t = SimpleTokenizer::new();
    let ids = t.encode("a red cat");
    assert_eq!(ids.len(), 77);
    assert_eq!(&ids[..5], &[49406, 98, 316, 313, 49407]);
    assert!(ids[5..].iter().all(|&x| x == 0));
}

#[test]
fn tokenize_empty_text() {
    let t = SimpleTokenizer::new();
    let ids = t.encode("");
    assert_eq!(ids.len(), 77);
    assert_eq!(&ids[..2], &[49406, 49407]);
    assert!(ids[2..].iter().all(|&x| x == 0));
}

#[test]
fn tokenize_extra_whitespace_is_ignored() {
    let t = SimpleTokenizer::new();
    assert_eq!(t.encode("  a \t red\n cat  "), t.encode("a red cat"));
}

#[test]
fn tokenize_long_text_keeps_length() {
    let t = SimpleTokenizer::new();
    let text = vec!["word"; 500].join(" ");
    let ids = t.encode(&text);
    assert_eq!(ids.len(), 77);
    assert_eq!(ids[0], 49406);
    // "word" = 119 + 111 + 114 + 100 = 444
    assert!(ids[1..76].iter().all(|&x| x == 445));
    assert_eq!(ids[76], 49407);
}

#[test]
fn tokenize_unicode_text() {
    let t = SimpleTokenizer::new();
    let ids = t.encode("\u{00e9}t\u{00e9} \u{732b}");
    assert_eq!(ids.len(), 77);
    // 233 + 116 + 233 = 582; 0x732b = 29483
    assert_eq!(&ids[..4], &[49406, 583, 29484, 49407]);
}

#[test]
fn tokenize_large_code_sum_wraps_modulo() {
    let t = SimpleTokenizer::new();
    let word: String = std::iter::repeat('\u{10ffff}').take(3).collect();
    let ids = t.encode(&word);
    assert_eq!(ids[1], ((3u64 * 0x10ffff) % 49406 + 1) as u32);
}

#[test]
fn schedule_twenty_steps() {
    let s = DDIMScheduler::new();
    let ts = s.get_timesteps(20);
    assert_eq!(ts.len(), 20);
    assert_eq!(ts[0], 999);
    assert_eq!(ts[1], 949);
    assert_eq!(ts[19], 49);
    assert!(ts.windows(2).all(|w| w[0] > w[1]));
}

#[test]
fn schedule_edges() {
    let s = DDIMScheduler::new();
    assert_eq!(s.get_timesteps(1), vec![999]);
    let all = s.get_timesteps(1000);
    assert_eq!(all.len(), 1000);
    assert_eq!(all[0], 999);
    assert_eq!(all[999], 0);
    assert!(all.windows(2).all(|w| w[0] > w[1]));
    let over = s.get_timesteps(1500);
    assert_eq!(over.len(), 1500);
    assert!(over.iter().all(|&t| t == 999));
}

#[test]
fn scheduler_constants() {
    let s = DDIMScheduler::new();
    assert_eq!(s.beta_start_e5(), 85);
    assert_eq!(s.beta_end_e5(), 1200);
    assert_eq!(s.num_train_timesteps(), 1000);
}

#[test]
fn random_states_follow_generator() {
    let r = random_states(42, 3);
    let mut s: u64 = 42;
    let mut expected = Vec::new();
    for _ in 0..3 {
        s = s.wrapping_mul(1664525).wrapping_add(1013904223);
        expected.push(s);
    }
    assert_eq!(r[0], 1083814273);
    assert_eq!(r, expected);
    assert_eq!(random_states(42, 3), random_states(42, 3));
    assert!(random_states(7, 0).is_empty());
    let big = random_states(u64::MAX, 1);
    assert_eq!(big[0], u64::MAX.wrapping_mul(1664525).wrapping_add(1013904223));
}

#[test]
fn embedding_phases_layout() {
    let e = TextEncoder::new();
    let p = e.phases(&vec![1, 2]);
    assert_eq!(p.len(), 1536);
    assert_eq!(p[0], 1);
    assert_eq!(p[767], 768);
    assert_eq!(p[768], 2);
    assert_eq!(p[1535], 769);
}

#[test]
fn bitmap_layout_with_padding() {
    let d = VAEDecoder::new();
    // 2 x 2 image; pixel (x, y) colours at 3 * (y * 2 + x)
    let rgb: Vec<u8> = (1..=12).collect();
    let b = d.create_bmp(2, 2, &rgb);
    // stride = 6 + 2 padding
    assert_eq!(b.len(), 54 + 16);
    assert_eq!(&b[0..2], b"BM");
    assert_eq!(&b[2..6], &70u32.to_le_bytes());
    assert_eq!(&b[6..10], &[0, 0, 0, 0]);
    assert_eq!(&b[10..14], &54u32.to_le_bytes());
    assert_eq!(&b[14..18], &40u32.to_le_bytes());
    assert_eq!(&b[18..22], &2u32.to_le_bytes());
    assert_eq!(&b[22..26], &2u32.to_le_bytes());
    assert_eq!(&b[26..28], &1u16.to_le_bytes());
    assert_eq!(&b[28..30], &24u16.to_le_bytes());
    assert_eq!(&b[30..34], &0u32.to_le_bytes());
    assert_eq!(&b[34..38], &16u32.to_le_bytes());
    assert_eq!(&b[38..42], &2835u32.to_le_bytes());
    assert_eq!(&b[42..46], &2835u32.to_le_bytes());
    assert_eq!(&b[46..54], &[0; 8]);
    // first stored row is y = 1: pixels (0,1) = 7,8,9 and (1,1) = 10,11,12, in BGR
    assert_eq!(&b[54..62], &[9, 8, 7, 12, 11, 10, 0, 0]);
    assert_eq!(&b[62..70], &[3, 2, 1, 6, 5, 4, 0, 0]);
}

#[test]
fn bitmap_decoder_size() {
    let d = VAEDecoder::new();
    let rgb = vec![0u8; 64 * 64 * 3];
    let b = d.create_bmp(64, 64, &rgb);
    assert_eq!(b.len(), 54 + 64 * 64 * 3);
    assert_eq!(&b[0..2], b"BM");
    assert_eq!(b, d.create_bmp(64, 64, &rgb));
}

#[test]
fn latent_index_wraps() {
    let d = VAEDecoder::new();
    assert_eq!(d.latent_index(3, 2, 64, 16384), 131);
    assert_eq!(d.latent_index(0, 1, 64, 50), 14);
}

#[test]
fn plan_resolves_defaults() {
    let m = StableDiffusionModel::new();
    let _ = UNet::new();
    let p = m.plan(&request("a red cat")).ok().unwrap();
    assert_eq!(p.width, 512);
    assert_eq!(p.height, 512);
    assert_eq!(p.num_steps, 20);
    assert_eq!(p.guidance_scale_bits, 7.5f32.to_bits());
    assert_eq!(p.seed, 42);
    assert_eq!(p.latent_states.len(), 64 * 64 * 4);
    assert_eq!(p.latent_states, random_states(42, 64 * 64 * 4));
    assert_eq!(p.timesteps, DDIMScheduler::new().get_timesteps(20));
    assert_eq!(p.tokens, SimpleTokenizer::new().encode("a red cat"));
    assert_eq!(p.negative_tokens, SimpleTokenizer::new().encode(""));
}

#[test]
fn plan_uses_request_fields() {
    let m = StableDiffusionModel::new();
    let mut r = request("cat");
    r.negative_prompt = Some("dog".to_string());
    r.width = Some(64);
    r.height = Some(16);
    r.num_inference_steps = Some(5);
    r.guidance_scale_bits = Some(3.0f32.to_bits());
    r.seed = Some(7);
    let p = m.plan(&r).ok().unwrap();
    assert_eq!(p.latent_states, random_states(7, 8 * 2 * 4));
    assert_eq!(p.timesteps, vec![999, 799, 599, 399, 199]);
    assert_eq!(p.negative_tokens, SimpleTokenizer::new().encode("dog"));
    assert_eq!(p.guidance_scale_bits, 3.0f32.to_bits());
}

#[test]
fn plan_is_deterministic() {
    let m = StableDiffusionModel::new();
    let a = m.plan(&request("same prompt")).ok().unwrap();
    let b = m.plan(&request("same prompt")).ok().unwrap();
    assert_eq!(a.tokens, b.tokens);
    assert_eq!(a.latent_states, b.latent_states);
    assert_eq!(a.timesteps, b.timesteps);
}

#[test]
fn plan_errors() {
    let m = StableDiffusionModel::new();
    let mut r = request("x");
    r.width = Some(0);
    assert_eq!(m.plan(&r).err(), Some(PipelineError::ZeroLatentSize));
    let mut r = request("x");
    r.height = Some(7);
    assert_eq!(m.plan(&r).err(), Some(PipelineError::ZeroLatentSize));
    let mut r = request("x");
    r.num_inference_steps = Some(0);
    assert_eq!(m.plan(&r).err(), Some(PipelineError::ZeroSteps));
    assert_eq!(PipelineError::ZeroSteps.message(), "Number of inference steps must be positive");
    assert_eq!(PipelineError::ModelNotInitialized.message(), "Model not initialized");
}

#[test]
fn tokenize_unicode_whitespace_separates() {
    let t = SimpleTokenizer::new();
    assert_eq!(t.encode("a\u{3000}red\u{00a0}cat\u{2029}"), t.encode("a red cat"));
    assert_ne!(t.encode("a\u{200b}b"), t.encode("a b"));
}
