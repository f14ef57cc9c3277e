use slv_rust::assets::{
    AssetPermissions, AssetPriority, AssetTransferConfig, AssetType, MeshFormat, QueuedTransfer,
    SoundFormat, TextureFormat, TransferStats,
};

#[test]
fn asset_type_codes_roundtrip() {
    for code in 0u8..=255 {
        let t = AssetType::from(code);
        let known = code <= 25 || code == 46 || code == 49 || code == 56 || code == 57;
        if known {
            assert_eq!(t.code(), code);
        } else {
            assert_eq!(t, AssetType::Object);
        }
    }
    assert_eq!(AssetType::from(49), AssetType::Mesh);
    assert_eq!(AssetType::Material.code(), 57);
}

#[test]
fn http_transfer_support() {
    assert!(AssetType::Texture.supports_http_transfer());
    assert!(AssetType::Mesh.supports_http_transfer());
    assert!(!AssetType::Sound.supports_http_transfer());
    assert_eq!(AssetType::ImageJPEG.http_capability_name(), Some("GetTexture"));
    assert_eq!(AssetType::Mesh.http_capability_name(), Some("GetMesh2"));
    assert_eq!(AssetType::Notecard.http_capability_name(), None);
}

#[test]
fn texture_formats_by_signature() {
    assert_eq!(TextureFormat::detect_from_header(&[0, 0, 0, 0x0C, 0x6A, 0x50, 0x20, 0x20, 9]), Some(TextureFormat::J2C));
    assert_eq!(TextureFormat::detect_from_header(&[0xFF, 0xD8, 0xFF, 0xE0]), Some(TextureFormat::JPEG));
    assert_eq!(TextureFormat::detect_from_header(&[0x89, 0x50, 0x4E, 0x47, 0x0D, 0x0A, 0x1A, 0x0A]), Some(TextureFormat::PNG));
    let mut tga = vec![0u8; 18];
    tga[2] = 2;
    assert_eq!(TextureFormat::detect_from_header(&tga), Some(TextureFormat::TGA));
    assert_eq!(TextureFormat::detect_from_header(&[0x42, 0x4D, 0, 0]), Some(TextureFormat::BMP));
    assert_eq!(TextureFormat::detect_from_header(&[0x42, 0x4D, 0]), None);
    assert_eq!(TextureFormat::detect_from_header(&[1, 2, 3, 4]), None);
    assert_eq!(TextureFormat::PNG.extension(), "png");
    assert_eq!(TextureFormat::JPEG.extension(), "jpg");
    assert_eq!(MeshFormat::LLSD.extension(), "llsd");
}

#[test]
fn sound_formats_by_signature() {
    let mut wav = b"RIFF".to_vec();
    wav.extend_from_slice(&[0, 0, 0, 0]);
    wav.extend_from_slice(b"WAVE");
    assert_eq!(SoundFormat::detect_from_header(&wav), Some(SoundFormat::WAV));
    assert_eq!(SoundFormat::detect_from_header(b"OggS\0"), Some(SoundFormat::OGG));
    assert_eq!(SoundFormat::detect_from_header(b"ID3\x04"), Some(SoundFormat::MP3));
    assert_eq!(SoundFormat::detect_from_header(&[0xFF, 0xFB, 0x90, 0x00]), Some(SoundFormat::MP3));
    assert_eq!(SoundFormat::detect_from_header(b"RIFFxxxxAVI "), None);
    assert_eq!(SoundFormat::detect_from_header(b"abc"), None);
    assert_eq!(SoundFormat::OGG.extension(), "ogg");
}

#[test]
fn defaults_and_queue_retries() {
    let p = AssetPermissions::default();
    assert!(p.can_copy && p.can_transfer && p.can_fly && !p.can_modify);
    let c = AssetTransferConfig::default();
    assert_eq!(c.max_concurrent_http, 8);
    assert_eq!(c.http_timeout.as_secs(), 30);
    assert_eq!(c.retry_delay.as_secs(), 2);
    let s = TransferStats::default();
    assert_eq!(s.total_requests, 0);
    let mut q = QueuedTransfer::new([1; 16], AssetType::Texture, AssetPriority::High);
    assert!(!q.has_exceeded_retries());
    q.increment_retry();
    q.increment_retry();
    q.increment_retry();
    assert!(q.has_exceeded_retries());
    assert!(AssetPriority::Critical > AssetPriority::Low);
    assert_eq!(AssetPriority::High.level(), 2);
}
