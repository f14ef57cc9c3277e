use std::time::Duration;
use slv_rust::asset_manager::{AssetManager, HttpAsset, TransferOutcome};
use slv_rust::assets::{AssetPriority, AssetTransferConfig, AssetTransferStatus, AssetType};
use slv_rust::error::NetworkError;

type Cb = &'static str;

fn manager() -> AssetManager<Cb> {
    AssetManager::new(AssetTransferConfig::default())
}

#[test]
fn requests_are_queued_by_priority() {
    let mut m = manager();
    assert!(m.request_asset([1; 16], AssetType::Texture, AssetPriority::Normal, None).is_none());
    assert!(m.request_asset([2; 16], AssetType::Texture, AssetPriority::Low, None).is_none());
    assert!(m.request_asset([3; 16], AssetType::Texture, AssetPriority::High, None).is_none());
    assert!(m.request_asset([4; 16], AssetType::Texture, AssetPriority::Normal, None).is_none());
    let order: Vec<u8> = std::iter::from_fn(|| m.next_transfer()).map(|t| t.asset_id[0]).collect();
    assert_eq!(order, vec![3, 1, 4, 2]);
    assert_eq!(m.get_stats().total_requests, 4);
}

#[test]
fn fetched_assets_are_cached_and_reported() {
    let mut m = manager();
    assert!(m.request_asset([5; 16], AssetType::Mesh, AssetPriority::Normal, Some("first")).is_none());
    let t = m.next_transfer().unwrap();
    m.start_transfer(&t);
    assert_eq!(m.get_active_transfers().len(), 1);
    assert_eq!(m.begin_http_transfer(true, t.asset_type).unwrap(), HttpAsset::Mesh);
    match m.finish_transfer(t, Ok(vec![9, 9, 9]), Duration::from_millis(40)) {
        TransferOutcome::Done { callback, result } => {
            assert_eq!(callback, Some("first"));
            assert_eq!(result.status, AssetTransferStatus::Success);
            assert_eq!(result.data, Some(vec![9, 9, 9]));
        }
        other => panic!("unexpected {:?}", other),
    }
    assert!(m.get_active_transfers().is_empty());
    let stats = m.get_stats();
    assert_eq!((stats.successful_transfers, stats.bytes_transferred, stats.http_transfers), (1, 3, 1));
    assert_eq!(stats.average_transfer_time, Duration::from_millis(20));
    // A second request is answered from the cache.
    match m.request_asset([5; 16], AssetType::Mesh, AssetPriority::Normal, Some("second")) {
        Some((Some(cb), result)) => {
            assert_eq!(cb, "second");
            assert_eq!(result.status, AssetTransferStatus::Cached);
            assert_eq!(result.data, Some(vec![9, 9, 9]));
        }
        other => panic!("unexpected {:?}", other),
    }
    assert_eq!(m.get_stats().cached_hits, 1);
    assert_eq!(m.get_cache_stats().cache_entries, 1);
    m.clear_cache();
    assert_eq!(m.get_cache_stats().cache_entries, 0);
}

#[test]
fn failures_are_retried_then_reported() {
    let mut m = manager();
    m.request_asset([6; 16], AssetType::Sound, AssetPriority::Low, Some("cb"));
    let mut t = m.next_transfer().unwrap();
    for attempt in 1..=3u32 {
        match m.finish_transfer(t, Err("down".to_string()), Duration::from_millis(1)) {
            TransferOutcome::Retry { transfer } => {
                assert_eq!(transfer.retry_count, attempt);
                m.requeue(transfer);
                t = m.next_transfer().unwrap();
            }
            other => panic!("unexpected {:?}", other),
        }
    }
    match m.finish_transfer(t, Err("down".to_string()), Duration::from_millis(1)) {
        TransferOutcome::Done { callback, result } => {
            assert_eq!(callback, Some("cb"));
            assert_eq!(result.status, AssetTransferStatus::Failed);
            assert_eq!(result.error, Some("down".to_string()));
        }
        other => panic!("unexpected {:?}", other),
    }
    assert_eq!(m.get_stats().failed_transfers, 1);
}

#[test]
fn http_needs_capabilities_and_a_supported_type() {
    let mut m = manager();
    match m.begin_http_transfer(false, AssetType::Texture) {
        Err(NetworkError::Other { reason }) => assert_eq!(reason, "No capabilities manager available"),
        other => panic!("unexpected {:?}", other),
    }
    assert_eq!(m.get_stats().http_transfers, 0);
    assert_eq!(m.begin_http_transfer(true, AssetType::ImageJPEG).unwrap(), HttpAsset::Texture);
    match m.begin_http_transfer(true, AssetType::Notecard) {
        Err(NetworkError::Other { reason }) => assert_eq!(reason, "Asset type Notecard not supported for HTTP transfer"),
        other => panic!("unexpected {:?}", other),
    }
    assert_eq!(m.get_stats().http_transfers, 2);
    match m.begin_udp_transfer() {
        NetworkError::Other { reason } => assert_eq!(reason, "UDP asset transfer implementation pending"),
        other => panic!("unexpected {:?}", other),
    }
    assert_eq!(m.get_stats().udp_transfers, 1);
}

#[test]
fn cancelling_forgets_the_request() {
    let mut m = manager();
    m.request_asset([7; 16], AssetType::Texture, AssetPriority::Normal, Some("x"));
    m.request_asset([8; 16], AssetType::Texture, AssetPriority::Normal, None);
    assert!(m.cancel_transfer(&[7; 16]));
    assert!(!m.cancel_transfer(&[7; 16]));
    let t = m.next_transfer().unwrap();
    assert_eq!(t.asset_id, [8; 16]);
    assert!(m.next_transfer().is_none());
    m.start_transfer(&t);
    assert!(m.cancel_transfer(&[8; 16]));
    assert!(m.get_active_transfers().is_empty());
}

#[test]
fn maintenance_keeps_recent_requests() {
    let mut m = manager();
    m.request_asset([9; 16], AssetType::Texture, AssetPriority::Normal, None);
    let t = m.next_transfer().unwrap();
    m.start_transfer(&t);
    m.requeue(t);
    m.maintenance();
    assert!(m.next_transfer().is_some());
    assert_eq!(m.get_active_transfers().len(), 1);
}
