use loco::engine::civil::{format_utc, utc_timestamp};
use loco::engine::backend::InferenceBackend;
use loco::engine::catalog::{ModelId, ModelSpec};
use loco::engine::paths::{cache_root_from, join, CacheLayout};
use loco::engine::status::{model_fully_ready, model_status, ModelStatus};
use loco::engine::civil::civil_from_unix;

#[test]
fn backend_parses_aliases() {
    assert_eq!(
        InferenceBackend::parse("cpu").unwrap(),
        InferenceBackend::Cpu
    );
    assert_eq!(
        InferenceBackend::parse("GPU").unwrap(),
        InferenceBackend::Gpu
    );
    assert_eq!(
        InferenceBackend::parse("metal").unwrap(),
        InferenceBackend::Gpu
    );
    assert!(InferenceBackend::parse("npu").is_err());
}

#[test]
fn backend_error_message_and_names() {
    let err = InferenceBackend::parse("  NPU ").unwrap_err();
    assert_eq!(err.0, "npu");
    assert_eq!(
        err.message(),
        "unknown inference backend: npu (expected cpu or gpu)"
    );
    assert_eq!(InferenceBackend::Cpu.as_str(), "cpu");
    assert_eq!(InferenceBackend::Gpu.as_str(), "gpu");
}

#[test]
fn catalog_parses_aliases() {
    assert_eq!(ModelId::parse("gemma4-e4b"), Some(ModelId::Gemma4E4b));
    assert_eq!(ModelId::parse("e4b"), Some(ModelId::Gemma4E4b));
    assert_eq!(ModelId::parse("nope"), None);
}

#[test]
fn gemma_spec_points_at_litert_community() {
    let spec = ModelSpec::for_id(ModelId::Gemma4E4b);
    assert_eq!(spec.hf_repo, "litert-community/gemma-4-E4B-it-litert-lm");
    assert!(spec.filename.ends_with(".litertlm"));
}

#[test]
fn layout_nests_by_model_id() {
    let layout = CacheLayout::new("/tmp/loco-cache");
    assert_eq!(
        layout.model_path(&ModelSpec::gemma4_e4b_it()),
        "/tmp/loco-cache/models/gemma4-e4b/gemma-4-E4B-it.litertlm"
    );
}

#[test]
fn join_handles_separators() {
    assert_eq!(join("/a/", "b"), "/a/b");
    assert_eq!(join("/a", "/b"), "/b");
    assert_eq!(join("", "b"), "b");
    assert_eq!(cache_root_from(Some("/home/u/.cache")), "/home/u/.cache/loco-bot");
    assert_eq!(cache_root_from(None), "./loco-bot");
}

#[test]
fn missing_when_file_absent() {
    let layout = CacheLayout::new("/tmp/loco-none");
    let status = model_status(&layout, ModelId::Gemma4E4b, None);
    assert!(!status.is_ready());
    match status {
        ModelStatus::Missing { expected } => {
            assert!(expected.ends_with("gemma-4-E4B-it.litertlm"));
        }
        other => panic!("expected Missing, got {other:?}"),
    }
}

#[test]
fn present_when_nonempty_file_exists() {
    let layout = CacheLayout::new("/tmp/loco-some");
    let status = model_status(&layout, ModelId::Gemma4E4b, Some(12));
    assert!(status.is_ready());
    match status {
        ModelStatus::Present { bytes, .. } => assert_eq!(bytes, 12),
        other => panic!("expected Present, got {other:?}"),
    }
    assert!(!model_fully_ready(&layout, ModelId::Gemma4E4b, Some(0)));
    assert!(model_fully_ready(&layout, ModelId::Gemma4E4b, Some(1)));
}

#[test]
fn civil_epoch_smoke() {
    let (y, m, d, h, mi, s) = civil_from_unix(0);
    assert_eq!((y, m, d, h, mi, s), (1970, 1, 1, 0, 0, 0));
}

#[test]
fn civil_handles_leap_days_and_day_ends() {
    assert_eq!(civil_from_unix(951782400), (2000, 2, 29, 0, 0, 0));
    assert_eq!(civil_from_unix(1709210096), (2024, 2, 29, 12, 34, 56));
    assert_eq!(civil_from_unix(4102444799), (2099, 12, 31, 23, 59, 59));
    assert_eq!(civil_from_unix(86399), (1970, 1, 1, 23, 59, 59));
}

#[test]
fn utc_text_pads_fields() {
    assert_eq!(utc_timestamp(0), "1970-01-01T00:00:00Z");
    assert_eq!(utc_timestamp(1709210096), "2024-02-29T12:34:56Z");
    assert_eq!(format_utc(-5, 1, 2, 3, 4, 5), "-005-01-02T03:04:05Z");
    assert_eq!(format_utc(12345, 12, 31, 23, 59, 59), "12345-12-31T23:59:59Z");
    assert_eq!(format!("{:04}", -5i32), "-005");
}
