use vaiber::plog::{Plog, ResolvedPlog};
use vaiber::storage::{DesktopStorage, MemoryStorage, StorageProvider, WalletStorage, WebStorage};
use vaiber::vlad::Vlad;
use vaiber::Error;

fn sample_vlad() -> Vlad {
    Vlad::from_bytes(vec![1, 2, 3]).unwrap()
}

fn sample_plog() -> Plog {
    let entries = vec![vec![10, 20, 30], vec![], vec![255, 0, 128]];
    Plog::assemble(sample_vlad(), entries).unwrap()
}

#[test]
fn web_storage_encodes_standard_base64_without_padding() {
    let ws = WebStorage::new();
    assert_eq!(ws.encode_value(b"hi"), "aGk");
    assert_eq!(ws.encode_value(b"hello world"), "aGVsbG8gd29ybGQ");
    assert_eq!(ws.encode_value(b""), "");
}

#[test]
fn web_storage_decodes_what_it_encoded() {
    let ws = WebStorage::new();
    let data: Vec<u8> = vec![0, 1, 2, 250, 251, 252];
    let text = ws.encode_value(&data);
    assert_eq!(ws.decode_value(&text).unwrap(), data);
    assert_eq!(ws.decode_value("aGk").unwrap(), b"hi".to_vec());
}

#[test]
fn web_storage_rejects_text_no_value_encodes_to() {
    let ws = WebStorage::new();
    assert_eq!(ws.decode_value("!!!"), Err(Error::InvalidEncoding));
}

#[test]
fn memory_storage_saves_loads_and_deletes() {
    let mut st = MemoryStorage::new();
    assert!(!st.contains("k"));
    assert!(st.load("k").is_err());
    st.save("k", b"one").unwrap();
    assert!(st.contains("k"));
    assert_eq!(st.load("k").unwrap(), b"one".to_vec());
    st.save("k", b"two").unwrap();
    assert_eq!(st.load("k").unwrap(), b"two".to_vec());
    st.delete("k").unwrap();
    assert!(!st.contains("k"));
}

#[test]
fn storage_provider_forwards_to_its_implementation() {
    let mut sp = StorageProvider::new(MemoryStorage::new());
    assert!(!sp.contains("seed"));
    sp.save("seed", b"bytes").unwrap();
    assert!(sp.contains("seed"));
    assert_eq!(sp.load("seed").unwrap(), b"bytes".to_vec());
    sp.delete("seed").unwrap();
    assert!(!sp.contains("seed"));
}

#[test]
fn desktop_storage_remembers_its_directory() {
    let st = DesktopStorage::from_dir(String::from("/tmp/wallet-data"));
    assert_eq!(st.dir(), "/tmp/wallet-data");
}

#[test]
fn vlad_text_round_trips() {
    let v = sample_vlad();
    let text = v.to_text();
    assert_eq!(text, "AQID");
    let back = Vlad::parse_text(&text).unwrap();
    assert!(back.same_as(&v));
    assert_eq!(back.as_bytes(), &vec![1, 2, 3]);
}

#[test]
fn vlad_rejects_empty_and_malformed_text() {
    assert!(Vlad::from_bytes(vec![]).is_none());
    assert!(Vlad::parse_text("!!!").is_none());
    assert!(Vlad::parse_text("").is_none());
}

#[test]
fn plog_codec_round_trips_through_bytes() {
    let p = sample_plog();
    let bytes = p.encode();
    let back = Plog::decode(&bytes).unwrap();
    assert!(back.vlad().same_as(p.vlad()));
    assert_eq!(back.entry_count(), p.entry_count());
    assert_eq!(back.encode(), bytes);
}

#[test]
fn plog_decode_rejects_bytes_no_log_encodes_to() {
    assert!(Plog::decode(&[]).is_none());
    assert!(Plog::decode(&[1, 2, 3]).is_none());
    let mut bytes = sample_plog().encode();
    bytes.push(0);
    assert!(Plog::decode(&bytes).is_none(), "trailing bytes are rejected");
    let truncated = &bytes[..bytes.len() - 4];
    assert!(Plog::decode(truncated).is_none());
}

#[test]
fn plog_append_keeps_the_vlad() {
    let mut p = sample_plog();
    let vlad_before = p.vlad().to_text();
    let count_before = p.entry_count();
    p.append(vec![7, 7, 7]).unwrap();
    assert_eq!(p.vlad().to_text(), vlad_before);
    assert_eq!(p.entry_count(), count_before + 1);
}

#[test]
fn plog_round_trips_through_storage() {
    let p = sample_plog();
    let bytes = p.encode();
    let mut st = MemoryStorage::new();
    st.save("VLAD_STORAGE_KEY", &bytes).unwrap();
    let loaded = st.load("VLAD_STORAGE_KEY").unwrap();
    assert_eq!(loaded, bytes);
    let back = Plog::decode(&loaded).unwrap();
    assert!(back.vlad().same_as(p.vlad()));
    assert_eq!(back.entry_count(), p.entry_count());
}

#[test]
fn resolved_plog_reports_its_vlad_and_entry_count() {
    let r = ResolvedPlog::new(sample_plog());
    assert_eq!(r.entry_count(), 3);
    assert!(r.vlad().same_as(&sample_vlad()));
}
