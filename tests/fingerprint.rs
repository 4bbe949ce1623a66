use subhash::error::Error;
use subhash::fingerprint::{calc_cid_hash, read_plan, ReadPlan, FULL_READ_LIMIT, WINDOW_LEN};

fn sha1_hex(data: &[u8]) -> String {
    hex::encode(ring::digest::digest(&ring::digest::SHA1_FOR_LEGACY_USE_ONLY, data).as_ref())
}

fn read_as_planned(content: &[u8]) -> Vec<Vec<u8>> {
    match read_plan(content.len() as u64) {
        ReadPlan::WholeFile => vec![content.to_vec()],
        ReadPlan::Windows(a, b, c) => [a, b, c]
            .iter()
            .map(|&o| content[o as usize..o as usize + WINDOW_LEN as usize].to_vec())
            .collect(),
    }
}

fn fingerprint_of(content: &[u8]) -> String {
    calc_cid_hash(content.len() as u64, &read_as_planned(content)).unwrap()
}

#[test]
fn empty_file_digest() {
    assert_eq!(
        calc_cid_hash(0, &vec![]).unwrap(),
        "da39a3ee5e6b4b0d3255bfef95601890afd80709"
    );
    assert_eq!(
        calc_cid_hash(0, &vec![vec![]]).unwrap(),
        "da39a3ee5e6b4b0d3255bfef95601890afd80709"
    );
}

#[test]
fn short_file_is_hashed_whole() {
    let r = calc_cid_hash(3, &vec![b"abc".to_vec()]).unwrap();
    assert_eq!(r, "a9993e364706816aba3e25717850c26c9cd0d89d");
    assert_eq!(r.len(), 40);
}

#[test]
fn short_file_split_does_not_matter() {
    let content: Vec<u8> = (0..5000u32).map(|i| (i * 7 % 251) as u8).collect();
    let whole = calc_cid_hash(5000, &vec![content.clone()]).unwrap();
    let split = calc_cid_hash(
        5000,
        &vec![content[..1].to_vec(), content[1..4097].to_vec(), vec![], content[4097..].to_vec()],
    )
    .unwrap();
    assert_eq!(whole, split);
    assert_eq!(whole, sha1_hex(&content));
}

#[test]
fn plan_below_limit_reads_whole() {
    assert_eq!(read_plan(0), ReadPlan::WholeFile);
    assert_eq!(read_plan(FULL_READ_LIMIT - 1), ReadPlan::WholeFile);
    assert_eq!(read_plan(0xefff), ReadPlan::WholeFile);
}

#[test]
fn plan_at_limit_samples_windows() {
    assert_eq!(read_plan(0xf000), ReadPlan::Windows(0, 0x5000, 0xa000));
    assert_eq!(read_plan(100000), ReadPlan::Windows(0, 33333, 79520));
    assert_eq!(
        read_plan(u64::MAX),
        ReadPlan::Windows(0, u64::MAX / 3, u64::MAX - 0x5000)
    );
}

#[test]
fn boundary_sizes_use_their_paths() {
    let below = vec![0x41u8; 0xf000 - 1];
    assert_eq!(fingerprint_of(&below), sha1_hex(&below));
    let at = vec![0x41u8; 0xf000];
    let mut at2 = at.clone();
    at2[0xefff] = 0x42;
    assert_eq!(fingerprint_of(&at), sha1_hex(&at));
    assert_ne!(fingerprint_of(&at), fingerprint_of(&at2));
}

#[test]
fn sampled_file_hashes_the_three_windows() {
    let content: Vec<u8> = (0..100000u32).map(|i| (i % 253) as u8).collect();
    let mut sampled = Vec::new();
    sampled.extend_from_slice(&content[0..20480]);
    sampled.extend_from_slice(&content[33333..33333 + 20480]);
    sampled.extend_from_slice(&content[100000 - 20480..]);
    assert_eq!(fingerprint_of(&content), sha1_hex(&sampled));
}

#[test]
fn final_window_is_sampled() {
    let plain = vec![0x41u8; 100000];
    let mut tail = plain.clone();
    for b in &mut tail[99995..100000] {
        *b = 0x42;
    }
    assert_ne!(fingerprint_of(&plain), fingerprint_of(&tail));
}

#[test]
fn bytes_outside_windows_are_ignored() {
    let plain = vec![0x41u8; 100000];
    let mut other = plain.clone();
    other[25000] = 0;
    other[60000] = 0;
    other[79519] = 0;
    assert_eq!(fingerprint_of(&plain), fingerprint_of(&other));
    let mut inside = plain.clone();
    inside[33333] = 0;
    assert_ne!(fingerprint_of(&plain), fingerprint_of(&inside));
}

#[test]
fn fingerprint_is_deterministic() {
    let content: Vec<u8> = (0..70000u32).map(|i| (i % 97) as u8).collect();
    let first = fingerprint_of(&content);
    let second = fingerprint_of(&content);
    assert_eq!(first, second);
    assert_eq!(first.len(), 40);
    assert!(first.chars().all(|c| c.is_ascii_hexdigit() && !c.is_ascii_uppercase()));
}

#[test]
fn short_window_read_is_io_error() {
    let w = vec![0u8; 0x5000];
    assert_eq!(
        calc_cid_hash(100000, &vec![w.clone(), w.clone(), vec![0u8; 0x4fff]]),
        Err(Error::Io)
    );
    assert_eq!(calc_cid_hash(100000, &vec![w.clone(), w.clone()]), Err(Error::Io));
    assert_eq!(
        calc_cid_hash(100000, &vec![w.clone(), w.clone(), w.clone(), w.clone()]),
        Err(Error::Io)
    );
    assert!(calc_cid_hash(100000, &vec![w.clone(), w.clone(), w.clone()]).is_ok());
}
