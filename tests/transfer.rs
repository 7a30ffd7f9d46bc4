use hotline::transfer::{htxf_handshake, plan_fork, parse_fork_header, progress_step, upload_envelope_head, upload_handshake, Download, ForkPlan, Need, TransferError};

fn filp_header(forks: u16) -> Vec<u8> {
    let mut h = b"FILP".to_vec();
    h.extend_from_slice(&1u16.to_be_bytes());
    h.extend_from_slice(&[0; 16]);
    h.extend_from_slice(&forks.to_be_bytes());
    h
}

fn fork_header(kind: &[u8; 4], compression: u32, size: u32) -> Vec<u8> {
    let mut h = kind.to_vec();
    h.extend_from_slice(&compression.to_be_bytes());
    h.extend_from_slice(&[0; 4]);
    h.extend_from_slice(&size.to_be_bytes());
    h
}

/// Drives a download over `stream`, as the transfer channel would deliver it.
fn run(d: &mut Download, stream: &[u8]) -> Result<Vec<(u32, u32)>, TransferError> {
    let mut pos = 0;
    let mut reports = Vec::new();
    loop {
        match d.need() {
            Need::Done => return Ok(reports),
            Need::Exact(n) => {
                let n = n as usize;
                if stream.len() - pos < n {
                    d.feed_eof()?;
                    continue;
                }
                if let Some(p) = d.feed(&stream[pos..pos + n])? {
                    reports.push(p);
                }
                pos += n;
            }
            Need::UpTo(n) => {
                let n = std::cmp::min(n as usize, stream.len() - pos);
                if n == 0 {
                    d.feed_eof()?;
                    continue;
                }
                if let Some(p) = d.feed(&stream[pos..pos + n])? {
                    reports.push(p);
                }
                pos += n;
            }
        }
    }
}

#[test]
fn banner_download() {
    let hs = htxf_handshake(42, 0);
    assert_eq!(hs, vec![0x48, 0x54, 0x58, 0x46, 0, 0, 0, 0x2A, 0, 0, 0, 0, 0, 0, 0, 0]);
    let image: Vec<u8> = (0..31337u32).map(|i| (i % 251) as u8).collect();
    let mut d = Download::raw(31337);
    assert_eq!(d.need(), Need::Exact(31337));
    run(&mut d, &image).unwrap();
    assert_eq!(d.into_data(), image);
}

#[test]
fn corrupt_size_fallback() {
    let payload: Vec<u8> = (0..154_112u32).map(|i| (i % 7) as u8).collect();
    let mut stream = filp_header(2);
    stream.extend(fork_header(b"INFO", 0, 3));
    stream.extend_from_slice(&[1, 2, 3]);
    stream.extend(fork_header(b"DATA", 0, 0));
    stream.extend_from_slice(&payload);
    let mut d = Download::new(2_147_483_648);
    run(&mut d, &stream).unwrap();
    assert_eq!(d.need(), Need::Done);
    assert_eq!(d.into_data(), payload);
}

#[test]
fn empty_data_fork_without_override() {
    let mut stream = filp_header(1);
    stream.extend(fork_header(b"DATA", 0, 0));
    let mut d = Download::new(0);
    d.feed(&stream[..24]).unwrap();
    d.feed(&stream[24..40]).unwrap();
    assert_eq!(d.need(), Need::Done);
    assert!(d.into_data().is_empty());
}

#[test]
fn data_fork_of_declared_size() {
    let payload: Vec<u8> = (0..200_000u32).map(|i| (i % 13) as u8).collect();
    let mut stream = filp_header(3);
    stream.extend(fork_header(b"INFO", 0, 0));
    stream.extend(fork_header(b"DATA", 0, payload.len() as u32));
    stream.extend_from_slice(&payload);
    stream.extend(fork_header(b"MACR", 0, 2));
    stream.extend_from_slice(&[9, 9]);
    let mut d = Download::new(5);
    let reports = run(&mut d, &stream).unwrap();
    assert_eq!(reports.last(), Some(&(200_000, 200_000)));
    assert_eq!(d.into_data(), payload);
}

#[test]
fn zero_declared_size_uses_expected_size() {
    let payload = vec![7u8; 1000];
    let mut stream = filp_header(1);
    stream.extend(fork_header(b"DATA", 0, 0));
    stream.extend_from_slice(&payload);
    let mut d = Download::new(1000);
    run(&mut d, &stream).unwrap();
    assert_eq!(d.into_data().len(), 1000);
}

#[test]
fn early_eof_is_reported() {
    let mut stream = filp_header(1);
    stream.extend(fork_header(b"DATA", 0, 100));
    stream.extend_from_slice(&[1; 40]);
    let mut d = Download::new(100);
    d.feed(&stream[..24]).unwrap();
    d.feed(&stream[24..40]).unwrap();
    assert_eq!(d.need(), Need::Exact(100));
    assert_eq!(d.feed_eof(), Err(TransferError::EarlyEof(0)));
}

#[test]
fn envelope_errors() {
    let mut d = Download::new(0);
    let mut bad = filp_header(1);
    bad[0] = b'X';
    assert_eq!(d.feed(&bad), Err(TransferError::BadMagic));
    let h = parse_fork_header(&fork_header(b"DATA", 1, 10));
    assert_eq!(plan_fork(&h, 0), Err(TransferError::UnsupportedCompression(1)));
    let h = parse_fork_header(&fork_header(b"INFO", 0, 10));
    assert_eq!(plan_fork(&h, 99), Ok(ForkPlan::Skip(10)));
    let h = parse_fork_header(&fork_header(b"DATA", 0, 0));
    assert_eq!(plan_fork(&h, 2_161_946_800), Ok(ForkPlan::DataUntilEof));
    assert_eq!(plan_fork(&h, 2_000_000_000), Ok(ForkPlan::Data(2_000_000_000)));
    let mut d = Download::new(0);
    assert_eq!(d.feed_eof(), Err(TransferError::Truncated));
}

#[test]
fn upload_envelope() {
    let hs = upload_handshake(7, 10).unwrap();
    assert_eq!(hs, vec![0x48, 0x54, 0x58, 0x46, 0, 0, 0, 7, 0, 0, 0, 66, 0, 0, 0, 0]);
    assert_eq!(upload_handshake(7, usize::MAX), Err(TransferError::TooLarge));
    let head = upload_envelope_head(10);
    assert_eq!(head.len(), 56);
    assert_eq!(&head[0..6], b"FILP\x00\x01");
    assert_eq!(&head[22..24], &[0, 2]);
    assert_eq!(&head[24..28], b"INFO");
    assert_eq!(&head[40..44], b"DATA");
    assert_eq!(&head[52..56], &[0, 0, 0, 10]);
}

#[test]
fn progress_every_two_percent() {
    assert_eq!(progress_step(1, 100, 0), (false, 0));
    assert_eq!(progress_step(2, 100, 0), (true, 2));
    assert_eq!(progress_step(3, 100, 2), (false, 2));
    assert_eq!(progress_step(100, 100, 99), (true, 100));
    assert_eq!(progress_step(0, 0, 0), (true, 100));
}

#[test]
fn raw_zero_is_done() {
    let d = Download::raw(0);
    assert!(d.is_consistent());
    assert_eq!(d.need(), Need::Done);
}

#[test]
fn compressed_fork_is_refused() {
    let mut d = Download::new(0);
    d.feed(&filp_header(1)).unwrap();
    assert_eq!(d.feed(&fork_header(b"DATA", 2, 10)), Err(TransferError::UnsupportedCompression(2)));
    assert_eq!(d.need(), Need::Exact(16));
}
