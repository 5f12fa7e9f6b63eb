use susecon_agent::ballast::{chunk_size, filled_chunk, pause, pause_millis, CHUNK_COUNT, FILL_BYTE, PAGE_MARK};
use susecon_agent::status::rss_field;

#[test]
fn chunk_sizes() {
    assert_eq!(chunk_size(512), 512 * 1024 * 1024 / 20);
    assert_eq!(chunk_size(0), 0);
    assert_eq!(chunk_size(1), 52428);
    assert!(CHUNK_COUNT * chunk_size(3) <= 3 * 1024 * 1024);
}

#[test]
fn pauses() {
    assert_eq!(pause_millis(12), 600);
    assert_eq!(pause_millis(0), 0);
    assert_eq!(pause(12), (0, 600_000_000));
    assert_eq!(pause(45), (2, 250_000_000));
    let d = std::time::Duration::from_secs(1234567) / 20;
    assert_eq!(pause(1234567), (d.as_secs(), d.subsec_nanos()));
    let d = std::time::Duration::from_secs(u64::MAX) / 20;
    assert_eq!(pause(u64::MAX), (d.as_secs(), d.subsec_nanos()));
}

#[test]
fn chunks_are_filled_and_touched() {
    let size = 3 * 4096 + 17;
    let chunk = filled_chunk(size);
    let mut expected = vec![0xAAu8; size];
    for page in expected.chunks_mut(4096) {
        page[0] = 0xBB;
    }
    assert_eq!(chunk, expected);
    assert_eq!(FILL_BYTE, 0xAA);
    assert_eq!(PAGE_MARK, 0xBB);
    assert!(filled_chunk(0).is_empty());
    assert_eq!(filled_chunk(1), vec![0xBB]);
    assert_eq!(filled_chunk(4097)[4096], 0xBB);
}

#[test]
fn rss_is_read_from_the_status_text() {
    let status = "Name:\tx\nVmPeak:\t  300 kB\nVmRSS:\t   20480 kB\nThreads:\t4\n";
    assert_eq!(rss_field(status), Some("20480".to_string()));
    assert_eq!(rss_field("VmRSS: 7 kB"), Some("7".to_string()));
    assert_eq!(rss_field("a\r\nVmRSS:\t9\r\n"), Some("9".to_string()));
    assert_eq!(rss_field("VmRSS:\nVmRSS: 5 kB\n"), None);
    assert_eq!(rss_field("Name: x\n"), None);
    assert_eq!(rss_field(""), None);
    assert_eq!(rss_field(" VmRSS: 5 kB"), None);
}
