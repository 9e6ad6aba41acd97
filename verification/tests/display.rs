use slkrd::display::{error_message, format_size};
use slkrd::error::FileTransferError;

fn with_doubles(bytes: u64) -> String {
    let units = ["B", "KB", "MB", "GB", "TB"];
    let mut size = bytes as f64;
    let mut unit = 0;
    while size >= 1024.0 && unit < units.len() - 1 {
        size /= 1024.0;
        unit += 1;
    }
    format!("{:.2} {}", size, units[unit])
}

#[test]
fn sizes_in_each_unit() {
    assert_eq!(format_size(0), "0.00 B");
    assert_eq!(format_size(1), "1.00 B");
    assert_eq!(format_size(1023), "1023.00 B");
    assert_eq!(format_size(1024), "1.00 KB");
    assert_eq!(format_size(1536), "1.50 KB");
    assert_eq!(format_size(150000), "146.48 KB");
    assert_eq!(format_size(1024 * 1024 - 1), "1024.00 KB");
    assert_eq!(format_size(1024 * 1024), "1.00 MB");
    assert_eq!(format_size(5 * 1024 * 1024 + 512 * 1024), "5.50 MB");
    assert_eq!(format_size(1 << 30), "1.00 GB");
    assert_eq!(format_size(1 << 40), "1.00 TB");
    assert_eq!(format_size(1 << 50), "1024.00 TB");
    assert_eq!(format_size(u64::MAX), "16777216.00 TB");
}

#[test]
fn a_tie_goes_to_the_even_hundredth() {
    // 1152 / 1024 = 1.125 and 1408 / 1024 = 1.375, both exactly
    assert_eq!(format_size(1152), "1.12 KB");
    assert_eq!(format_size(1408), "1.38 KB");
    assert_eq!(format_size(1152), with_doubles(1152));
    assert_eq!(format_size(1408), with_doubles(1408));
}

#[test]
fn sizes_agree_with_double_precision_at_the_edges() {
    let mut edges: Vec<u64> = vec![0, 1, 9, 10, 99, 100, 999, 1000, u64::MAX, u64::MAX - 1];
    for shift in 1..64 {
        let power = 1u64 << shift;
        for delta in 0..4 {
            edges.push(power - delta);
            edges.push(power.wrapping_add(delta));
        }
        edges.push(power + power / 2);
        edges.push(power + power / 8);
        edges.push(power + power / 1024);
    }
    for unit in [1u64 << 10, 1 << 20, 1 << 30, 1 << 40] {
        for hundredths in 0..2000u64 {
            // sizes close to a half-way point between two hundredths
            let near = ((2 * hundredths + 1) as u128 * unit as u128 / 200) as u64;
            edges.push(near);
            edges.push(near + 1);
            edges.push(near.saturating_sub(1));
        }
    }
    for bytes in edges {
        assert_eq!(format_size(bytes), with_doubles(bytes), "{}", bytes);
    }
}

#[test]
fn sizes_agree_with_double_precision_all_over() {
    let mut seed: u64 = 0x9E3779B97F4A7C15;
    for round in 0..20000 {
        seed = seed.wrapping_mul(6364136223846793005).wrapping_add(1442695040888963407);
        let bytes = seed >> (round % 64);
        assert_eq!(format_size(bytes), with_doubles(bytes), "{}", bytes);
    }
}

#[test]
fn sizes_beyond_exact_doubles_round_to_the_nearest_one() {
    // between 2^53 and 2^64 not every size is a double
    for bytes in [
        (1u64 << 53) + 1,
        (1u64 << 53) + 3,
        (1u64 << 60) + 127,
        (1u64 << 60) + 128,
        (1u64 << 60) + 129,
        (1u64 << 63) + 1024,
        (1u64 << 63) + 1025,
        (1u64 << 63) + 3072,
        u64::MAX - 1023,
        u64::MAX - 1024,
        u64::MAX - 1025,
        11258999068426_2u64 * 100 + 5497558138,
    ] {
        assert_eq!(format_size(bytes), with_doubles(bytes), "{}", bytes);
    }
}

#[test]
fn every_failure_has_its_line() {
    assert_eq!(error_message(&FileTransferError::FileNotFound), "Error: File not found");
    assert_eq!(error_message(&FileTransferError::InvalidPasscode), "Error: Invalid passcode format");
    assert_eq!(error_message(&FileTransferError::ConnectionFailed), "Error: Connection failed");
    assert_eq!(error_message(&FileTransferError::TransferError), "Error: Transfer failed");
    assert_eq!(
        error_message(&FileTransferError::FileExists),
        "Error: File already exists at destination"
    );
    assert_eq!(error_message(&FileTransferError::Timeout), "Error: Connection timed out");
}

#[test]
fn an_incomplete_transfer_names_both_sizes() {
    assert_eq!(
        error_message(&FileTransferError::IncompleteTransfer(65536, 150000)),
        "Error: Incomplete transfer (received 64.00 KB of 146.48 KB)"
    );
    assert_eq!(
        error_message(&FileTransferError::IncompleteTransfer(0, 1)),
        "Error: Incomplete transfer (received 0.00 B of 1.00 B)"
    );
}
