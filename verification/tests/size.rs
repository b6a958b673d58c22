use afc_finder::size::format_size;

/// What floating-point formatting gives for the same size.
fn by_float(bytes: usize) -> String {
    if bytes < 1024 {
        format!("{} B", bytes)
    } else if bytes < 1024 * 1024 {
        format!("{:.1} KB", bytes as f32 / 1024.0)
    } else if bytes < 1024 * 1024 * 1024 {
        format!("{:.1} MB", bytes as f32 / (1024.0 * 1024.0))
    } else {
        format!("{:.1} GB", bytes as f32 / (1024.0 * 1024.0 * 1024.0))
    }
}

#[test]
fn sizes_in_each_unit() {
    assert_eq!(format_size(0), "0 B");
    assert_eq!(format_size(7), "7 B");
    assert_eq!(format_size(1023), "1023 B");
    assert_eq!(format_size(1024), "1.0 KB");
    assert_eq!(format_size(1536), "1.5 KB");
    assert_eq!(format_size(1024 * 1024), "1.0 MB");
    assert_eq!(format_size(5 * 1024 * 1024 + 300_000), "5.3 MB");
    assert_eq!(format_size(1024 * 1024 * 1024), "1.0 GB");
}

#[test]
fn sizes_just_below_a_unit_round_up_to_it() {
    assert_eq!(format_size(1024 * 1024 - 1), "1024.0 KB");
    assert_eq!(format_size(1024 * 1024 * 1024 - 1), "1024.0 MB");
}

#[test]
fn ties_between_tenths_go_to_the_even_tenth() {
    assert_eq!(format_size(1024 + 256), "1.2 KB");
    assert_eq!(format_size(1024 + 768), "1.8 KB");
}

#[test]
fn largest_sizes_round_in_single_precision() {
    assert_eq!(format_size(usize::MAX), "17179869184.0 GB");
    assert_eq!(format_size(u32::MAX as usize), "4.0 GB");
}

#[test]
fn sizes_agree_with_floating_point() {
    for n in 0..3_000_000usize {
        assert_eq!(format_size(n), by_float(n));
    }
    let mut n: usize = 1;
    for i in 0..400_000usize {
        n = n.wrapping_mul(6364136223846793005).wrapping_add(1442695040888963407);
        let m = n >> (i % 64);
        assert_eq!(format_size(m), by_float(m));
    }
    for bit in 10..64 {
        for delta in 0..300usize {
            let m = (1usize << bit) - 150 + delta;
            assert_eq!(format_size(m), by_float(m));
            let tie = (1usize << bit) + (1usize << (bit - 10)) * 128 + delta;
            assert_eq!(format_size(tie), by_float(tie));
        }
    }
}

/// The tenths of a byte that a text reads.
fn reads(text: &str) -> u128 {
    let (number, unit) = text.split_once(' ').unwrap();
    let tenths: u128 = match number.split_once('.') {
        Some((whole, tenth)) => {
            10 * whole.parse::<u128>().unwrap() + tenth.parse::<u128>().unwrap()
        }
        None => 10 * number.parse::<u128>().unwrap(),
    };
    let factor: u128 = match unit {
        "B" => 1,
        "KB" => 1 << 10,
        "MB" => 1 << 20,
        _ => 1 << 30,
    };
    tenths * factor
}

#[test]
fn larger_sizes_read_no_smaller() {
    let mut sizes: Vec<usize> = Vec::new();
    for shift in 0..60 {
        let edge = 1usize << shift;
        for near in 0..40 {
            sizes.push(edge + near * (edge / 64 + 1));
            sizes.push(edge.saturating_sub(near));
        }
    }
    sizes.sort();
    for pair in sizes.windows(2) {
        let (less, more) = (format_size(pair[0]), format_size(pair[1]));
        assert!(reads(&less) <= reads(&more), "{less} {more}");
    }
    assert_eq!(format_size(1024 * 1024 - 1), "1024.0 KB");
    assert_eq!(format_size(1024 * 1024), "1.0 MB");
}

#[test]
fn a_kibi_times_as_much_reads_the_same_one_unit_up() {
    for n in [1024usize, 1536, 1075, 99_999, 1_048_575, 1_048_576, 123_456_789, 1_073_741_823] {
        let (number, unit) = {
            let text = format_size(n);
            let (number, unit) = text.split_once(' ').unwrap();
            (number.to_string(), unit.to_string())
        };
        let next = if unit == "KB" { "MB" } else { "GB" };
        assert_eq!(format_size(1024 * n), format!("{number} {next}"));
    }
    for n in 1..1024usize {
        assert_eq!(format_size(1024 * n), format!("{n}.0 KB"));
    }
}

#[test]
fn small_sizes_read_true() {
    for n in (0..0x100_0000usize).step_by(997) {
        let text = format_size(n);
        let unit: u128 = match text.split_once(' ').unwrap().1 {
            "B" => 1,
            "KB" => 1 << 10,
            _ => 1 << 20,
        };
        assert!(2 * reads(&text).abs_diff(10 * n as u128) <= unit, "{n} {text}");
    }
}
