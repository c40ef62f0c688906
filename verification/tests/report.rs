//! What a bench prints.
use rw_vn100::bench::Stats;
use rw_vn100::fields::{fields_from_mask, parse_fields};
use rw_vn100::report::{decode_binary_sample, report, report_bench, Cell};

/// The printed form of cells, where `t` is the measured time.
fn render(cells: &[Cell], t: f64) -> String {
    let per_second = |n: u64| if t > 0.0 { n as f64 / t } else { 0.0 };
    let load = |n: u64| if t > 0.0 { n as f64 * 10.0 / t } else { 0.0 };
    let mut out = String::new();
    for cell in cells {
        out.push_str(&match cell {
            Cell::Text(s) => s.clone(),
            Cell::Float { bits, decimals } => {
                format!("{:.*}", *decimals as usize, f32::from_bits(*bits))
            }
            Cell::Elapsed => format!("{t:.2}"),
            Cell::Rate { count } => format!("{:.1}", per_second(*count)),
            Cell::PerSecond { bytes } => format!("{}", (*bytes as f64 / t).round() as u64),
            Cell::WireBytes { bytes } => format!("{:.0}", per_second(*bytes)),
            Cell::WireKbits { bytes } => format!("{:.0}", per_second(*bytes) * 10.0 / 1000.0),
            Cell::WirePercent { bytes, baud } => {
                format!("{:.0}", 100.0 * (per_second(*bytes) * 10.0) / *baud as f64)
            }
            Cell::LoadKbits { bytes } => format!("{:.0}", load(*bytes) / 1000.0),
            Cell::LoadPercent { bytes, baud } => {
                format!("{:.0}", 100.0 * load(*bytes) / *baud as f64)
            }
            Cell::LinkKbits { baud } => format!("{:.1}", *baud as f64 / 1000.0),
        });
    }
    out
}

/// A frame of timestamp and acceleration.
fn sample_frame() -> Vec<u8> {
    let mut f = vec![
        0xFA, 0x01, 0x01, 0x01, 0x70, 0x75, 0xB3, 0x0C, 0x90, 0x01, 0x00, 0x00, 0x58, 0x39, 0x14,
        0x41,
    ];
    f.extend_from_slice(&(-0.571f32).to_le_bytes());
    f.extend_from_slice(&1.095f32.to_le_bytes());
    f.extend_from_slice(&[0, 0]);
    f
}

#[test]
fn a_sample_shows_time_and_acceleration() {
    let fields = parse_fields("time,accel").unwrap();
    assert_eq!(
        render(&decode_binary_sample(&sample_frame(), &fields), 1.0),
        "t=1718200006000 ns, accel=[9.264, -0.571, 1.095] m/s^2"
    );
}

#[test]
fn a_sample_shows_every_field() {
    let mut f = vec![0xFA, 0x01, 0x39, 0x07];
    f.extend_from_slice(&42u64.to_le_bytes());
    for k in 0..24 {
        f.extend_from_slice(&(k as f32 + 0.5).to_le_bytes());
    }
    f.extend_from_slice(&[0, 0]);
    assert_eq!(
        render(&decode_binary_sample(&f, &fields_from_mask(0x0739)), 1.0),
        "t=42 ns, ypr=[0.50, 1.50, 2.50] deg, quat=[3.5000, 4.5000, 5.5000, 6.5000], \
         gyro=[7.5000, 8.5000, 9.5000] rad/s, accel=[10.500, 11.500, 12.500] m/s^2, \
         uncomp_accel=[13.500, 14.500, 15.500] m/s^2 uncomp_gyro=[16.5000, 17.5000, 18.5000] rad/s, \
         mag=[19.500, 20.500, 21.500] G temp=22.50 C pres=23.500 kPa"
    );
    assert_eq!(render(&decode_binary_sample(&f, &[]), 1.0), "");
}

#[test]
fn a_field_of_unknown_name_is_a_question_mark() {
    let odd: &'static rw_vn100::fields::Field = &rw_vn100::fields::Field {
        name: "odd",
        bit: 1,
        size: 4,
    };
    let mut f = vec![0xFA, 0x01, 0x02, 0x01, 9, 9, 9, 9];
    for k in 1..4 {
        f.extend_from_slice(&(k as f32).to_le_bytes());
    }
    let mut fields = vec![odd];
    fields.extend(parse_fields("accel").unwrap());
    assert_eq!(
        render(&decode_binary_sample(&f, &fields), 1.0),
        "?, accel=[1.000, 2.000, 3.000] m/s^2"
    );
}

fn stats() -> Stats {
    Stats {
        msgs: 0,
        ascii_bytes: 0,
        ascii_sample: None,
        frames: 0,
        bin_bytes: 0,
        bin_mask: None,
        bin_first: None,
        total_bytes: 0,
    }
}

#[test]
fn a_passive_report_of_nothing() {
    assert_eq!(
        render(&report(115_200, &stats()), 5.0),
        "\nASCII:  none seen.\nBinary: none seen.\n\
         Wire throughput ~0 B/s = ~0 kbit/s = 0% of the 115.2 kbit/s 115200-baud link.\n"
    );
}

#[test]
fn a_passive_report_of_both_streams() {
    let st = Stats {
        msgs: 200,
        ascii_bytes: 23000,
        ascii_sample: Some("$VNYMR,1*00".to_string()),
        frames: 1000,
        bin_bytes: 26000,
        bin_mask: Some(0x0101),
        bin_first: Some(sample_frame()),
        total_bytes: 49001,
    };
    assert_eq!(
        render(&report(921_600, &st), 5.0),
        "\nASCII:  200 messages in 5.00s = 40.0 Hz (4600 B/s).\n  Sample: $VNYMR,1*00\n\
         Binary: 1000 frames in 5.00s = 200.0 Hz (5200 B/s).\n  \
         Fields: Common[\"time\", \"accel\"] (26 B/frame).\n  \
         Sample: t=1718200006000 ns, accel=[9.264, -0.571, 1.095] m/s^2\n\
         Wire throughput ~9800 B/s = ~98 kbit/s = 11% of the 921.6 kbit/s 921600-baud link.\n"
    );
}

#[test]
fn a_configuring_report() {
    let sample = decode_binary_sample(&sample_frame(), &parse_fields("time,accel").unwrap());
    assert_eq!(
        render(
            &report_bench("frames", 200, 1000, 26000, Some(sample), 115_200),
            5.0
        ),
        "\nResult: 1000 frames in 5.00s = 200.0 Hz (target 200 Hz).\n\
         Sample: t=1718200006000 ns, accel=[9.264, -0.571, 1.095] m/s^2\n\
         Wire throughput ~52 kbit/s = 45% of the 115.2 kbit/s 115200-baud link.\n"
    );
    assert_eq!(
        render(&report_bench("messages", 40, 0, 0, None, 57_600), 0.0),
        "\nResult: 0 messages in 0.00s = 0.0 Hz (target 40 Hz).\n\
         Wire throughput ~0 kbit/s = 0% of the 57.6 kbit/s 57600-baud link.\n"
    );
}

#[test]
fn a_sample_splits_anywhere() {
    let mut frame = vec![0xFA, 0x01, 0x39, 0x07];
    frame.extend_from_slice(&7u64.to_le_bytes());
    for k in 0..24 {
        frame.extend_from_slice(&(k as f32 * 1.25).to_le_bytes());
    }
    frame.extend_from_slice(&[0xAB, 0xCD]);
    let all = fields_from_mask(0x0739);
    let whole = render(&decode_binary_sample(&frame, &all), 1.0);
    let mut taken = 4;
    for k in 1..all.len() {
        taken += all[k - 1].size;
        let mut shorter = frame[..4].to_vec();
        shorter.extend_from_slice(&frame[taken..]);
        let front = render(&decode_binary_sample(&frame, &all[..k]), 1.0);
        let back = render(&decode_binary_sample(&shorter, &all[k..]), 1.0);
        assert_eq!(format!("{front}, {back}"), whole);
    }
    // Neither the header nor what follows the fields matters.
    let mut other = vec![0; 4];
    other.extend_from_slice(&frame[4..108]);
    assert_eq!(render(&decode_binary_sample(&other, &all), 1.0), whole);
}
