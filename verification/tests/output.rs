//! Binary output 1 (register 75).
use rw_vn100::cli::BinSet;
use rw_vn100::fields::parse_fields;
use rw_vn100::output::{
    apply, apply_rate, mask_of_fields, parse_reg75, shown_text, write_payload_text, BinOutput,
};
use rw_vn100::proto::build_command;

fn output(mode: u8, divisor: u32, mask: u16) -> BinOutput {
    BinOutput {
        mode,
        divisor,
        mask,
    }
}

fn parts(o: BinOutput) -> (u8, u32, u16) {
    (o.mode, o.divisor, o.mask)
}

#[test]
fn a_configuration_is_written_as_documented() {
    assert_eq!(
        write_payload_text(&output(1, 4, 0x0101)),
        "VNWRG,75,1,4,01,0101"
    );
}

#[test]
fn a_written_configuration_reads_back() {
    for o in [output(0, 0, 0), output(2, 20, 0x0739), output(3, 800, 0xFFFF)] {
        let payload = write_payload_text(&o);
        let echo = parse_reg75(&build_command(&payload)).unwrap();
        assert_eq!(parts(echo), parts(o));
        let read = parse_reg75(&build_command(&payload.replace("VNWRG", "VNRRG"))).unwrap();
        assert_eq!(parts(read), parts(o));
    }
}

#[test]
fn other_replies_are_no_configuration() {
    for line in [
        "",
        "$VNRRG,75*00",
        "$VNRRG,75,2,4,01*00",
        "$VNRRG,75,2,4,01,0101,0101*00",
        "$VNRRG,75,2,4,04,0101*00",
        "$VNRRG,75,x,4,01,0101*00",
        "$VNRRG,75,2,4,01,10101*00",
        "$VNRRG,76,2,4,01,0101*00",
    ] {
        assert!(parse_reg75(line).is_none(), "{line}");
    }
}

#[test]
fn fields_and_streaming_are_orthogonal() {
    let fields = BinSet::Fields(parse_fields("accel,gyro").unwrap());
    for mode in 0..4u8 {
        let o = output(mode, 4, 0x0101);
        assert_eq!(parts(apply(o, &fields).unwrap()), (mode, 4, 0x0120));
        assert_eq!(parts(apply(o, &BinSet::Off).unwrap()), (0, 4, 0x0101));
        let on = if mode == 0 { 2 } else { mode };
        assert_eq!(parts(apply(o, &BinSet::Enable).unwrap()), (on, 4, 0x0101));
    }
}

#[test]
fn enabling_needs_fields() {
    let e = apply(output(0, 4, 0), &BinSet::Enable).err().unwrap();
    assert_eq!(
        e,
        "no binary fields are configured; set them first with set-bin-fields=<FIELDS>"
    );
}

#[test]
fn the_rate_is_the_base_rate_over_the_divisor() {
    for (hz, divisor) in [(1, 800), (40, 20), (50, 16), (200, 4), (400, 2), (800, 1)] {
        let o = apply_rate(output(2, 7, 0x0101), hz);
        assert_eq!(parts(o), (2, divisor, 0x0101));
        assert_eq!(800 / o.divisor, hz);
    }
}

#[test]
fn off_and_on_again_streams_on_the_default_port() {
    let off = apply(output(3, 4, 0x0101), &BinSet::Off).unwrap();
    let on = apply(off, &BinSet::Enable).unwrap();
    assert_eq!(parts(on), (2, 4, 0x0101));
}

#[test]
fn a_configuration_is_shown_by_port_rate_and_fields() {
    assert_eq!(
        shown_text(&output(2, 4, 0x0101)),
        "Binary output: port 2, 200 Hz, fields [\"time\", \"accel\"]"
    );
    assert_eq!(
        shown_text(&output(0, 7, 0)),
        "Binary output: off, 800/7 Hz, fields []"
    );
}

#[test]
fn any_field_of_a_mask_has_its_bit() {
    let odd: &'static rw_vn100::fields::Field = &rw_vn100::fields::Field {
        name: "odd",
        bit: 15,
        size: 4,
    };
    let mut fields = parse_fields("gyro").unwrap();
    fields.push(odd);
    assert_eq!(mask_of_fields(&fields), 0x8020);
}
