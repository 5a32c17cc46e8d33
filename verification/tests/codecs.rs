use tega::duration::{deserialize, serialize, Duration, DurationParseError};
use tega::hash;
use tega::legal::Radio;
use tega::meters::{default_num_meters, AggregateClass, AggregateMeterDevice, MetersAggregates};

#[test]
fn can_deserialize() {
    let d = deserialize("12h54m37.123432s").expect("the sample duration parses");
    assert_eq!(std::time::Duration::from_secs_f64(46477.123432), std::time::Duration::new(
        d.secs, d.nanos
    ));
}

#[test]
fn duration_parses_exact_values() {
    let d = deserialize("1h2m3s").unwrap();
    assert_eq!((d.secs, d.nanos), (3723, 0));
    let d = deserialize("0h0m.5s").unwrap();
    assert_eq!((d.secs, d.nanos), (0, 500_000_000));
    let d = deserialize("0h0m5.s").unwrap();
    assert_eq!((d.secs, d.nanos), (5, 0));
    let d = deserialize("0h0m0.1234567891s").unwrap();
    assert_eq!((d.secs, d.nanos), (0, 123_456_789));
    let d = deserialize("100h0m0s").unwrap();
    assert_eq!((d.secs, d.nanos), (360_000, 0));
}

#[test]
fn duration_rejects_malformed_text() {
    for text in [
        "",
        "12h54m37s extra",
        "h1m2s",
        "1h m2s",
        "1hm2s",
        "1h2m.s",
        "1h2m1.2.3s",
        "1h2m1|2s",
        "1h2ms",
        "-1h2m3s",
        "1h2m3",
    ] {
        assert_eq!(deserialize(text), Err(DurationParseError::UnrecognisedFormat));
    }
}

#[test]
fn duration_rejects_out_of_range() {
    assert_eq!(
        deserialize("99999999999999999999999h0m0s"),
        Err(DurationParseError::OutOfRange)
    );
    assert_eq!(
        deserialize("0h99999999999999999999999m0s"),
        Err(DurationParseError::OutOfRange)
    );
    assert_eq!(
        deserialize("0h0m99999999999999999999999.5s"),
        Err(DurationParseError::OutOfRange)
    );
}

#[test]
fn duration_serializes_exactly() {
    let text = serialize(&Duration { secs: 46477, nanos: 123_432_000 });
    assert_eq!(text, "12h54m37.123432000s");
    let text = serialize(&Duration { secs: 0, nanos: 0 });
    assert_eq!(text, "0h0m0.000000000s");
    let text = serialize(&Duration { secs: 3661, nanos: 5 });
    assert_eq!(text, "1h1m1.000000005s");
}

#[test]
fn duration_roundtrips() {
    let d = deserialize("5h6m7.25s").unwrap();
    assert_eq!(serialize(&d), "5h6m7.250000000s");
    let again = deserialize(&serialize(&d)).unwrap();
    assert_eq!(d, again);
}

#[test]
fn hash_serializes_lowercase_hex() {
    assert_eq!(hash::serialize(&[0x45, 0x2c, 0x76, 0xcb]), "452c76cb");
    assert_eq!(hash::serialize(&[]), "");
    assert_eq!(hash::serialize(&[0x00, 0xff]), "00ff");
}

#[test]
fn hash_deserializes_twenty_bytes() {
    let text = "0123456789abcdef0123456789abcdef01234567";
    let bytes = hash::deserialize(text).expect("forty lowercase hex digits decode");
    assert_eq!(bytes.len(), 20);
    assert_eq!(bytes[0], 0x01);
    assert_eq!(bytes[19], 0x67);
    // The codec inverts itself.
    assert_eq!(hash::serialize(&bytes), text);
}

#[test]
fn hash_rejects_other_text() {
    let err = Err(tega::hash::HexDecodeError::InvalidHexEncoding);
    assert_eq!(hash::deserialize("452c76cb"), err);
    assert_eq!(
        hash::deserialize("0123456789ABCDEF0123456789ABCDEF01234567"),
        err
    );
    assert_eq!(
        hash::deserialize("0123456789abcdef0123456789abcdef0123456g"),
        err
    );
    assert_eq!(
        hash::deserialize("0123456789abcdef0123456789abcdef012345678"),
        err
    );
}

fn device(negative: bool) -> AggregateMeterDevice {
    AggregateMeterDevice {
        instant_power_negative: negative,
        timeout: 1_500_000_000,
        num_meters_aggregated: default_num_meters(),
    }
}

#[test]
fn sinks_and_sources_classify_by_sign() {
    // The home draws power, the grid and solar produce, the battery charges:
    // two sources and two sinks.
    let meters = MetersAggregates {
        load: device(false),
        grid: device(false),
        battery: device(true),
        solar: device(false),
    };
    let sources = meters.sources();
    assert_eq!(sources.len(), 2);
    assert_eq!(sources[0].0, AggregateClass::Grid);
    assert_eq!(sources[1].0, AggregateClass::Solar);
    let sinks = meters.sinks();
    assert_eq!(sinks.len(), 2);
    assert_eq!(sinks[0].0, AggregateClass::Load);
    assert_eq!(sinks[1].0, AggregateClass::Battery);
}

#[test]
fn load_is_always_a_sink() {
    let meters = MetersAggregates {
        load: device(false),
        grid: device(true),
        battery: device(true),
        solar: device(true),
    };
    let sinks = meters.sinks();
    assert_eq!(sinks.len(), 4);
    assert_eq!(sinks[0].0, AggregateClass::Load);
    assert_eq!(meters.sources().len(), 0);
}

#[test]
fn default_meter_count_is_one() {
    assert_eq!(default_num_meters(), 1);
}

#[test]
fn radio_record_holds_identifiers() {
    let radio = Radio {
        manufacturer: String::from("Tesla"),
        model: String::from("Gateway 2"),
        fcc_id: String::from("2AEIM-1232100"),
        ic_id: String::from("20098-1232100"),
    };
    let copy = radio.clone();
    assert_eq!(copy.manufacturer, "Tesla");
    assert_eq!(copy.model, "Gateway 2");
    assert_eq!(copy.fcc_id, "2AEIM-1232100");
    assert_eq!(copy.ic_id, "20098-1232100");
}
