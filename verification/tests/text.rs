use k_snowflake::numeral::binary_string;
use k_snowflake::numeral::decimal_string;
use k_snowflake::numeral::push_numeral;
use k_snowflake::Snowflake;

#[test]
fn decimal_text_is_the_packed_integer() {
    let snowflake = Snowflake::from_timestamp(450207707886, 598, 1073);
    assert_eq!(snowflake.to_string().unwrap(), "1888307990019531825");
    assert_eq!(Snowflake::from_timestamp(0, 0, 0).to_string().unwrap(), "0");
    assert_eq!(Snowflake::from_timestamp(1, 2, 3).to_string().unwrap(), "4202499");
    assert_eq!(
        Snowflake::from_timestamp((1 << 41) - 1, 1023, 4095).to_string().unwrap(),
        "9223372036854775807"
    );
}

#[test]
fn binary_text_is_the_packed_integer() {
    assert_eq!(Snowflake::from_timestamp(0, 0, 0).to_bin().unwrap(), "0");
    assert_eq!(Snowflake::from_timestamp(0, 0, 1).to_bin().unwrap(), "1");
    assert_eq!(Snowflake::from_timestamp(0, 0, 5).to_bin().unwrap(), "101");
    assert_eq!(
        Snowflake::from_timestamp(1, 2, 3).to_bin().unwrap(),
        "10000000010000000000011"
    );
    let snowflake = Snowflake::from_timestamp(450207707886, 598, 1073);
    assert_eq!(
        snowflake.to_bin().unwrap(),
        format!("{:b}", 1888307990019531825i64)
    );
    assert_eq!(
        Snowflake::from_timestamp((1 << 41) - 1, 1023, 4095).to_bin().unwrap(),
        "1".repeat(63)
    );
}

#[test]
fn binary_text_ends_with_instance_and_sequence() {
    let lowest = Snowflake::from_timestamp(0, 1023, 4095);
    assert_eq!(lowest.to_bin().unwrap(), "1111111111111111111111");
    let snowflake = Snowflake::from_timestamp(123, 1023, 4095);
    let text = snowflake.to_bin().unwrap();
    assert_eq!(text, "11110111111111111111111111111");
    assert!(text.ends_with("1111111111111111111111"));
    assert_eq!(&text[text.len() - 22..text.len() - 12], "1111111111");
    assert_eq!(&text[text.len() - 12..], "111111111111");
    let mixed = Snowflake::from_timestamp(450207707886, 598, 1073).to_bin().unwrap();
    assert_eq!(&mixed[mixed.len() - 22..mixed.len() - 12], "1001010110");
    assert_eq!(&mixed[mixed.len() - 12..], "010000110001");
    assert_eq!(&mixed[..mixed.len() - 22], format!("{:b}", 450207707886u64));
}

#[test]
fn binary_text_padded_to_64_digits_shows_the_fields() {
    let timestamps = [0u64, 1, 2, 450207707886, (1 << 41) - 1];
    let instances = [0u16, 1, 598, 1023];
    let sequences = [0u16, 1, 1073, 4095];
    for timestamp in timestamps {
        for instance in instances {
            for sequence in sequences {
                let snowflake = Snowflake::from_timestamp(timestamp, instance, sequence);
                let text = snowflake.to_bin().unwrap();
                assert!(text.len() <= 63);
                assert_eq!(
                    format!("{:0>64}", text),
                    format!("0{:041b}{:010b}{:012b}", timestamp, instance, sequence)
                );
            }
        }
    }
}

#[test]
fn binary_text_agrees_with_the_standard_formatter() {
    let timestamps = [0u64, 1, 2, 450207707886, (1 << 41) - 1];
    let instances = [0u16, 1, 598, 1023];
    let sequences = [0u16, 1, 1073, 4095];
    for timestamp in timestamps {
        for instance in instances {
            for sequence in sequences {
                let snowflake = Snowflake::from_timestamp(timestamp, instance, sequence);
                let packed = snowflake.to_decimal().unwrap();
                assert_eq!(snowflake.to_bin().unwrap(), format!("{:b}", packed));
                assert_eq!(snowflake.to_string().unwrap(), format!("{}", packed));
            }
        }
    }
}

#[test]
fn decimal_string_of_numbers() {
    assert_eq!(decimal_string(0), "0");
    assert_eq!(decimal_string(9), "9");
    assert_eq!(decimal_string(10), "10");
    assert_eq!(decimal_string(1234567890), "1234567890");
    assert_eq!(decimal_string(u64::MAX), "18446744073709551615");
}

#[test]
fn binary_string_of_numbers() {
    assert_eq!(binary_string(0), "0");
    assert_eq!(binary_string(1), "1");
    assert_eq!(binary_string(2), "10");
    assert_eq!(binary_string(10), "1010");
    assert_eq!(binary_string(u64::MAX), "1".repeat(64));
}

#[test]
fn push_numeral_appends_in_any_base_up_to_ten() {
    let mut out = String::from("n=");
    push_numeral(255, 2, &mut out);
    assert_eq!(out, "n=11111111");
    out.push(' ');
    push_numeral(255, 8, &mut out);
    assert_eq!(out, "n=11111111 377");
    out.push(' ');
    push_numeral(255, 10, &mut out);
    assert_eq!(out, "n=11111111 377 255");
    out.push(' ');
    push_numeral(0, 3, &mut out);
    assert_eq!(out, "n=11111111 377 255 0");
    out.push(' ');
    push_numeral(26, 3, &mut out);
    assert_eq!(out, "n=11111111 377 255 0 222");
}
