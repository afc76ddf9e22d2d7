use sleigh::cookie::gift_cookie;
use sleigh::decor::{
    checksum_to_element, checksums_to_elements, cycle_colors, cycle_states, ChecksumError,
};
use sleigh::milk::{milk_outcome, MilkOutcome};
use sleigh::orders::{get_format, orders_reply, u64_to_decimal, Format, Order};
use sleigh::routing::{v4_dest, v4_key, v6_xor};

#[test]
fn colors_cycle_red_blue_purple() {
    assert_eq!(cycle_colors("red"), Some("blue"));
    assert_eq!(cycle_colors("blue"), Some("purple"));
    assert_eq!(cycle_colors("purple"), Some("red"));
    assert_eq!(cycle_colors("green"), None);
    assert_eq!(cycle_colors(""), None);
}

#[test]
fn states_cycle_on_off() {
    assert_eq!(cycle_states("off"), Some("on"));
    assert_eq!(cycle_states("on"), Some("off"));
    assert_eq!(cycle_states("dim"), None);
}

#[test]
fn checksum_yields_color_and_position() {
    let e = checksum_to_element("1234567890abcdef").unwrap();
    assert_eq!(e.color, "#123456");
    assert_eq!(e.top, 0x78);
    assert_eq!(e.left, 0x90);
    let e2 = checksum_to_element("ABCDEF1234").unwrap();
    assert_eq!(e2.color, "#ABCDEF");
    assert_eq!(e2.top, 0x12);
    assert_eq!(e2.left, 0x34);
}

#[test]
fn checksum_too_short_or_non_hex_is_refused() {
    assert_eq!(checksum_to_element("123456789").unwrap_err(), ChecksumError::TooShort);
    assert_eq!(checksum_to_element("").unwrap_err(), ChecksumError::TooShort);
    assert_eq!(checksum_to_element("12345g7890").unwrap_err(), ChecksumError::BadDigit);
    assert_eq!(checksum_to_element("-234567890").unwrap_err(), ChecksumError::BadDigit);
}

#[test]
fn checksum_list_collects_or_stops_at_the_first_failure() {
    let good = vec!["aabbcc1020".to_string(), "ffeedd3040".to_string()];
    let elements = checksums_to_elements(&good).unwrap();
    assert_eq!(elements.len(), 2);
    assert_eq!(elements[0].color, "#aabbcc");
    assert_eq!(elements[1].left, 0x40);
    let mixed = vec!["aabbcc1020".to_string(), "short".to_string(), "xxyyzz0000".to_string()];
    assert_eq!(checksums_to_elements(&mixed).unwrap_err(), ChecksumError::TooShort);
}

#[test]
fn content_types_name_their_format() {
    assert_eq!(get_format("application/toml"), Some(Format::Toml));
    assert_eq!(get_format("application/json"), Some(Format::Json));
    assert_eq!(get_format("application/yaml"), Some(Format::Yaml));
    assert_eq!(get_format("text/html"), None);
}

#[test]
fn decimal_rendering() {
    assert_eq!(u64_to_decimal(0), "0");
    assert_eq!(u64_to_decimal(5), "5");
    assert_eq!(u64_to_decimal(1234567890), "1234567890");
    assert_eq!(u64_to_decimal(u64::MAX), "18446744073709551615");
}

#[test]
fn orders_render_one_line_each() {
    let keywords = vec!["Christmas 2024".to_string(), "other".to_string()];
    let orders = vec![
        Order { item: "Toy car".to_string(), quantity: 2 },
        Order { item: "Lego brick".to_string(), quantity: 230 },
    ];
    let body = orders_reply(true, &keywords, &orders).unwrap();
    assert_eq!(body, "Toy car: 2\nLego brick: 230");
}

#[test]
fn orders_need_the_magic_keyword() {
    let orders = vec![Order { item: "Toy".to_string(), quantity: 1 }];
    assert_eq!(orders_reply(true, &vec!["Christmas 2023".to_string()], &orders), None);
    assert_eq!(orders_reply(true, &Vec::new(), &orders), None);
    // Inherited keywords are never accepted.
    assert_eq!(orders_reply(false, &vec!["Christmas 2024".to_string()], &orders), None);
}

#[test]
fn empty_order_list_renders_empty_body() {
    let body = orders_reply(true, &vec!["Christmas 2024".to_string()], &Vec::new()).unwrap();
    assert_eq!(body, "");
}

#[test]
fn milk_decisions() {
    assert_eq!(milk_outcome(false, true, true), MilkOutcome::NoMilk);
    assert_eq!(milk_outcome(false, false, false), MilkOutcome::NoMilk);
    assert_eq!(milk_outcome(true, false, false), MilkOutcome::Withdrawn);
    assert_eq!(milk_outcome(true, true, true), MilkOutcome::Converted);
    assert_eq!(milk_outcome(true, true, false), MilkOutcome::BadRequest);
}

#[test]
fn v4_destination_and_key_invert_each_other() {
    assert_eq!(v4_dest((10, 0, 0, 0), (1, 2, 3, 255)), (11, 2, 3, 255));
    assert_eq!(v4_dest((128, 128, 33, 0), (255, 0, 255, 33)), (127, 128, 32, 33));
    assert_eq!(v4_key((10, 0, 0, 0), (11, 2, 3, 255)), (1, 2, 3, 255));
    assert_eq!(v4_key((128, 128, 33, 0), (127, 128, 32, 33)), (255, 0, 255, 33));
}

#[test]
fn v6_xor_is_its_own_inverse() {
    let from: u128 = 0xfe80_0000_0000_0000_0000_0000_0000_0042;
    let key: u128 = 0x0011_2233_4455_6677_8899_aabb_ccdd_eeff;
    let dest = v6_xor(from, key);
    assert_eq!(v6_xor(from, dest), key);
    assert_eq!(v6_xor(dest, key), from);
}

#[test]
fn gift_cookie_is_found_by_exact_name() {
    assert_eq!(gift_cookie("gift=abc"), Some("abc".to_string()));
    assert_eq!(gift_cookie("a=b;gift=xyz;c=d"), Some("xyz".to_string()));
    assert_eq!(gift_cookie("gift=1;gift=2"), Some("1".to_string()));
    // The value keeps everything after the first '=' of its segment.
    assert_eq!(gift_cookie("gift=a=b"), Some("a=b".to_string()));
    assert_eq!(gift_cookie("gift="), Some("".to_string()));
}

#[test]
fn gift_cookie_absent_or_misnamed_yields_nothing() {
    assert_eq!(gift_cookie(""), None);
    assert_eq!(gift_cookie("a=b;c=d"), None);
    assert_eq!(gift_cookie("gift"), None);
    assert_eq!(gift_cookie("gifts=x"), None);
    // Segment names are not trimmed: a space makes another name.
    assert_eq!(gift_cookie("a=b; gift=x"), None);
}
