use pocket_relay_client_shared::servers::qos::{
    address_in, create_response, lookup_url, AddressLookup, PublicAddrCache, ADDR_CACHE_TIME,
};

#[test]
fn response_tells_the_public_address() {
    let output = create_response(&[1, 2, 3], Some([10, 0, 0, 7]), Some([127, 0, 0, 1]), 0x1234);
    assert_eq!(output, [1, 2, 3, 10, 0, 0, 7, 0x12, 0x34, 0, 0, 0, 0]);
}

#[test]
fn response_falls_back_to_the_own_address() {
    let output = create_response(&[], None, Some([127, 0, 0, 1]), 1);
    assert_eq!(output, [127, 0, 0, 1, 0, 1, 0, 0, 0, 0]);
    let output = create_response(&[9], None, None, 65535);
    assert_eq!(output, [9, 0, 0, 0, 0, 255, 255, 0, 0, 0, 0]);
}

#[test]
fn addresses_are_read() {
    assert_eq!(address_in("1.2.3.4"), Some([1, 2, 3, 4]));
    assert_eq!(address_in("255.100.10.0"), Some([255, 100, 10, 0]));
    assert_eq!(address_in("127.0.0.1\n"), Some([127, 0, 0, 1]));
    assert_eq!(address_in(" \t\r\n127.0.0.1 \u{A0}\u{3000}"), Some([127, 0, 0, 1]));
    // Line breaks within are removed too
    assert_eq!(address_in("12\n7.0.\n0.1"), Some([127, 0, 0, 1]));
}

#[test]
fn what_is_no_address_is_refused() {
    for response in [
        "",
        "1.2.3",
        "1.2.3.",
        "1.2.3.4.5",
        "1.2.3.4.",
        ".1.2.3.4",
        "1..3.4",
        "01.2.3.4",
        "1.2.3.00",
        "256.1.1.1",
        "1.1.1.1000",
        "1.1.1.99999999999999999999",
        "1.2.3.4a",
        "a.2.3.4",
        "1. 2.3.4",
        "-1.2.3.4",
        "+1.2.3.4",
        "1,2,3,4",
        "\u{661}.2.3.4",
        "::1",
        "<html></html>",
    ] {
        assert_eq!(address_in(response), None);
    }
}

#[test]
fn every_octet_is_read_at_every_place() {
    for octet in 0..=255u8 {
        assert_eq!(address_in(&format!("{}.1.2.3", octet)), Some([octet, 1, 2, 3]));
        assert_eq!(address_in(&format!("1.{}.2.3", octet)), Some([1, octet, 2, 3]));
        assert_eq!(address_in(&format!("1.2.{}.3", octet)), Some([1, 2, octet, 3]));
        assert_eq!(address_in(&format!("1.2.3.{}", octet)), Some([1, 2, 3, octet]));
    }
    for number in 256..2000u32 {
        assert_eq!(address_in(&format!("{}.1.2.3", number)), None);
        assert_eq!(address_in(&format!("1.2.3.{}", number)), None);
    }
}

#[test]
fn lookup_uses_the_first_valid_address() {
    let lookup = AddressLookup::new();
    assert_eq!(lookup, AddressLookup::Api(0));
    assert_eq!(lookup_url(0), "https://api.ipify.org/");
    assert_eq!(
        lookup.api_response(Some("1.2.3.4")),
        AddressLookup::Done(Some([1, 2, 3, 4]))
    );

    let lookup = lookup.api_response(None);
    assert_eq!(lookup, AddressLookup::Api(1));
    assert_eq!(lookup_url(1), "https://ipv4.icanhazip.com/");
    assert_eq!(
        lookup.api_response(Some("5.6.7.8\n")),
        AddressLookup::Done(Some([5, 6, 7, 8]))
    );

    let lookup = lookup.api_response(Some("nothing"));
    assert_eq!(lookup, AddressLookup::Local);
    assert_eq!(
        lookup.local_address(Some([9, 9, 9, 9])),
        AddressLookup::Done(Some([9, 9, 9, 9]))
    );
    assert_eq!(lookup.local_address(None), AddressLookup::Done(None));
}

#[test]
fn address_is_cached_for_half_an_hour() {
    let half_an_hour: i128 = 30 * 60 * 1_000_000_000;
    assert_eq!(ADDR_CACHE_TIME, half_an_hour);
    let mut cache = PublicAddrCache::Unset;
    assert_eq!(cache.get(0), None);
    cache.update(Some([1, 2, 3, 4]), 1000);
    assert_eq!(cache.get(1000), Some([1, 2, 3, 4]));
    assert_eq!(cache.get(999 + half_an_hour), Some([1, 2, 3, 4]));
    assert_eq!(cache.get(1000 + half_an_hour), None);
    // A lookup without an address leaves the cache as it is
    cache.update(None, 5000);
    assert_eq!(cache.get(5000), Some([1, 2, 3, 4]));
    cache.update(Some([5, 6, 7, 8]), -10);
    assert_eq!(cache.get(-20), Some([5, 6, 7, 8]));
}
