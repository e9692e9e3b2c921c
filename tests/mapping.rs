use antenna_relay::mapping::{parse_mappings, parse_pair, MappingFault};

#[test]
fn parses_pairs_in_order() {
    let r = parse_mappings("8z4f1x9k0a=https://hook.example/1 9a0b1c2d3e=https://hook.example/2")
        .unwrap();
    assert_eq!(r.len(), 2);
    assert_eq!(r[0].antenna_id, "8z4f1x9k0a");
    assert_eq!(r[0].webhook, "https://hook.example/1");
    assert_eq!(r[1].antenna_id, "9a0b1c2d3e");
    assert_eq!(r[1].webhook, "https://hook.example/2");
    assert_eq!(r[0].antenna.to_string(), "8z4f1x9k0a");
}

#[test]
fn single_pair() {
    let r = parse_mappings("8z4f1x9k0a=hook").unwrap();
    assert_eq!(r.len(), 1);
    assert_eq!(r[0].webhook, "hook");
}

#[test]
fn address_keeps_later_equals_signs() {
    let r = parse_mappings("8z4f1x9k0a=https://h.example/?a=b").unwrap();
    assert_eq!(r[0].antenna_id, "8z4f1x9k0a");
    assert_eq!(r[0].webhook, "https://h.example/?a=b");
}

#[test]
fn pair_without_equals_lacks_address() {
    let e = parse_mappings("8z4f1x9k0a").unwrap_err();
    assert_eq!(e.fault, MappingFault::MissingSinkAddress);
    assert_eq!(e.token, "8z4f1x9k0a");
}

#[test]
fn empty_identifier() {
    let e = parse_pair("=https://hook.example/1").unwrap_err();
    assert_eq!(e.fault, MappingFault::EmptyIdentifier);
    assert_eq!(e.token, "=https://hook.example/1");
}

#[test]
fn empty_address() {
    let e = parse_mappings("8z4f1x9k0a=").unwrap_err();
    assert_eq!(e.fault, MappingFault::EmptySinkAddress);
}

#[test]
fn malformed_identifier() {
    let e = parse_mappings("bad!id=hook").unwrap_err();
    assert_eq!(e.fault, MappingFault::InvalidIdentifier);
    assert_eq!(e.token, "bad!id=hook");
}

#[test]
fn too_short_identifier() {
    let e = parse_mappings("x=hook").unwrap_err();
    assert_eq!(e.fault, MappingFault::InvalidIdentifier);
}

#[test]
fn too_long_identifier() {
    let e = parse_mappings("0123456789abcdef=hook").unwrap_err();
    assert_eq!(e.fault, MappingFault::InvalidIdentifier);
}

#[test]
fn first_fault_is_reported() {
    let e = parse_mappings("8z4f1x9k0a=hook broken =second").unwrap_err();
    assert_eq!(e.fault, MappingFault::MissingSinkAddress);
    assert_eq!(e.token, "broken");
}

#[test]
fn empty_mapping_lacks_address() {
    let e = parse_mappings("").unwrap_err();
    assert_eq!(e.fault, MappingFault::MissingSinkAddress);
    assert_eq!(e.token, "");
}

#[test]
fn double_space_makes_empty_pair() {
    let e = parse_mappings("8z4f1x9k0a=a  9a0b1c2d3e=b").unwrap_err();
    assert_eq!(e.fault, MappingFault::MissingSinkAddress);
    assert_eq!(e.token, "");
}
