use teapot::http::headers::{Dnt, DntHeader, Headers, RawHeader, TypedHeader, UserAgentHeader};

#[test]
fn test_raw_header() {
    let header = RawHeader::new("X-Foo", "bar");

    assert_eq!("X-Foo", header.name());
    assert_eq!("bar", header.value());
}

#[test]
fn test_get_header() {
    let mut headers = Headers::new();

    headers.append_raw(RawHeader::new("dnt", "1"));

    let dnt: DntHeader = headers.get().unwrap();

    assert_eq!(Dnt::Enabled, dnt.value());
}

#[test]
fn test_user_agent() {
    {
        let ua = UserAgentHeader::parse(&[&RawHeader::new("user-agent", "foobar/1.1")]);

        assert!(ua.is_some());
        assert_eq!("foobar/1.1", ua.unwrap().value());
    }

    {
        let ua = UserAgentHeader::parse(&[]);

        assert!(ua.is_none());
    }
}

#[test]
fn test_dnt() {
    assert_eq!("0", Dnt::Disabled.to_string());
    assert_eq!("1", Dnt::Enabled.to_string());
    assert_eq!("", Dnt::Unspecified.to_string());
}

#[test]
fn test_append() {
    let mut headers = Headers::new();

    headers.append(DntHeader::new(Dnt::Enabled));

    let result: DntHeader = headers.get().unwrap();

    assert_eq!(DntHeader::new(Dnt::Enabled), result);
}

#[test]
fn test_duplicate_pair_appended_once() {
    let mut headers = Headers::new();

    headers.append_raw(RawHeader::new("X-Foo", "Bar"));
    headers.append_raw(RawHeader::new("x-foo", "Bar"));

    assert_eq!(1, headers.len_raw());
    assert_eq!(1, headers.get_raw("X-FOO").len());
    assert_eq!("X-Foo", headers.get_raw("x-foo")[0].name());
}

#[test]
fn test_lookup_returns_all_matches_in_order() {
    let mut headers = Headers::new();

    headers.append_raw(RawHeader::new("B", "z"));
    headers.append_raw(RawHeader::new("A", "1"));
    headers.append_raw(RawHeader::new("a", "0"));

    let matches = headers.get_raw("A");
    assert_eq!(2, matches.len());
    assert_eq!("a", matches[0].name());
    assert_eq!("0", matches[0].value());
    assert_eq!("A", matches[1].name());
    assert_eq!("1", matches[1].value());

    assert!(headers.get_raw("missing").is_empty());
}

#[test]
fn test_dnt_parse_policy() {
    assert_eq!(Dnt::Unspecified, DntHeader::parse(&[]).unwrap().value());
    assert_eq!(
        Dnt::Enabled,
        DntHeader::parse(&[&RawHeader::new("DNT", "1")]).unwrap().value()
    );
    assert_eq!(
        Dnt::Disabled,
        DntHeader::parse(&[&RawHeader::new("DNT", "0")]).unwrap().value()
    );
    assert_eq!(
        Dnt::Unspecified,
        DntHeader::parse(&[&RawHeader::new("DNT", "maybe")]).unwrap().value()
    );
}

#[test]
fn test_dnt_round_trip() {
    let dnt = DntHeader::new(Dnt::Enabled);
    let raw = dnt.to_raw();
    assert_eq!(1, raw.len());
    assert_eq!("DNT", raw[0].name());
    assert_eq!("1", raw[0].value());

    let refs: Vec<&RawHeader> = raw.iter().collect();
    let parsed = DntHeader::parse(refs.as_slice()).unwrap();
    assert_eq!(Dnt::Enabled, parsed.value());
}

#[test]
fn test_user_agent_round_trip() {
    let mut headers = Headers::new();
    headers.append_raw(RawHeader::new("User-Agent", "tester/2.0"));

    let ua: UserAgentHeader = headers.get().unwrap();
    assert_eq!("tester/2.0", ua.value());

    let raw = ua.to_raw();
    assert_eq!(1, raw.len());
    assert_eq!("User-Agent", raw[0].name());
    assert_eq!("tester/2.0", raw[0].value());
}

#[test]
fn test_empty_collection() {
    let headers = Headers::new();
    assert_eq!(0, headers.len_raw());
    assert!(headers.get_raw("anything").is_empty());

    let dnt: DntHeader = headers.get().unwrap();
    assert_eq!(Dnt::Unspecified, dnt.value());
}

#[test]
fn test_raw_entries_in_order() {
    let mut headers = Headers::new();
    headers.append_raw(RawHeader::new("B", "2"));
    headers.append_raw(RawHeader::new("A", "1"));

    let entries = headers.raw_entries();
    assert_eq!(2, entries.len());
    assert_eq!("A", entries[0].name());
    assert_eq!("1", entries[0].value());
    assert_eq!("B", entries[1].name());
    assert_eq!("2", entries[1].value());
}
