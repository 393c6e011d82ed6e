//! Identifiers and the wire format, with the real codecs underneath.

use tolstoy::errors::TolstoyError;
use tolstoy::facts::{Identifier, TxPart, TypedValue};
use tolstoy::ids::Uuid;
use tolstoy::text::{chars_of, decimal_text, index_text, join, same_text, text_of};
use tolstoy::wire::{
    decode_head, decode_part, decode_transaction_header, decode_transaction_list, encode_head,
    encode_part, encode_part_with, encode_transaction, head_of, header_of, identifier_at,
    identifier_of,
    part_of, read_or_bad_response, read_or_serialization_error, transaction_list_of, uuid_at,
    uuid_of, uuids_at, value_at, value_of, ValueReads,
};

fn id(n: u128) -> Uuid {
    Uuid::from_u128(n)
}

fn part(v: TypedValue) -> TxPart {
    TxPart { e: Identifier::Stable(7), a: 42, v, added: true }
}

#[test]
fn identifier_text_is_canonical() {
    assert_eq!(Uuid::nil().to_text(), "00000000-0000-0000-0000-000000000000");
    assert_eq!(
        id(0xa1a2a3a4b1b2c1c2d1d2d3d4d5d6d7d8).to_text(),
        "a1a2a3a4-b1b2-c1c2-d1d2-d3d4d5d6d7d8"
    );
    assert_eq!(id(u128::MAX).to_text(), "ffffffff-ffff-ffff-ffff-ffffffffffff");
    assert_eq!(id(0x1f).to_text(), "00000000-0000-0000-0000-00000000001f");
    assert_eq!(id(5).to_text().len(), 36);
}

#[test]
fn identifier_is_read_from_its_text() {
    let read = Uuid::parse_str("316ea470-ce35-4adf-9c61-e0de6e289c59").unwrap();
    assert_eq!(read.as_u128(), 0x316ea470ce354adf9c61e0de6e289c59);
    assert_eq!(read.to_text(), "316ea470-ce35-4adf-9c61-e0de6e289c59");
    assert_eq!(Uuid::parse_str(&id(12345).to_text()).unwrap(), id(12345));
    assert_eq!(Uuid::parse_str("316EA470-CE35-4ADF-9C61-E0DE6E289C59").unwrap(), read);
    assert_eq!(Uuid::parse_str("316ea470ce354adf9c61e0de6e289c59").unwrap(), read);
    assert!(Uuid::parse_str("00000000-0000-0000-0000-000000000000").unwrap().is_nil());
    assert!(Uuid::nil().is_nil());
    assert!(!read.is_nil());
}

#[test]
fn text_that_is_no_identifier_is_a_uuid_error() {
    assert!(matches!(Uuid::parse_str("not-a-uuid"), Err(TolstoyError::UuidError(m)) if !m.is_empty()));
    assert!(matches!(Uuid::parse_str(""), Err(TolstoyError::UuidError(_))));
    assert!(matches!(
        Uuid::parse_str("316ea470-ce35-4adf-9c61-e0de6e289c5"),
        Err(TolstoyError::UuidError(_))
    ));
    assert!(matches!(
        Uuid::from_parsed(Err("bad".to_string())),
        Err(TolstoyError::UuidError(m)) if m == "bad"
    ));
    assert_eq!(Uuid::from_parsed(Ok(9)).unwrap(), id(9));
}

#[test]
fn fresh_identifiers_differ() {
    let a = Uuid::new_v4();
    let b = Uuid::new_v4();
    assert_ne!(a, b);
    assert!(!a.is_nil());
    assert_eq!(Uuid::parse_str(&a.to_text()).unwrap(), a);
    // Version four and the variant of RFC 4122.
    for fresh in [a, b] {
        assert_eq!(
            fresh.as_u128() & 0x0000_0000_0000_f000_c000_0000_0000_0000,
            0x0000_0000_0000_4000_8000_0000_0000_0000
        );
        let written = fresh.to_text();
        assert_eq!(&written[14..15], "4");
        assert!(["8", "9", "a", "b"].contains(&&written[19..20]));
    }
}

#[test]
fn integers_are_written_in_decimal() {
    assert_eq!(decimal_text(0), "0");
    assert_eq!(decimal_text(7), "7");
    assert_eq!(decimal_text(10), "10");
    assert_eq!(decimal_text(-1), "-1");
    assert_eq!(decimal_text(1234567890), "1234567890");
    assert_eq!(decimal_text(i64::MAX), "9223372036854775807");
    assert_eq!(decimal_text(i64::MIN), "-9223372036854775808");
    assert_eq!(index_text(0), "0");
    assert_eq!(index_text(105), "105");
}

#[test]
fn texts_are_joined_compared_and_copied() {
    assert_eq!(join(&vec![], ", "), "");
    assert_eq!(join(&vec!["a".to_string()], ", "), "a");
    assert_eq!(join(&vec!["a".to_string(), "b".to_string(), "".to_string()], ", "), "a, b, ");
    assert!(same_text("héllo", "héllo"));
    assert!(!same_text("hello", "hellp"));
    assert!(!same_text("hello", "hell"));
    assert_eq!(chars_of("aé"), vec!['a', 'é']);
    assert_eq!(text_of(&vec!['x', 'ÿ']), "xÿ");
}

#[test]
fn head_body_is_exact_and_reads_back() {
    let body = encode_head(&id(1));
    assert_eq!(body, "{\"head\":\"00000000-0000-0000-0000-000000000001\"}");
    assert_eq!(decode_head(&body).unwrap(), id(1));
    assert_eq!(decode_head("{\"head\": \"316ea470-ce35-4adf-9c61-e0de6e289c59\", \"x\": 1}").unwrap().as_u128(), 0x316ea470ce354adf9c61e0de6e289c59);
}

#[test]
fn body_without_head_is_a_bad_remote_response_with_the_body() {
    for body in ["", "nonsense", "{}", "{\"head\": 5}", "{\"head\": null}", "[\"x\"]"] {
        assert!(
            matches!(decode_head(body), Err(TolstoyError::BadRemoteResponse(b)) if b == body),
            "{}",
            body
        );
    }
}

#[test]
fn head_that_is_no_identifier_is_a_bad_remote_state_with_its_text() {
    assert!(matches!(
        decode_head("{\"head\": \"zz\"}"),
        Err(TolstoyError::BadRemoteState(t)) if t == "zz"
    ));
    assert!(matches!(
        decode_head("{\"head\": \"\"}"),
        Err(TolstoyError::BadRemoteState(t)) if t.is_empty()
    ));
    assert!(matches!(
        head_of(Some(("zz".to_string(), None)), "body"),
        Err(TolstoyError::BadRemoteState(t)) if t == "zz"
    ));
    assert_eq!(head_of(Some(("zz".to_string(), Some(id(4)))), "body").unwrap(), id(4));
    assert!(matches!(
        head_of(None, "body"),
        Err(TolstoyError::BadRemoteResponse(b)) if b == "body"
    ));
}

#[test]
fn transaction_body_is_exact() {
    assert_eq!(
        encode_transaction(&Uuid::nil(), &vec![]),
        "{\"parent\":\"00000000-0000-0000-0000-000000000000\",\"chunks\":[]}"
    );
    assert_eq!(
        encode_transaction(&id(1), &vec![id(2)]),
        "{\"parent\":\"00000000-0000-0000-0000-000000000001\",\
         \"chunks\":[\"00000000-0000-0000-0000-000000000002\"]}"
    );
    let body = encode_transaction(&id(1), &vec![id(2), id(3), id(2)]);
    assert_eq!(
        body,
        "{\"parent\":\"00000000-0000-0000-0000-000000000001\",\
         \"chunks\":[\"00000000-0000-0000-0000-000000000002\",\
         \"00000000-0000-0000-0000-000000000003\",\
         \"00000000-0000-0000-0000-000000000002\"]}"
    );
    assert_eq!(uuid_at(&body, "/parent"), Some(id(1)));
    assert_eq!(uuids_at(&body, "/chunks"), Some(vec![id(2), id(3), id(2)]));
    assert_eq!(uuid_at(&body, "/chunks/1"), Some(id(3)));
    assert_eq!(uuid_at(&body, "/chunks/3"), None);
    assert_eq!(uuids_at(&body, "/parent"), None);
}

#[test]
fn transaction_list_is_read() {
    let body = format!(
        "{{\"limit\": 100, \"from\": \"{}\", \"transactions\": [\"{}\", \"{}\"]}}",
        Uuid::nil().to_text(),
        id(1).to_text(),
        id(2).to_text()
    );
    assert_eq!(decode_transaction_list(&body).unwrap(), vec![id(1), id(2)]);
    let empty = format!(
        "{{\"limit\": 100, \"from\": \"{}\", \"transactions\": []}}",
        id(2).to_text()
    );
    assert!(decode_transaction_list(&empty).unwrap().is_empty());
    let eleven: Vec<Uuid> = (1..=11).map(id).collect();
    let long = format!(
        "{{\"limit\": 100, \"from\": \"{}\", \"transactions\": [{}]}}",
        Uuid::nil().to_text(),
        eleven.iter().map(|u| format!("\"{}\"", u.to_text())).collect::<Vec<_>>().join(",")
    );
    assert_eq!(decode_transaction_list(&long).unwrap(), eleven);
}

#[test]
fn transaction_list_with_a_gap_is_a_bad_remote_response() {
    let nil = Uuid::nil().to_text();
    let bodies = [
        format!("{{\"from\": \"{}\", \"transactions\": []}}", nil),
        format!("{{\"limit\": 1, \"transactions\": []}}"),
        format!("{{\"limit\": 1, \"from\": \"{}\"}}", nil),
        format!("{{\"limit\": 1, \"from\": \"{}\", \"transactions\": [\"x\"]}}", nil),
        format!("{{\"limit\": 1, \"from\": \"{}\", \"transactions\": [5]}}", nil),
        format!("{{\"limit\": \"1\", \"from\": \"{}\", \"transactions\": []}}", nil),
        format!("{{\"limit\": 1, \"from\": \"nil\", \"transactions\": []}}"),
    ];
    for body in bodies {
        assert!(
            matches!(decode_transaction_list(&body), Err(TolstoyError::BadRemoteResponse(b)) if b == body),
            "{}",
            body
        );
    }
}

#[test]
fn transaction_header_is_read() {
    let body = format!(
        "{{\"parent\": \"{}\", \"chunks\": [\"{}\"], \"id\": \"{}\", \"seq\": 17}}",
        id(1).to_text(),
        id(9).to_text(),
        id(2).to_text()
    );
    let header = decode_transaction_header(&body).unwrap();
    assert_eq!(header.id, id(2));
    assert_eq!(header.parent, id(1));
    assert_eq!(header.chunks, vec![id(9)]);
    assert_eq!(header.seq, 17);

    let broken = [
        body.replace("\"seq\": 17", "\"seq\": 1.5"),
        body.replace("\"seq\": 17", "\"seq\": \"17\""),
        body.replace("\"id\"", "\"ident\""),
        body.replace("\"parent\"", "\"parents\""),
        body.replace("\"chunks\": [", "\"chunks\": [3, "),
    ];
    for body in broken {
        assert!(
            matches!(decode_transaction_header(&body), Err(TolstoyError::BadRemoteResponse(b)) if b == body),
            "{}",
            body
        );
    }
}

#[test]
fn fact_payload_is_exact() {
    assert_eq!(
        encode_part(&part(TypedValue::Long(-5))),
        "{\"e\":{\"Stable\":7},\"a\":42,\"v\":{\"Long\":-5},\"added\":true}"
    );
    assert_eq!(
        encode_part(&TxPart {
            e: Identifier::Temp(-1),
            a: 3,
            v: TypedValue::Ref(Identifier::Temp(2)),
            added: false,
        }),
        "{\"e\":{\"Temp\":-1},\"a\":3,\"v\":{\"Ref\":{\"Temp\":2}},\"added\":false}"
    );
    assert_eq!(
        encode_part(&part(TypedValue::String("say \"hi\"\n\\".to_string()))),
        "{\"e\":{\"Stable\":7},\"a\":42,\"v\":{\"String\":\"say \\\"hi\\\"\\n\\\\\"},\"added\":true}"
    );
    assert_eq!(
        encode_part(&part(TypedValue::Uuid(id(1)))),
        "{\"e\":{\"Stable\":7},\"a\":42,\
         \"v\":{\"Uuid\":\"00000000-0000-0000-0000-000000000001\"},\"added\":true}"
    );
    assert_eq!(
        encode_part(&part(TypedValue::Boolean(false))),
        "{\"e\":{\"Stable\":7},\"a\":42,\"v\":{\"Boolean\":false},\"added\":true}"
    );
}

#[test]
fn every_kind_of_fact_reads_back() {
    let values = vec![
        TypedValue::Ref(Identifier::Stable(i64::MAX)),
        TypedValue::Ref(Identifier::Temp(i64::MIN)),
        TypedValue::Boolean(true),
        TypedValue::Boolean(false),
        TypedValue::Long(0),
        TypedValue::Long(i64::MIN),
        TypedValue::Instant(1_700_000_000_000_000),
        TypedValue::Double(0x400921FB54442D18),
        TypedValue::Double(-1),
        TypedValue::String("".to_string()),
        TypedValue::String("tab\t \"quoted\" \\ / é \u{1F600} \u{0001}".to_string()),
        TypedValue::Keyword(":db/ident".to_string()),
        TypedValue::Uuid(id(0x316ea470ce354adf9c61e0de6e289c59)),
    ];
    for v in values {
        for added in [true, false] {
            for e in [Identifier::Stable(1), Identifier::Temp(2)] {
                let written = TxPart { e, a: -9, v: v.clone(), added };
                let body = encode_part(&written);
                let read = decode_part(&body).unwrap();
                assert!(read.same_as(&written), "{}", body);
            }
        }
    }
}

#[test]
fn payload_that_holds_no_fact_is_a_serialization_error_with_the_payload() {
    let good = encode_part(&part(TypedValue::Long(1)));
    let broken = [
        "".to_string(),
        "{".to_string(),
        "null".to_string(),
        good.replace("\"e\"", "\"entity\""),
        good.replace("\"a\":42", "\"a\":\"42\""),
        good.replace("\"added\":true", "\"added\":1"),
        good.replace("\"Long\"", "\"Short\""),
        good.replace("{\"Stable\":7}", "7"),
        good.replace("{\"Long\":1}", "{\"Uuid\":\"x\"}"),
        good.replace("{\"Long\":1}", "{\"Long\":1.5}"),
        good.replace("{\"Long\":1}", "{\"Long\":9223372036854775808}"),
    ];
    for body in broken {
        assert!(
            matches!(decode_part(&body), Err(TolstoyError::SerializationError(b)) if b == body),
            "{}",
            body
        );
    }
}

#[test]
fn the_first_kind_that_is_found_counts() {
    let body = "{\"v\": {\"Long\": 1, \"Boolean\": true}, \"e\": {\"Temp\": 1, \"Stable\": 2}}";
    assert!(matches!(value_at(body, "/v"), Some(TypedValue::Boolean(true))));
    assert_eq!(identifier_at(body, "/e"), Some(Identifier::Stable(2)));
    assert_eq!(identifier_at(body, "/v"), None);
    assert!(value_at(body, "/e").is_none());
    assert!(matches!(
        value_at("{\"Instant\": 5}", ""),
        Some(TypedValue::Instant(5))
    ));
}

fn no_reads() -> ValueReads {
    ValueReads {
        reference: None,
        boolean: None,
        long: None,
        instant: None,
        double: None,
        string: None,
        keyword: None,
        uuid: None,
    }
}

#[test]
fn what_was_read_is_put_together() {
    assert_eq!(uuid_of(Some(Ok(id(3)))), Some(id(3)));
    assert_eq!(uuid_of(Some(Err(TolstoyError::UuidError("x".to_string())))), None);
    assert_eq!(uuid_of(None), None);

    assert_eq!(read_or_bad_response(Some(5), "body").unwrap(), 5);
    assert!(matches!(
        read_or_bad_response::<i64>(None, "body"),
        Err(TolstoyError::BadRemoteResponse(b)) if b == "body"
    ));

    assert_eq!(transaction_list_of(Some(1), Some(id(1)), Some(vec![id(2)])), Some(vec![id(2)]));
    assert_eq!(transaction_list_of(None, Some(id(1)), Some(vec![id(2)])), None);
    assert_eq!(transaction_list_of(Some(1), None, Some(vec![id(2)])), None);
    assert_eq!(transaction_list_of(Some(1), Some(id(1)), None), None);

    let header = header_of(Some(id(1)), Some(vec![id(5)]), Some(id(2)), Some(8)).unwrap();
    assert_eq!((header.id, header.parent, header.chunks, header.seq), (id(2), id(1), vec![id(5)], 8));
    assert!(header_of(None, Some(vec![]), Some(id(2)), Some(8)).is_none());
    assert!(header_of(Some(id(1)), None, Some(id(2)), Some(8)).is_none());
    assert!(header_of(Some(id(1)), Some(vec![]), None, Some(8)).is_none());
    assert!(header_of(Some(id(1)), Some(vec![]), Some(id(2)), None).is_none());

    assert_eq!(identifier_of(Some(1), Some(2)), Some(Identifier::Stable(1)));
    assert_eq!(identifier_of(Some(1), None), Some(Identifier::Stable(1)));
    assert_eq!(identifier_of(None, Some(2)), Some(Identifier::Temp(2)));
    assert_eq!(identifier_of(None, None), None);

    let read = part_of(Some(Identifier::Temp(1)), Some(2), Some(TypedValue::Long(3)), Some(false));
    assert!(read.unwrap().same_as(&TxPart {
        e: Identifier::Temp(1),
        a: 2,
        v: TypedValue::Long(3),
        added: false,
    }));
    assert!(part_of(None, Some(2), Some(TypedValue::Long(3)), Some(false)).is_none());
    assert!(part_of(Some(Identifier::Temp(1)), None, Some(TypedValue::Long(3)), Some(false))
        .is_none());
    assert!(part_of(Some(Identifier::Temp(1)), Some(2), None, Some(false)).is_none());
    assert!(part_of(Some(Identifier::Temp(1)), Some(2), Some(TypedValue::Long(3)), None).is_none());

    assert!(read_or_serialization_error(Some(part(TypedValue::Long(1))), "x").is_ok());
    assert!(matches!(
        read_or_serialization_error(None, "x"),
        Err(TolstoyError::SerializationError(b)) if b == "x"
    ));
}

#[test]
fn the_first_kind_that_was_read_counts() {
    assert!(value_of(no_reads()).is_none());
    let all = ValueReads {
        reference: Some(Identifier::Stable(1)),
        boolean: Some(true),
        long: Some(2),
        instant: Some(3),
        double: Some(4),
        string: Some("s".to_string()),
        keyword: Some("k".to_string()),
        uuid: Some(id(5)),
    };
    assert!(matches!(value_of(all), Some(TypedValue::Ref(Identifier::Stable(1)))));
    assert!(matches!(
        value_of(ValueReads { boolean: Some(false), long: Some(2), ..no_reads() }),
        Some(TypedValue::Boolean(false))
    ));
    assert!(matches!(
        value_of(ValueReads { long: Some(2), instant: Some(3), ..no_reads() }),
        Some(TypedValue::Long(2))
    ));
    assert!(matches!(
        value_of(ValueReads { instant: Some(3), double: Some(4), ..no_reads() }),
        Some(TypedValue::Instant(3))
    ));
    assert!(matches!(
        value_of(ValueReads { double: Some(4), string: Some("s".to_string()), ..no_reads() }),
        Some(TypedValue::Double(4))
    ));
    assert!(matches!(
        value_of(ValueReads {
            string: Some("s".to_string()),
            keyword: Some("k".to_string()),
            ..no_reads()
        }),
        Some(TypedValue::String(s)) if s == "s"
    ));
    assert!(matches!(
        value_of(ValueReads { keyword: Some("k".to_string()), uuid: Some(id(5)), ..no_reads() }),
        Some(TypedValue::Keyword(k)) if k == "k"
    ));
    assert!(matches!(
        value_of(ValueReads { uuid: Some(id(5)), ..no_reads() }),
        Some(TypedValue::Uuid(u)) if u == id(5)
    ));
}

#[test]
fn fact_payload_takes_the_quoted_text_as_given() {
    assert_eq!(
        encode_part_with(&part(TypedValue::String("ignored".to_string())), "<q>"),
        "{\"e\":{\"Stable\":7},\"a\":42,\"v\":{\"String\":<q>},\"added\":true}"
    );
    assert_eq!(
        encode_part_with(&part(TypedValue::Keyword("ignored".to_string())), "<q>"),
        "{\"e\":{\"Stable\":7},\"a\":42,\"v\":{\"Keyword\":<q>},\"added\":true}"
    );
    assert_eq!(
        encode_part_with(&part(TypedValue::Instant(9)), "<q>"),
        "{\"e\":{\"Stable\":7},\"a\":42,\"v\":{\"Instant\":9},\"added\":true}"
    );
    assert_eq!(
        encode_part_with(&part(TypedValue::Double(-2)), "<q>"),
        "{\"e\":{\"Stable\":7},\"a\":42,\"v\":{\"Double\":-2},\"added\":true}"
    );
}

#[test]
fn sql_failure_carries_message_and_cause() {
    assert!(matches!(
        TolstoyError::from_rusqlite(&rusqlite::Error::QueryReturnedNoRows),
        TolstoyError::RusqliteError(m, c) if m == "Query returned no rows" && c.is_empty()
    ));
    let inner = std::io::Error::new(std::io::ErrorKind::Other, "disk on fire");
    assert!(matches!(
        TolstoyError::from_rusqlite(&rusqlite::Error::ToSqlConversionFailure(Box::new(inner))),
        TolstoyError::RusqliteError(m, c) if m == "disk on fire" && c == "disk on fire"
    ));
}
