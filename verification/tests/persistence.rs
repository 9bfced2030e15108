use bonzo_relay::server::bonzoendpoint::BonzoEndpoint;
use bonzo_relay::server::persistence::{
    canonical_payload, frame_payload, payload_text, plan_job, plan_text, plan_write,
    snapshot_file_name, DiscardReason, Disposition, PayloadError, WritePlan,
};
use bonzo_relay::server::queue::PersistenceJob;
use tungstenite::protocol::Message;

fn address(path: &str) -> BonzoEndpoint {
    BonzoEndpoint::parse_resource(path).unwrap()
}

fn written(file: &str, canonical: &str) -> Disposition {
    Disposition::Write(WritePlan {
        history_file: String::from(file),
        history_line: format!("{canonical}\n"),
        snapshot_file: format!("last_{file}"),
        snapshot: String::from(canonical),
    })
}

#[test]
fn frame_appends_the_sentinel() {
    assert_eq!(frame_payload("{\"time\":1}"), "{\"time\":1}\0");
    assert_eq!(frame_payload(""), "\0");
}

#[test]
fn payload_text_takes_the_sentinel_off() {
    assert_eq!(payload_text("{\"time\":1}\0"), Some("{\"time\":1}"));
    assert_eq!(payload_text("\0"), Some(""));
}

#[test]
fn payload_text_of_empty_message_is_none() {
    assert_eq!(payload_text(""), None);
}

#[test]
fn payload_text_takes_the_last_character_whatever_it_is() {
    assert_eq!(payload_text("abc"), Some("ab"));
    assert_eq!(payload_text("abé"), Some("ab"));
}

#[test]
fn framing_round_trip() {
    for payload in ["", "x", "{\"a\":\"é\"}", "with\0inside"] {
        let framed = frame_payload(payload);
        assert_eq!(payload_text(&framed), Some(payload));
    }
}

#[test]
fn canonical_payload_drops_spaces_and_orders_members() {
    assert_eq!(
        canonical_payload(" { \"b\" : 1 ,\n \"a\" : [ 1, 2 ] } "),
        Ok(String::from("{\"a\":[1,2],\"b\":1}"))
    );
    assert_eq!(canonical_payload("{\"time\":1}"), Ok(String::from("{\"time\":1}")));
    assert_eq!(canonical_payload("{}"), Ok(String::from("{}")));
}

#[test]
fn canonical_payload_refuses_what_is_not_json() {
    for text in ["", "{", "{\"a\":}", "{\"a\":1}x", "not json", "{\"time\":1}\0"] {
        assert_eq!(canonical_payload(text), Err(PayloadError::Malformed));
    }
}

#[test]
fn canonical_payload_refuses_json_that_is_no_object() {
    for text in ["1", "\"text\"", "[1,2]", "null", "true"] {
        assert_eq!(canonical_payload(text), Err(PayloadError::Malformed));
    }
}

#[test]
fn canonical_form_is_its_own_canonical_form() {
    for text in [
        "{\"time\": 1}",
        "{ \"z\": {\"y\": [1.5, null, \"é\"]}, \"a\": false }",
        "{\"Data\":{\"Code\":\"void main() {}\",\"ShaderTime\":12.25}}",
    ] {
        let once = canonical_payload(text).unwrap();
        let twice = canonical_payload(&once).unwrap();
        assert_eq!(once, twice);
    }
}

#[test]
fn snapshot_read_back_is_the_same_object() {
    let text = "{ \"time\" : 1, \"code\" : \"a\\nb\" }";
    let plan = plan_text(&frame_payload(text), &address("/room/alice"));
    let Disposition::Write(plan) = plan else { panic!("nothing to write") };
    let stored: serde_json::Value = serde_json::from_str(&plan.snapshot).unwrap();
    let sent: serde_json::Value = serde_json::from_str(text).unwrap();
    assert_eq!(stored, sent);
    assert_eq!(canonical_payload(&plan.snapshot), Ok(plan.snapshot.clone()));
}

#[test]
fn snapshot_file_name_has_the_prefix() {
    assert_eq!(snapshot_file_name("room_alice.json"), "last_room_alice.json");
    assert_eq!(snapshot_file_name(""), "last_");
}

#[test]
fn plan_write_names_both_files_and_their_contents() {
    let plan = plan_write(String::from("{\"time\":1}"), &address("/room/alice"));
    assert_eq!(
        plan,
        Disposition::Write(WritePlan {
            history_file: String::from("room_alice.json"),
            history_line: String::from("{\"time\":1}\n"),
            snapshot_file: String::from("last_room_alice.json"),
            snapshot: String::from("{\"time\":1}"),
        })
    );
}

#[test]
fn plan_write_without_user_discards() {
    let plan = plan_write(String::from("{\"time\":1}"), &address("/room"));
    assert_eq!(plan, Disposition::Discard(DiscardReason::NoUser));
    let plan = plan_write(String::from("{}"), &BonzoEndpoint::empty());
    assert_eq!(plan, Disposition::Discard(DiscardReason::NoUser));
}

#[test]
fn plan_text_skips_empty_text() {
    assert_eq!(plan_text("", &address("/room/alice")), Disposition::Skip);
    assert_eq!(plan_text("", &address("/room")), Disposition::Skip);
}

#[test]
fn plan_text_stores_canonical_payload() {
    let plan = plan_text("{ \"time\" : 1 }\0", &address("/room/alice"));
    assert_eq!(plan, written("room_alice.json", "{\"time\":1}"));
}

#[test]
fn plan_text_discards_bad_payload() {
    let bad = Disposition::Discard(DiscardReason::BadPayload(PayloadError::Malformed));
    assert_eq!(plan_text("\0", &address("/room/alice")), bad);
    assert_eq!(plan_text("{\"time\":\0", &address("/room/alice")), bad);
    assert_eq!(plan_text("{\"time\":1}", &address("/room/alice")), bad);
}

#[test]
fn plan_text_checks_payload_before_user() {
    let bad = Disposition::Discard(DiscardReason::BadPayload(PayloadError::Malformed));
    assert_eq!(plan_text("nonsense\0", &address("/room")), bad);
    assert_eq!(
        plan_text("{\"time\":1}\0", &address("/room")),
        Disposition::Discard(DiscardReason::NoUser)
    );
}

#[test]
fn plan_job_reads_text_messages() {
    let job = PersistenceJob {
        message: Message::Text(String::from("{\"time\":1}\0")),
        address: address("/room/alice"),
    };
    assert_eq!(plan_job(job), written("room_alice.json", "{\"time\":1}"));
}

#[test]
fn plan_job_reads_binary_messages_that_are_text() {
    let job = PersistenceJob {
        message: Message::Binary(b"{\"a\": \"b\"}\0".to_vec()),
        address: address("/r/u"),
    };
    assert_eq!(plan_job(job), written("r_u.json", "{\"a\":\"b\"}"));
}

#[test]
fn plan_job_discards_messages_that_are_not_text() {
    let job = PersistenceJob {
        message: Message::Binary(vec![0xff, 0xfe, 0x00]),
        address: address("/room/alice"),
    };
    assert_eq!(plan_job(job), Disposition::Discard(DiscardReason::NotText));
}

#[test]
fn plan_job_skips_empty_messages() {
    let job = PersistenceJob {
        message: Message::Text(String::new()),
        address: address("/room/alice"),
    };
    assert_eq!(plan_job(job), Disposition::Skip);
    let job = PersistenceJob { message: Message::Close(None), address: address("/room/alice") };
    assert_eq!(plan_job(job), Disposition::Skip);
}
