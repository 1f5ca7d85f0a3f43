use shard_lease::sink::{
    archive_key, bulk_body, decode_records, index_name, prepare_shipment, shipment_at, utc_time, ShipCommand,
    ShipRun, ShipStage, ShipStep, UtcTime,
};
use shard_lease::supervisor::{enumeration_backoff, worker_id, ShardListing};

fn s(x: &str) -> String {
    x.to_string()
}

fn time(year: u32, month: u32, day: u32, hour: u32, minute: u32, second: u32) -> UtcTime {
    UtcTime { year, month, day, hour, minute, second }
}

const HEADER_2023: &str = "{\"index\": {\"_index\": \"index_name_2023_11_14_22\", \"_type\": \"_doc\"} }";

#[test]
fn utc_time_of_known_instants() {
    assert_eq!(utc_time(0), Some(time(1970, 1, 1, 0, 0, 0)));
    assert_eq!(utc_time(1_700_000_000), Some(time(2023, 11, 14, 22, 13, 20)));
    assert_eq!(utc_time(951_782_400), Some(time(2000, 2, 29, 0, 0, 0)));
    assert_eq!(utc_time(253_402_300_799), Some(time(9999, 12, 31, 23, 59, 59)));
    assert_eq!(utc_time(253_402_300_800), None);
    assert_eq!(utc_time(-1), None);
}

#[test]
fn index_name_and_archive_key_layout() {
    let t = time(2023, 11, 14, 22, 13, 20);
    assert_eq!(index_name(&t), "index_name_2023_11_14_22");
    assert_eq!(archive_key(&t, "abc"), "2023/11/14/22/13/20/abc.json");
    let early = time(5, 1, 2, 3, 4, 5);
    assert_eq!(index_name(&early), "index_name_0005_01_02_03");
    assert_eq!(archive_key(&early, "id"), "0005/01/02/03/04/05/id.json");
}

#[test]
fn bulk_body_has_two_lines_per_record_and_trailing_newline() {
    let docs = vec![s("{\"a\":1}"), s("{\"b\":2}"), s("plain")];
    let body = bulk_body("index_name_2023_11_14_22", &docs);
    let expected = format!("{h}\n{{\"a\":1}}\n{h}\n{{\"b\":2}}\n{h}\nplain\n", h = HEADER_2023);
    assert_eq!(body, expected);
    let parts: Vec<&str> = body.split('\n').collect();
    assert_eq!(parts.len(), 2 * docs.len() + 1);
    assert_eq!(parts[parts.len() - 1], "");
    assert_eq!(body.matches('\n').count(), 6);
}

#[test]
fn bulk_body_of_empty_batch_is_one_newline() {
    assert_eq!(bulk_body("i", &Vec::new()), "\n");
}

#[test]
fn shipment_of_records_at_a_time() {
    let t = time(2023, 11, 14, 22, 13, 20);
    let records = vec![b"payload-1".to_vec(), "é".as_bytes().to_vec()];
    let sh = shipment_at(&t, "0f0e", &records).unwrap();
    assert_eq!(sh.key, "2023/11/14/22/13/20/0f0e.json");
    assert!(sh.body.starts_with(&format!("{}\npayload-1\n", HEADER_2023)));
    assert!(sh.body.ends_with("\né\n"));
    let again = shipment_at(&t, "0f0e", &records).unwrap();
    assert_eq!(again.body, sh.body);
    let later_same_hour = shipment_at(&time(2023, 11, 14, 22, 59, 59), "x", &records).unwrap();
    assert_eq!(later_same_hour.body, sh.body);
}

#[test]
fn invalid_utf8_payload_is_refused() {
    let t = time(2023, 1, 1, 0, 0, 0);
    let records = vec![b"ok".to_vec(), vec![0xff, 0xfe]];
    assert!(shipment_at(&t, "x", &records).is_none());
    assert!(decode_records(&records).is_none());
    assert!(prepare_shipment(&records, 1_700_000_000).is_none());
    assert_eq!(decode_records(&vec![b"ok".to_vec()]), Some(vec![s("ok")]));
}

#[test]
fn prepared_shipment_has_fresh_key() {
    let records = vec![b"one".to_vec()];
    let a = prepare_shipment(&records, 1_700_000_000).unwrap();
    let b = prepare_shipment(&records, 1_700_000_000).unwrap();
    assert_ne!(a.key, b.key);
    assert!(a.key.starts_with("2023/11/14/22/13/20/"));
    let id = &a.key[20..56];
    for (i, c) in id.chars().enumerate() {
        if i == 8 || i == 13 || i == 18 || i == 23 {
            assert_eq!(c, '-');
        } else {
            assert!(c.is_ascii_hexdigit() && !c.is_ascii_uppercase());
        }
    }
    assert!(a.key.ends_with(".json"));
    // YYYY/MM/DD/HH/MM/SS/ then a 36-character id
    assert_eq!(a.key.len(), 20 + 36 + 5);
    assert!(a.body.ends_with("\none\n"));
    assert!(a.body.starts_with(HEADER_2023));
}

#[test]
fn clock_outside_supported_years_gives_no_shipment() {
    let records = vec![b"one".to_vec()];
    assert!(prepare_shipment(&records, -1).is_none());
    assert!(prepare_shipment(&records, 253_402_300_800).is_none());
    assert!(prepare_shipment(&records, 0).unwrap().key.starts_with("1970/01/01/00/00/00/"));
}

#[test]
fn archival_is_retried_until_accepted_then_search() {
    let (mut run, first) = ShipRun::start();
    assert_eq!(first, ShipStep { pause_millis: 0, command: ShipCommand::PutObject });
    for _ in 0..3 {
        assert_eq!(run.on_archived(false), ShipStep { pause_millis: 1000, command: ShipCommand::PutObject });
    }
    assert_eq!(run.on_archived(true), ShipStep { pause_millis: 0, command: ShipCommand::PostBulk });
    assert_eq!(run.on_posted(true), ShipStep { pause_millis: 0, command: ShipCommand::Finish(true) });
    assert_eq!(run.stage, ShipStage::Finished);
}

#[test]
fn search_gives_up_after_six_posts() {
    let (mut run, _) = ShipRun::start();
    run.on_archived(true);
    let mut posts = 1;
    loop {
        let step = run.on_posted(false);
        match step.command {
            ShipCommand::PostBulk => {
                assert_eq!(step.pause_millis, 1000);
                posts += 1;
            }
            ShipCommand::Finish(ok) => {
                assert!(!ok);
                break;
            }
            ShipCommand::PutObject => panic!("archival after search"),
        }
    }
    assert_eq!(posts, 6);
}

#[test]
fn reshipping_repeats_the_same_writes() {
    let script = [false, true, false, true];
    let mut logs = Vec::new();
    for _ in 0..2 {
        let (mut run, first) = ShipRun::start();
        let mut log = vec![first];
        log.push(run.on_archived(script[0]));
        log.push(run.on_archived(script[1]));
        log.push(run.on_posted(script[2]));
        log.push(run.on_posted(script[3]));
        logs.push(log);
    }
    assert_eq!(logs[0], logs[1]);
}

#[test]
fn enumeration_backoff_schedule() {
    assert_eq!(enumeration_backoff(0), Some(1));
    assert_eq!(enumeration_backoff(1), Some(2));
    assert_eq!(enumeration_backoff(4), Some(16));
    assert_eq!(enumeration_backoff(5), None);
    assert_eq!(enumeration_backoff(u32::MAX), None);
}

#[test]
fn shard_listing_pages() {
    let mut l = ShardListing::new();
    assert!(l.has_more);
    l.add_page(vec![s("a"), s("b")], true);
    assert_eq!(l.exclusive_start, Some(s("b")));
    l.add_page(vec![], true);
    assert_eq!(l.exclusive_start, Some(s("b")));
    l.add_page(vec![s("c")], false);
    assert!(!l.has_more);
    assert_eq!(l.exclusive_start, Some(s("b")));
    assert_eq!(l.shards, vec![s("a"), s("b"), s("c")]);
}

#[test]
fn worker_id_joins_process_and_thread() {
    assert_eq!(worker_id("3f2a", "ThreadId(7)"), "3f2a-ThreadId(7)");
    assert_eq!(worker_id("", ""), "-");
}
