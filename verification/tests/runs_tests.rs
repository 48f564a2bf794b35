use ferrix::json::Json;
use ferrix::runs::runs_directory;
use ferrix::runs::RunRecorder;
use serde_json::Value;

#[test]
fn writes_jsonl_run_events() {
    let recorder = RunRecorder::new("/workspace");

    let contents = recorder.record(
        7,
        "execution_plan",
        Json::parse(r#"{ "steps": ["read", "edit"] }"#).expect("payload"),
    );

    assert_eq!(
        recorder.path(),
        format!("/workspace/.ferrix/runs/{}.jsonl", recorder.run_id())
    );
    assert!(contents.ends_with('\n'));
    assert_eq!(contents.lines().count(), 1);
    let event: Value = serde_json::from_str(contents.trim()).expect("parse event");

    assert_eq!(event["kind"], "execution_plan");
    assert_eq!(event["payload"]["steps"][0], "read");
    assert_eq!(event["timestamp_ms"], 7);
    assert_eq!(event["run_id"], recorder.run_id());
}

#[test]
fn run_identifiers_are_random_uuids() {
    let first = RunRecorder::new("/w");
    let second = RunRecorder::new("/w");
    assert_ne!(first.run_id(), second.run_id());
    for recorder in [first, second] {
        let id = recorder.run_id().to_string();
        assert_eq!(id.len(), 36);
        for (at, c) in id.chars().enumerate() {
            match at {
                8 | 13 | 18 | 23 => assert_eq!(c, '-'),
                14 => assert_eq!(c, '4'),
                19 => assert!("89ab".contains(c)),
                _ => assert!(c.is_ascii_digit() || ('a'..='f').contains(&c)),
            }
        }
    }
}

#[test]
fn events_with_line_feeds_stay_on_one_line() {
    let recorder =
        RunRecorder::with_ids("work/", "run".to_string(), "turn".to_string());
    assert_eq!(recorder.path(), "work/.ferrix/runs/run.jsonl");
    assert_eq!(runs_directory("work"), "work/.ferrix/runs");

    let line = recorder.record(1, "a\nb", Json::text("x\ny"));
    assert_eq!(
        line,
        "{\"kind\":\"a\\nb\",\"payload\":\"x\\ny\",\"run_id\":\"run\",\"timestamp_ms\":1,\"turn_id\":\"turn\"}\n"
    );
    let event = Json::parse(line.trim_end()).expect("event").into_value();
    assert_eq!(event["payload"], "x\ny");
    assert_eq!(event["turn_id"], "turn");
}
