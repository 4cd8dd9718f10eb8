use glmeter::cards::{
    activation_error, biz_result, extract_msg, http_error, message_of, parse_biz_response, parse_reset_cards,
    reset_cards_of, use_card_result, ResetCards, ResetRecord,
};
use glmeter::json::{parse_json, Json};

fn card(record_id: i64, expire_time: &str, available: bool) -> ResetRecord {
    ResetRecord { record_id, expire_time: expire_time.to_string(), available }
}

#[test]
fn extract_msg_variants() {
    assert_eq!(extract_msg(r#"{"msg":"boom"}"#), Some("boom".into()));
    assert_eq!(extract_msg(r#"{"error":"bad"}"#), Some("bad".into()));
    assert_eq!(extract_msg("not json"), None);
    assert_eq!(extract_msg(r#"{"msg":42}"#), None);
}

#[test]
fn reset_cards_parsed_and_pick_earliest() {
    let body = r#"{ "code": 200, "msg": "操作成功", "success": true, "data": {
        "fiveHourResets": [
            { "recordId": 11, "expireTime": "2026-09-18 21:08:08", "available": false },
            { "recordId": 12, "expireTime": "2026-10-18 18:53:07", "available": true },
            { "recordId": 13, "expireTime": "2026-10-01 23:59:59", "available": true }
        ],
        "weekResets": [
            { "recordId": 21, "expireTime": "2026-10-01 23:59:59", "available": true }
        ] } }"#;
    let r = parse_reset_cards(body).unwrap();
    assert_eq!(r.available_count(false), 2);
    assert_eq!(r.available_count(true), 1);
    assert_eq!(r.pick(false).unwrap().record_id, 13);
    assert_eq!(r.pick(true).unwrap().record_id, 21);
    let err = parse_reset_cards(
        r#"{ "code": 400, "msg": "不支持的重置对象类型: X", "success": false }"#,
    )
    .unwrap_err();
    assert!(err.contains("不支持"));
}

#[test]
fn a_message_stands_before_an_error() {
    assert_eq!(extract_msg(r#"{"msg":"a","error":"b"}"#), Some("a".into()));
    assert_eq!(extract_msg(r#"{"msg":1,"error":"b"}"#), None);
    assert_eq!(extract_msg(r#"["msg"]"#), None);
    let both = Json::Object(vec![("error".to_string(), Json::Text("b".to_string()))]);
    assert_eq!(message_of(&both), Some("b".to_string()));
    assert_eq!(message_of(&Json::Null), None);
}

#[test]
fn failed_requests_are_described() {
    assert_eq!(http_error("401 Unauthorized", r#"{"msg":"no key"}"#), "HTTP 401 Unauthorized: no key");
    assert_eq!(http_error("502 Bad Gateway", "<html>"), "HTTP 502 Bad Gateway: 502 Bad Gateway");
    assert_eq!(activation_error("400 Bad Request", r#"{"error":"x"}"#), "HTTP 400 Bad Request: x");
    let long = "额".repeat(130);
    assert_eq!(activation_error("500 E", &long), format!("HTTP 500 E: {}", "额".repeat(120)));
}

#[test]
fn business_results() {
    let r = |body: &str| parse_biz_response(body).map(|_| ());
    assert!(r(r#"{"code":200,"success":true}"#).is_ok());
    assert_eq!(r(r#"{"code":200,"success":false}"#), Err("code 200".to_string()));
    assert_eq!(r(r#"{"code":200}"#), Err("code 200".to_string()));
    assert_eq!(r(r#"{"success":true}"#), Err("code -1".to_string()));
    assert_eq!(r(r#"{"code":"200","success":true}"#), Err("code -1".to_string()));
    assert_eq!(r(r#"{"code":7,"msg":"m","success":true}"#), Err("m".to_string()));
    assert!(r("nonsense").unwrap_err().starts_with("解析失败: "));
    assert_eq!(use_card_result(r#"{"code":200,"success":true,"data":null}"#), Ok(()));
    assert_eq!(use_card_result(r#"{"code":500,"msg":"used","success":false}"#), Err("used".to_string()));
    assert_eq!(biz_result(Json::Null).map(|_| ()), Err("code -1".to_string()));
}

#[test]
fn cards_are_read_one_by_one() {
    let none = parse_reset_cards(r#"{"code":200,"success":true}"#);
    assert_eq!(none.map(|_| ()), Err("响应缺少 data".to_string()));
    let r = parse_reset_cards(
        r#"{"code":200,"success":true,"data":{"fiveHourResets":[
            {"expireTime":"a","available":true},
            {"recordId":"7","available":true},
            {"recordId":5},
            {"recordId":6,"expireTime":9,"available":1},
            3
        ],"weekResets":{}}}"#,
    )
    .unwrap();
    assert_eq!(r.five_hour.len(), 2);
    assert_eq!((r.five_hour[0].record_id, r.five_hour[0].available), (5, false));
    assert_eq!(r.five_hour[0].expire_time, "");
    assert_eq!((r.five_hour[1].record_id, r.five_hour[1].available), (6, false));
    assert!(r.week.is_empty());
    assert_eq!(r.available_count(false), 0);
    assert!(r.pick(false).is_none());
    let object = Json::Object(vec![
        ("code".to_string(), Json::Number(Some(200))),
        ("success".to_string(), Json::Bool(true)),
        ("data".to_string(), Json::Null),
    ]);
    assert_eq!(reset_cards_of(object).map(|c| c.week.len()), Ok(0));
    assert!(reset_cards_of(Json::Null).is_err());
}

#[test]
fn of_equal_cards_the_first_is_used() {
    let cards = ResetCards {
        five_hour: vec![card(1, "b", true), card(2, "a", true), card(3, "a", true), card(4, "", false)],
        week: vec![],
    };
    assert_eq!(cards.pick(false).unwrap().record_id, 2);
    assert!(cards.pick(true).is_none());
    assert_eq!(cards.available_count(false), 3);
    assert_eq!(cards.clone().pick(false).unwrap().record_id, 2);
    let none = ResetCards::default();
    assert!(none.five_hour.is_empty() && none.week.is_empty());
}

#[test]
fn json_is_read() {
    let v = parse_json(r#"{"a":[1,true,null,"x",1.5,18446744073709551615],"a2":{"b":-3}}"#).unwrap();
    let list = v.get("a").unwrap().as_array().unwrap();
    assert_eq!(list.len(), 6);
    assert_eq!(list[0].as_i64(), Some(1));
    assert_eq!(list[1].as_bool(), Some(true));
    assert_eq!(list[3].as_str(), Some(&"x".to_string()));
    assert_eq!(list[4].as_i64(), None);
    assert_eq!(list[5].as_i64(), None);
    assert!(list[2].as_str().is_none() && list[2].as_bool().is_none() && list[2].as_array().is_none());
    assert_eq!(v.get("a2").unwrap().get("b").unwrap().as_i64(), Some(-3));
    assert!(v.get("b").is_none());
    assert!(parse_json("{").is_err());
}
