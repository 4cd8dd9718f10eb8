use glmeter::api::{parse_quota, parse_quota_at, Percent, QuotaSnapshot, RawData, RawLimit, RawResp, UsageDetail};
use glmeter::cards::{ResetCards, ResetRecord};
use glmeter::clock::LocalTime;
use serde_json::Value;

fn percent(p: f64) -> Percent {
    let left = 100.0 - p;
    let cells = |part: f64, len: f64| (part.clamp(0.0, 100.0) / 100.0 * len).round() as usize;
    Percent {
        used: p.round() as i64,
        left: left.round() as i64,
        left_of_12: cells(left, 12.0),
        left_of_16: cells(left, 16.0),
        used_of_24: (p / 100.0 * 24.0).round() as usize,
        used_text: format!("{:.0}", p),
        left_text: format!("{:.0}", left),
        exact_text: format!("{}", p),
    }
}

fn text(v: Option<&Value>) -> String {
    v.and_then(|t| t.as_str()).unwrap_or_default().to_string()
}

fn detail(v: &Value) -> UsageDetail {
    UsageDetail {
        model_code: text(v.get("modelCode")),
        usage: v.get("usage").and_then(|n| n.as_i64()).unwrap_or(0),
    }
}

fn limit(v: &Value) -> Result<RawLimit, String> {
    let number = |key: &str| v.get(key).and_then(|n| n.as_i64());
    let kind = v.get("type").and_then(|t| t.as_str()).ok_or("missing field `type`")?;
    Ok(RawLimit {
        kind: kind.to_string(),
        percentage: v.get("percentage").and_then(|p| p.as_f64()).map(percent),
        usage: number("usage"),
        current_value: number("currentValue"),
        next_reset_time: number("nextResetTime"),
        usage_details: v
            .get("usageDetails")
            .and_then(|d| d.as_array())
            .map(|d| d.iter().map(detail).collect()),
    })
}

fn data(d: &Value) -> Result<RawData, String> {
    let empty = Vec::new();
    let limits = d.get("limits").and_then(|l| l.as_array()).unwrap_or(&empty);
    Ok(RawData {
        limits: limits.iter().map(limit).collect::<Result<_, _>>()?,
        level: text(d.get("level")),
    })
}

fn read(body: &str) -> Result<RawResp, String> {
    let v: Value = serde_json::from_str(body).map_err(|e| e.to_string())?;
    Ok(RawResp {
        code: v.get("code").and_then(|n| n.as_i64()).unwrap_or(0),
        msg: text(v.get("msg")),
        data: v.get("data").map(data).transpose()?,
        success: v.get("success").and_then(|b| b.as_bool()).unwrap_or(false),
    })
}

fn quota(body: &str) -> Result<QuotaSnapshot, String> {
    parse_quota(read(body))
}

fn noon() -> LocalTime {
    LocalTime { secs: 1_767_225_600, nanos: 5, offset: 28_800 }
}

#[test]
fn windows_sorted_by_reset_labeled() {
    let body = r#"{
        "success": true,
        "data": { "level": "lite", "limits": [
            { "type": "TOKENS_LIMIT", "percentage": 10.0 },
            { "type": "TOKENS_LIMIT", "percentage": 40.0, "nextResetTime": 1767225600000 }
        ] }
    }"#;
    let s = quota(body).unwrap();
    assert_eq!(s.level, "lite");
    assert_eq!(s.windows.len(), 2);
    let w5 = s.five_hour().unwrap();
    assert!(w5.activated);
    assert_eq!(w5.used_pct.used, 40);
    assert_eq!(w5.used_pct.exact_text, "40");
    assert_eq!(w5.label, "5小时额度");
    assert_eq!(s.windows[1].label, "每周额度");
    assert!(!s.windows[1].activated);
    assert!(s.windows[1].next_reset.is_none());
    assert!(!s.needs_activation());
}

#[test]
fn all_unactivated_needs_activation() {
    let body = r#"{ "success": true, "data": { "limits": [
        { "type": "TOKENS_LIMIT", "percentage": 0.0 }
    ] } }"#;
    let s = quota(body).unwrap();
    assert!(s.needs_activation());
    assert!(s.five_hour().unwrap().next_reset.is_none());
    let empty = quota(r#"{ "success": true, "data": {} }"#).unwrap();
    assert!(!empty.needs_activation());
}

#[test]
fn mcp_parsed_and_zero_usage_filtered() {
    let body = r#"{ "success": true, "data": { "limits": [
        { "type": "TIME_LIMIT", "percentage": 25.0, "usage": 100, "currentValue": 25,
          "nextResetTime": 1767225600000,
          "usageDetails": [
              { "modelCode": "mcp-a", "usage": 5 },
              { "modelCode": "mcp-b", "usage": 0 }
          ] }
    ] } }"#;
    let s = quota(body).unwrap();
    let mcp = s.mcp.expect("应有 TIME_LIMIT");
    assert_eq!((mcp.used, mcp.total), (25, 100));
    assert_eq!(mcp.details, vec![("mcp-a".to_string(), 5)]);
    assert!(mcp.next_reset.is_some());
}

#[test]
fn error_responses() {
    let e = quota(r#"{ "code": 401, "msg": "invalid api key", "success": false }"#).unwrap_err();
    assert_eq!(e, "invalid api key");
    let e2 = quota(r#"{ "code": 500, "success": false }"#).unwrap_err();
    assert_eq!(e2, "code 500");
    assert!(quota("<html>502</html>").is_err());
}

#[test]
fn a_limit_without_a_type_is_refused() {
    let e = quota(r#"{ "success": true, "data": { "limits": [ { "percentage": 1 } ] } }"#).unwrap_err();
    assert_eq!(e, "解析失败: missing field `type`");
}

#[test]
fn an_unreadable_body_is_named() {
    let e = parse_quota_at(Err("expected value".to_string()), &noon()).unwrap_err();
    assert_eq!(e, "解析失败: expected value");
    let data = RawData { limits: vec![], level: "max".to_string() };
    let kept = RawResp { code: 500, msg: "odd".to_string(), data: Some(data), success: false };
    let s = parse_quota_at(Ok(kept), &noon()).unwrap();
    assert_eq!(s.level, "max");
    assert_eq!((s.fetched_at.secs, s.fetched_at.nanos, s.fetched_at.offset), (1_767_225_600, 5, 28_800));
    let bare = RawResp { code: 0, msg: "odd".to_string(), data: None, success: true };
    let s = parse_quota_at(Ok(bare), &noon()).unwrap();
    assert!(s.windows.is_empty() && s.mcp.is_none() && s.level.is_empty() && s.resets.is_none());
}

#[test]
fn windows_keep_their_order_where_they_reset_together() {
    let body = r#"{ "success": true, "data": { "limits": [
        { "type": "TOKENS_LIMIT", "percentage": 1 },
        { "type": "TOKENS_LIMIT", "percentage": 2, "nextResetTime": 2000 },
        { "type": "OTHER", "percentage": 9, "nextResetTime": 1 },
        { "type": "TOKENS_LIMIT", "percentage": 3, "nextResetTime": 1000 },
        { "type": "TOKENS_LIMIT", "percentage": 4, "nextResetTime": 2000 },
        { "type": "TOKENS_LIMIT" }
    ] } }"#;
    let s = quota(body).unwrap();
    let used: Vec<i64> = s.windows.iter().map(|w| w.used_pct.used).collect();
    assert_eq!(used, vec![3, 2, 4, 1, 0]);
    let labels: Vec<&str> = s.windows.iter().map(|w| w.label.as_str()).collect();
    assert_eq!(labels, vec!["5小时额度", "每周额度", "额度窗口", "额度窗口", "额度窗口"]);
    assert_eq!(s.windows[0].next_reset.unwrap().secs, 1);
    assert_eq!(s.windows[4].used_pct.left, 100);
    assert_eq!(s.windows[4].used_pct.left_of_16, 16);
    assert_eq!(s.windows[4].used_pct.left_text, "100");
}

#[test]
fn a_time_off_the_calendar_is_no_time() {
    let body = r#"{ "success": true, "data": { "limits": [
        { "type": "TOKENS_LIMIT", "percentage": 1, "nextResetTime": 9223372036854775807 },
        { "type": "TOKENS_LIMIT", "percentage": 2, "nextResetTime": -1 }
    ] } }"#;
    let s = quota(body).unwrap();
    assert_eq!(s.windows[0].next_reset.unwrap().secs, -1);
    assert_eq!(s.windows[0].next_reset.unwrap().nanos, 999_000_000);
    assert!(s.windows[1].activated);
    assert!(s.windows[1].next_reset.is_none());
    assert!(!s.needs_activation());
}

#[test]
fn the_first_monthly_quota_counts() {
    let body = r#"{ "success": true, "data": { "limits": [
        { "type": "TIME_LIMIT" },
        { "type": "TIME_LIMIT", "usage": 7 }
    ] } }"#;
    let m = quota(body).unwrap().mcp.unwrap();
    assert_eq!((m.used, m.total, m.used_pct.used), (0, 0, 0));
    assert_eq!(m.used_pct.exact_text, "0");
    assert!(m.details.is_empty() && m.next_reset.is_none());
}

#[test]
fn cards_that_cannot_be_had_change_nothing() {
    let s = quota(r#"{ "success": true, "data": { "level": "pro" } }"#).unwrap();
    let s = s.with_resets(Err("HTTP 404".to_string()));
    assert!(s.resets.is_none());
    assert_eq!(s.level, "pro");
    let card = ResetRecord { record_id: 4, expire_time: "x".to_string(), available: true };
    let s = s.with_resets(Ok(ResetCards { five_hour: vec![card], week: vec![] }));
    assert_eq!(s.level, "pro");
    assert_eq!(s.resets.unwrap().five_hour[0].record_id, 4);
}

#[test]
fn nothing_used_is_the_percentage_of_zero() {
    let a = Percent::zero();
    let b = percent(0.0);
    assert_eq!(format!("{:?}", a), format!("{:?}", b));
    assert_eq!(format!("{:?}", a.copy()), format!("{:?}", a));
    let s = quota(r#"{ "success": true, "data": { "level": "pro", "limits": [ { "type": "TIME_LIMIT" } ] } }"#).unwrap();
    assert_eq!(format!("{:?}", s.clone()), format!("{:?}", s));
}
