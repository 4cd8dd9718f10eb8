use glmeter::config::Config;
use glmeter::json::Json;
use glmeter::request::{activation_request, fallback_bytes, request_id, reset_request};

#[test]
fn request_id_is_uuid_v4_shape() {
    let id = request_id(fallback_bytes(1_767_225_600_123_456_789, 4242, 0));
    assert_eq!(id.len(), 36);
    let parts: Vec<&str> = id.split('-').collect();
    assert_eq!(
        parts.iter().map(|p| p.len()).collect::<Vec<_>>(),
        vec![8, 4, 4, 4, 12]
    );
    assert!(id.chars().all(|c| c == '-' || c.is_ascii_hexdigit()));
    assert!(id.starts_with(|_| true) && parts[2].starts_with('4'));
    assert!(matches!(
        parts[3].chars().next().unwrap(),
        '8' | '9' | 'a' | 'b'
    ));
}

#[test]
fn the_bytes_of_a_request_id() {
    let mut bytes = [0u8; 16];
    for (i, b) in bytes.iter_mut().enumerate() {
        *b = (i * 17) as u8;
    }
    assert_eq!(request_id(bytes), "00112233-4455-4677-8899-aabbccddeeff");
    assert_eq!(request_id([0xff; 16]), "ffffffff-ffff-4fff-bfff-ffffffffffff");
    assert_eq!(request_id([0; 16]), "00000000-0000-4000-8000-000000000000");
}

#[test]
fn bytes_without_a_source_of_chance() {
    let mix = |nanos: u128, process: u32, count: u32| {
        let mut h: u128 = nanos ^ ((process as u128) << 96) ^ ((count as u128) << 64);
        h ^= h >> 33;
        h = h.wrapping_mul(0xff51_afd7_ed55_8ccd);
        h ^= h >> 33;
        h.to_le_bytes()
    };
    for (n, p, c) in [(0, 0, 0), (1, 2, 3), (u128::MAX, u32::MAX, u32::MAX), (1_767_225_600_000_000_001, 77, 5)] {
        assert_eq!(fallback_bytes(n, p, c), mix(n, p, c));
    }
    assert_ne!(request_id(fallback_bytes(9, 9, 0)), request_id(fallback_bytes(9, 9, 1)));
}

fn field<'a>(json: &'a Json, key: &str) -> &'a Json {
    json.get(key).unwrap()
}

#[test]
fn the_activating_request() {
    let cfg = Config { model: "glm-x".to_string(), max_tokens: 3, ..Config::default() };
    let r = activation_request(&cfg);
    assert_eq!(field(&r, "model").as_str(), Some(&"glm-x".to_string()));
    assert_eq!(field(&r, "max_tokens").as_i64(), Some(3));
    assert_eq!(field(&r, "stream").as_bool(), Some(false));
    let messages = field(&r, "messages").as_array().unwrap();
    assert_eq!(messages.len(), 1);
    assert_eq!(field(&messages[0], "role").as_str(), Some(&"user".to_string()));
    assert_eq!(field(&messages[0], "content").as_str(), Some(&"1".to_string()));
}

#[test]
fn the_request_that_uses_a_card() {
    let r = reset_request(true, 21, "key");
    assert_eq!(field(&r, "targetType").as_str(), Some(&"PERSONAL".to_string()));
    assert_eq!(field(&r, "resetType").as_str(), Some(&"WEEK".to_string()));
    assert_eq!(field(&r, "recordId").as_i64(), Some(21));
    assert_eq!(field(&r, "requestId").as_str(), Some(&"key".to_string()));
    assert_eq!(field(&reset_request(false, 1, ""), "resetType").as_str(), Some(&"FIVE_HOUR".to_string()));
}
