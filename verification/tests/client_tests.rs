use kaiheila::client::{AuthScheme, Client, GuildNicknameSetting, GuildUserListSetting};
use kaiheila::error::ApiError;

#[test]
fn bot_token_header() {
    let c = Client::new_from_bot_token("abc").unwrap();
    assert_eq!(c.auth_header, "Bot abc");
    assert_eq!(c.base_url, "https://www.kaiheila.cn/api/v3");
}

#[test]
fn oauth2_token_header() {
    let c = Client::new_from_oauth2_token("abc").unwrap();
    assert_eq!(c.auth_header, "Bearer abc");
}

#[test]
fn control_character_token_is_invalid() {
    match Client::new_from_bot_token("a\nb") {
        Err(ApiError::TokenInvalid { token }) => assert_eq!(token, "a\nb"),
        other => panic!("expected TokenInvalid, got {:?}", other),
    }
    assert!(matches!(
        Client::new_from_bot_token("a\u{7f}b"),
        Err(ApiError::TokenInvalid { .. })
    ));
}

#[test]
fn tab_space_and_wide_characters_are_valid() {
    assert!(Client::new_from_bot_token("a\tb c").is_ok());
    assert!(Client::new_from_bot_token("t\u{00e9}l\u{00e9}").is_ok());
}

#[test]
fn request_url_appends_path_to_base() {
    let c = Client::new(AuthScheme::Bot, "t", "http://mock/api/v3").unwrap();
    assert_eq!(c.request_url("/gateway/index"), "http://mock/api/v3/gateway/index");
}

fn bare_setting() -> GuildUserListSetting {
    GuildUserListSetting {
        guild_id: String::from("g1"),
        channel_id: None,
        search: None,
        role_id: None,
        mobile_verified: None,
        active_time: None,
        joined_at: None,
        filter_user_id: None,
    }
}

#[test]
fn user_list_query_minimal() {
    let q = bare_setting().query_params();
    assert_eq!(
        q,
        vec![
            (String::from("compress"), String::from("1")),
            (String::from("guild_id"), String::from("g1")),
        ]
    );
}

#[test]
fn user_list_query_all_fields() {
    let mut s = bare_setting();
    s.channel_id = Some(String::from("ch"));
    s.search = Some(String::from("bob"));
    s.role_id = Some(-5);
    s.mobile_verified = Some(true);
    s.active_time = Some(false);
    let q = s.query_params();
    assert_eq!(
        q,
        vec![
            (String::from("compress"), String::from("1")),
            (String::from("guild_id"), String::from("g1")),
            (String::from("channel_id"), String::from("ch")),
            (String::from("search"), String::from("bob")),
            (String::from("role_id"), String::from("-5")),
            (String::from("mobile_verified"), String::from("1")),
            (String::from("active_time"), String::from("0")),
        ]
    );
}

#[test]
fn joined_at_always_sends_active_time_one() {
    // the flag's value never reaches the wire: both settings send
    // active_time=1, as the endpoint handling stands
    for flag in [true, false] {
        let mut s = bare_setting();
        s.joined_at = Some(flag);
        let q = s.query_params();
        assert_eq!(q[2], (String::from("active_time"), String::from("1")));
        assert_eq!(q.len(), 3);
    }
}

#[test]
fn filter_user_id_takes_no_part() {
    let mut s = bare_setting();
    s.filter_user_id = Some(String::from("u9"));
    assert_eq!(s.query_params(), bare_setting().query_params());
}

#[test]
fn nickname_post_data_defaults_to_empty() {
    let s = GuildNicknameSetting {
        guild_id: String::from("g"),
        nickname: None,
        user_id: Some(String::from("u")),
    };
    let d = s.post_data();
    assert_eq!(d.guild_id, "g");
    assert_eq!(d.nickname, "");
    assert_eq!(d.user_id, "u");
}

#[test]
fn nickname_post_data_keeps_values() {
    let s = GuildNicknameSetting {
        guild_id: String::from("g"),
        nickname: Some(String::from("nick")),
        user_id: None,
    };
    let d = s.post_data();
    assert_eq!(d.nickname, "nick");
    assert_eq!(d.user_id, "");
}
