//! Client configuration and the pure half of the request engine: the
//! authorization header is validated and fixed at construction, the base
//! origin is an explicit configuration value, and every query or body a
//! guild endpoint sends is assembled here with an exact statement of its
//! contents.

use vstd::prelude::*;
use crate::error::ApiError;
use crate::gateway::pairs_view;
use crate::text::{i64_to_dec, int_dec};

verus! {

/// Which authorization scheme the client carries.
#[derive(Debug, Clone, Copy, PartialEq, Eq, Structural)]
pub enum AuthScheme {
    Bot,
    Bearer,
}

impl AuthScheme {
    /// The scheme word of the authorization header.
    pub fn as_str(&self) -> (r: &'static str)
        ensures
            r@ == match self {
                AuthScheme::Bot => "Bot"@,
                AuthScheme::Bearer => "Bearer"@,
            },
    {
        match self {
            AuthScheme::Bot => "Bot",
            AuthScheme::Bearer => "Bearer",
        }
    }
}

/// A character an HTTP header value may hold: horizontal tab, or anything
/// that is neither an ASCII control character nor delete.
pub open spec fn header_char_ok(c: char) -> bool {
    c == '\t' || (c as int >= 32 && c as int != 127)
}

/// A token that can stand in the authorization header.
pub open spec fn token_ok(t: Seq<char>) -> bool {
    forall|i: int| 0 <= i < t.len() ==> header_char_ok(#[trigger] t[i])
}

/// Whether every character of `t` may stand in a header value.
pub fn check_token(t: &str) -> (r: bool)
    ensures
        r == token_ok(t@),
{
    let n = t.unicode_len();
    let mut i: usize = 0;
    while i < n
        invariant
            n == t@.len(),
            0 <= i <= n,
            forall|j: int| 0 <= j < i ==> header_char_ok(#[trigger] t@[j]),
        decreases n - i,
    {
        let c = t.get_char(i);
        if !(c == '\t' || (c as u32 >= 32 && c as u32 != 127)) {
            return false;
        }
        i = i + 1;
    }
    true
}

/// The fixed origin and versioned API prefix requests go to by default.
pub fn default_base_url() -> (r: &'static str)
    ensures
        r@ == "https://www.kaiheila.cn/api/v3"@,
{
    "https://www.kaiheila.cn/api/v3"
}

/// HTTP API client configuration: the authorization header, fixed at
/// construction and never changed, and the base origin requests go to.
/// The transport that executes requests lives with the caller.
#[derive(Debug, Clone, PartialEq)]
pub struct Client {
    /// which scheme the header carries
    pub auth_scheme: AuthScheme,
    /// the full `Authorization` header value, `<scheme> <token>`
    pub auth_header: String,
    /// origin plus API prefix every request path is appended to
    pub base_url: String,
}

impl Client {
    /// Builds a client from a scheme, a token and a base origin. The token
    /// must fit in a header value; anything else is `TokenInvalid` carrying
    /// the token.
    pub fn new(scheme: AuthScheme, token: &str, base_url: &str) -> (r: Result<Client, ApiError>)
        ensures
            token_ok(token@) <==> r is Ok,
            r matches Ok(c) ==> c.auth_scheme == scheme && c.auth_header@ == (match scheme {
                AuthScheme::Bot => "Bot"@,
                AuthScheme::Bearer => "Bearer"@,
            }) + " "@ + token@ && c.base_url@ == base_url@,
            !token_ok(token@) ==> (r matches Err(e) && (e matches ApiError::TokenInvalid {
                token: t,
            } && t@ == token@)),
    {
        if !check_token(token) {
            return Err(ApiError::TokenInvalid { token: String::from_str(token) });
        }
        let mut header = String::from_str(scheme.as_str());
        header.append(" ");
        header.append(token);
        Ok(
            Client {
                auth_scheme: scheme,
                auth_header: header,
                base_url: String::from_str(base_url),
            },
        )
    }

    /// A client that authorizes with `Bot <token>` against the default
    /// origin.
    pub fn new_from_bot_token(token: &str) -> (r: Result<Client, ApiError>)
        ensures
            token_ok(token@) <==> r is Ok,
            r matches Ok(c) ==> c.auth_scheme == AuthScheme::Bot && c.auth_header@ == "Bot"@
                + " "@ + token@ && c.base_url@ == "https://www.kaiheila.cn/api/v3"@,
            !token_ok(token@) ==> (r matches Err(e) && (e matches ApiError::TokenInvalid {
                token: t,
            } && t@ == token@)),
    {
        Client::new(AuthScheme::Bot, token, default_base_url())
    }

    /// A client that authorizes with `Bearer <token>` against the default
    /// origin.
    pub fn new_from_oauth2_token(token: &str) -> (r: Result<Client, ApiError>)
        ensures
            token_ok(token@) <==> r is Ok,
            r matches Ok(c) ==> c.auth_scheme == AuthScheme::Bearer && c.auth_header@
                == "Bearer"@ + " "@ + token@ && c.base_url@
                == "https://www.kaiheila.cn/api/v3"@,
            !token_ok(token@) ==> (r matches Err(e) && (e matches ApiError::TokenInvalid {
                token: t,
            } && t@ == token@)),
    {
        Client::new(AuthScheme::Bearer, token, default_base_url())
    }

    /// The exact URL of a resource: the base origin with the path appended.
    pub fn request_url(&self, path: &str) -> (u: String)
        ensures
            u@ == self.base_url@ + path@,
    {
        let mut u = self.base_url.clone();
        u.append(path);
        u
    }
}

/// Filters for the guild user-list endpoint, one named optional field per
/// parameter the endpoint understands.
#[derive(Debug, Clone, PartialEq)]
pub struct GuildUserListSetting {
    pub guild_id: String,
    pub channel_id: Option<String>,
    pub search: Option<String>,
    pub role_id: Option<i32>,
    pub mobile_verified: Option<bool>,
    pub active_time: Option<bool>,
    pub joined_at: Option<bool>,
    pub filter_user_id: Option<String>,
}

/// The query-parameter list the user-list endpoint receives for a filter
/// setting, in wire order. `joined_at` sets `active_time=1` whichever way
/// the flag points, as the endpoint handling stands; `filter_user_id`
/// takes no part in the query.
pub open spec fn user_list_query(s: GuildUserListSetting) -> Seq<(Seq<char>, Seq<char>)> {
    seq![("compress"@, "1"@), ("guild_id"@, s.guild_id@)] + (match s.channel_id {
        None => Seq::<(Seq<char>, Seq<char>)>::empty(),
        Some(c) => seq![("channel_id"@, c@)],
    }) + (match s.search {
        None => Seq::<(Seq<char>, Seq<char>)>::empty(),
        Some(c) => seq![("search"@, c@)],
    }) + (match s.role_id {
        None => Seq::<(Seq<char>, Seq<char>)>::empty(),
        Some(r) => seq![("role_id"@, int_dec(r as int))],
    }) + (match s.mobile_verified {
        None => Seq::<(Seq<char>, Seq<char>)>::empty(),
        Some(b) => seq![
            ("mobile_verified"@, if b {
                "1"@
            } else {
                "0"@
            }),
        ],
    }) + (match s.active_time {
        None => Seq::<(Seq<char>, Seq<char>)>::empty(),
        Some(b) => seq![
            ("active_time"@, if b {
                "1"@
            } else {
                "0"@
            }),
        ],
    }) + (match s.joined_at {
        None => Seq::<(Seq<char>, Seq<char>)>::empty(),
        Some(_b) => seq![("active_time"@, "1"@)],
    })
}

impl GuildUserListSetting {
    /// Assembles exactly `user_list_query` for this setting.
    #[verifier::rlimit(100)]
    pub fn query_params(&self) -> (q: Vec<(String, String)>)
        ensures
            pairs_view(q@) == user_list_query(*self),
    {
        let mut q: Vec<(String, String)> = Vec::new();
        q.push((String::from_str("compress"), String::from_str("1")));
        q.push((String::from_str("guild_id"), self.guild_id.clone()));
        let ghost g0 = seq![("compress"@, "1"@), ("guild_id"@, self.guild_id@)];
        proof {
            assert(pairs_view(q@) =~= g0);
        }
        match &self.channel_id {
            None => {},
            Some(c) => {
                q.push((String::from_str("channel_id"), c.clone()));
            },
        }
        let ghost g1 = g0 + (match &self.channel_id {
            None => Seq::<(Seq<char>, Seq<char>)>::empty(),
            Some(c) => seq![("channel_id"@, c@)],
        });
        proof {
            assert(pairs_view(q@) =~= g1);
        }
        match &self.search {
            None => {},
            Some(c) => {
                q.push((String::from_str("search"), c.clone()));
            },
        }
        let ghost g2 = g1 + (match &self.search {
            None => Seq::<(Seq<char>, Seq<char>)>::empty(),
            Some(c) => seq![("search"@, c@)],
        });
        proof {
            assert(pairs_view(q@) =~= g2);
        }
        match &self.role_id {
            None => {},
            Some(r) => {
                q.push((String::from_str("role_id"), i64_to_dec(*r as i64)));
            },
        }
        let ghost g3 = g2 + (match self.role_id {
            None => Seq::<(Seq<char>, Seq<char>)>::empty(),
            Some(r) => seq![("role_id"@, int_dec(r as int))],
        });
        proof {
            assert(pairs_view(q@) =~= g3);
        }
        match &self.mobile_verified {
            None => {},
            Some(b) => {
                if *b {
                    q.push((String::from_str("mobile_verified"), String::from_str("1")));
                } else {
                    q.push((String::from_str("mobile_verified"), String::from_str("0")));
                }
            },
        }
        let ghost g4 = g3 + (match self.mobile_verified {
            None => Seq::<(Seq<char>, Seq<char>)>::empty(),
            Some(b) => seq![
                ("mobile_verified"@, if b {
                    "1"@
                } else {
                    "0"@
                }),
            ],
        });
        proof {
            assert(pairs_view(q@) =~= g4);
        }
        match &self.active_time {
            None => {},
            Some(b) => {
                if *b {
                    q.push((String::from_str("active_time"), String::from_str("1")));
                } else {
                    q.push((String::from_str("active_time"), String::from_str("0")));
                }
            },
        }
        let ghost g5 = g4 + (match self.active_time {
            None => Seq::<(Seq<char>, Seq<char>)>::empty(),
            Some(b) => seq![
                ("active_time"@, if b {
                    "1"@
                } else {
                    "0"@
                }),
            ],
        });
        proof {
            assert(pairs_view(q@) =~= g5);
        }
        match &self.joined_at {
            None => {},
            Some(_b) => {
                q.push((String::from_str("active_time"), String::from_str("1")));
            },
        }
        proof {
            assert(pairs_view(q@) =~= user_list_query(*self));
        }
        q
    }
}

/// Arguments for the nickname endpoint.
#[derive(Debug, Clone, PartialEq)]
pub struct GuildNicknameSetting {
    pub guild_id: String,
    pub nickname: Option<String>,
    pub user_id: Option<String>,
}

/// Body fields the nickname endpoint receives; an empty string marks a
/// field that serialization leaves out of the body.
#[derive(Debug, Clone, PartialEq)]
pub struct GuildNicknamePostData {
    pub guild_id: String,
    pub nickname: String,
    pub user_id: String,
}

impl GuildNicknameSetting {
    /// The post body for this setting: absent options become empty strings.
    pub fn post_data(&self) -> (d: GuildNicknamePostData)
        ensures
            d.guild_id@ == self.guild_id@,
            d.nickname@ == match self.nickname {
                None => Seq::<char>::empty(),
                Some(n) => n@,
            },
            d.user_id@ == match self.user_id {
                None => Seq::<char>::empty(),
                Some(u) => u@,
            },
    {
        let nickname = match &self.nickname {
            None => String::new(),
            Some(n) => n.clone(),
        };
        let user_id = match &self.user_id {
            None => String::new(),
            Some(u) => u.clone(),
        };
        GuildNicknamePostData { guild_id: self.guild_id.clone(), nickname, user_id }
    }
}

/// Body of the guild leave endpoint.
#[derive(Debug, Clone, PartialEq)]
pub struct GuildLeavePostData {
    pub guild_id: String,
}

/// Body of the guild kickout endpoint.
#[derive(Debug, Clone, PartialEq)]
pub struct GuildKickoutPostData {
    pub guild_id: String,
    pub target_id: String,
}

/// Body of the guild mute create and delete endpoints.
#[derive(Debug, Clone, PartialEq)]
pub struct GuildMutePostSetting {
    pub guild_id: String,
    pub user_id: String,
    pub type_field: i32,
}

} // verus!
