//! The control surface: the records that cross it, and what each command
//! does to the profile store.

use vstd::prelude::*;
use vstd::string::*;

use crate::config::store::ConfigManager;
use crate::config::{
    clone_opt, clone_rules, opt_view, rule_views, MappingRule, ModelMappingMode, Profile,
    ProfileView,
};
use crate::db::logs::{list_logs, listed, log_views};
use crate::db::stats::dashboard;
use crate::db::stats::dashboard::dashboard_of;
use crate::db::stats::token_stats;
use crate::db::stats::token_stats::{is_calendar_failure, is_series_of, series_len};
use crate::db::stats::types::{point_views, TokenDataPoint, TokenDataPointView};
use crate::logger::{RequestLog, RequestLogView};
use crate::proxy::proxy_config::{ProxyConfig, ProxyConfigView};
use crate::text::{decimal, push_decimal};

verus! {

/// A profile as the control surface shows it.
#[derive(Debug)]
pub struct ProfileDto {
    pub id: String,
    pub name: String,
    pub api_base_url: String,
    pub api_key: String,
    pub is_active: bool,
    pub model_mapping_mode: ModelMappingMode,
    pub override_model: Option<String>,
    pub model_mappings: Vec<MappingRule>,
}

impl View for ProfileDto {
    type V = ProfileView;

    open spec fn view(&self) -> ProfileView {
        ProfileView {
            id: self.id@,
            name: self.name@,
            api_base_url: self.api_base_url@,
            api_key: self.api_key@,
            is_active: self.is_active,
            model_mapping_mode: self.model_mapping_mode,
            override_model: opt_view(self.override_model),
            model_mappings: rule_views(self.model_mappings@),
        }
    }
}

impl ProfileDto {
    /// The record for a profile: the same fields.
    pub fn from_profile(profile: &Profile) -> (r: Self)
        ensures
            r@ == profile@,
    {
        ProfileDto {
            id: profile.id.clone(),
            name: profile.name.clone(),
            api_base_url: profile.api_base_url.clone(),
            api_key: profile.api_key.clone(),
            is_active: profile.is_active,
            model_mapping_mode: profile.model_mapping_mode,
            override_model: clone_opt(&profile.override_model),
            model_mappings: clone_rules(&profile.model_mappings),
        }
    }
}

/// What the control surface gives to create a profile: everything but the
/// identifier and the activation.
#[derive(Debug)]
pub struct CreateProfileDto {
    pub name: String,
    pub api_base_url: String,
    pub api_key: String,
    pub model_mapping_mode: ModelMappingMode,
    pub override_model: Option<String>,
    pub model_mappings: Vec<MappingRule>,
}

impl CreateProfileDto {
    /// The profile that is created from this record under the given
    /// identifier: inactive, with the record's fields.
    pub open spec fn profile_with_id(&self, id: Seq<char>) -> ProfileView {
        ProfileView {
            id,
            name: self.name@,
            api_base_url: self.api_base_url@,
            api_key: self.api_key@,
            is_active: false,
            model_mapping_mode: self.model_mapping_mode,
            override_model: opt_view(self.override_model),
            model_mappings: rule_views(self.model_mappings@),
        }
    }
}

/// All profiles, each under the key it is stored under.
pub fn get_all_profiles(manager: &ConfigManager) -> (r: Vec<ProfileDto>)
    ensures
        r@.len() == manager@.profiles.len(),
        forall|i: int|
            0 <= i < r@.len() ==> (#[trigger] r@[i])@ == (ProfileView {
                id: manager@.profiles[i].0,
                ..manager@.profiles[i].1
            }),
{
    let entries = manager.get_profiles_with_keys();
    let mut out: Vec<ProfileDto> = Vec::new();
    let mut i: usize = 0;
    while i < entries.len()
        invariant
            i <= entries@.len(),
            entries@.len() == manager@.profiles.len(),
            forall|j: int|
                0 <= j < entries@.len() ==> (#[trigger] entries@[j]).0@ == manager@.profiles[j].0
                    && entries@[j].1@ == manager@.profiles[j].1,
            out@.len() == i,
            forall|j: int|
                0 <= j < i ==> (#[trigger] out@[j])@ == (ProfileView {
                    id: manager@.profiles[j].0,
                    ..manager@.profiles[j].1
                }),
        decreases entries.len() - i,
    {
        let mut dto = ProfileDto::from_profile(entries[i].1);
        dto.id = entries[i].0.clone();
        out.push(dto);
        i += 1;
    }
    out
}

/// Creates a profile from the record, under a fresh identifier, and returns
/// the identifier and the profile as it is stored. The new profile is
/// inactive, so the store has no more active profiles than before.
pub fn create_profile(manager: &mut ConfigManager, profile: CreateProfileDto) -> (r: Result<
    (String, Profile),
    String,
>)
    requires
        old(manager).wf(),
    ensures
        final(manager).wf(),
        match r {
            Ok((id, stored)) => {
                &&& stored@ == profile.profile_with_id(id@)
                &&& !old(manager)@.has(id@)
                &&& final(manager)@ == old(manager)@.created(stored@)
            },
            Err(e) => e@ == "Profile already exists"@ && final(manager)@ == old(manager)@,
        },
        r is Err ==> exists|key: Seq<char>| key.len() == 36 && #[trigger] old(manager)@.has(key),
{
    let mut new_profile = Profile::new(profile.name, profile.api_base_url, profile.api_key);
    new_profile.model_mapping_mode = profile.model_mapping_mode;
    new_profile.override_model = profile.override_model;
    new_profile.model_mappings = profile.model_mappings;
    let copy = new_profile.clone();
    match manager.create_profile(new_profile) {
        Ok(id) => Ok((id, copy)),
        Err(e) => Err(e),
    }
}

/// Replaces the profile under `id` by the record, keeping the identifier and
/// the activation that the stored profile has. Returns the profile as it is
/// stored.
pub fn update_profile(manager: &mut ConfigManager, id: &str, profile: ProfileDto) -> (r: Result<
    Profile,
    String,
>)
    requires
        old(manager).wf(),
    ensures
        final(manager).wf(),
        match r {
            Ok(stored) => {
                &&& old(manager)@.get(id@) is Some
                &&& stored@ == (ProfileView {
                    id: id@,
                    is_active: old(manager)@.get(id@)->0.is_active,
                    ..profile@
                })
                &&& final(manager)@ == old(manager)@.replaced(
                    old(manager)@.index_of(id@),
                    id@,
                    stored@,
                )
            },
            Err(e) => {
                &&& old(manager)@.get(id@) is None
                &&& e@ == "Profile not found"@
                &&& final(manager)@ == old(manager)@
            },
        },
{
    let is_active = match manager.get_profile(id) {
        Some(existing) => existing.is_active,
        None => {
            return Err(String::from_str("Profile not found"));
        },
    };
    let updated = Profile {
        id: String::from_str(id),
        name: profile.name,
        api_base_url: profile.api_base_url,
        api_key: profile.api_key,
        is_active,
        model_mapping_mode: profile.model_mapping_mode,
        override_model: profile.override_model,
        model_mappings: profile.model_mappings,
    };
    let copy = updated.clone();
    match manager.update_profile(id, updated) {
        Ok(_) => Ok(copy),
        Err(e) => Err(e),
    }
}

/// Makes the profile under `id` the only active one and returns all
/// profiles as they are stored now.
pub fn activate_profile(manager: &mut ConfigManager, id: &str) -> (r: Result<Vec<Profile>, String>)
    requires
        old(manager).wf(),
    ensures
        final(manager).wf(),
        match r {
            Ok(all) => {
                &&& old(manager)@.has(id@)
                &&& final(manager)@ == old(manager)@.activated(id@)
                &&& all@.len() == final(manager)@.profiles.len()
                &&& forall|i: int|
                    0 <= i < all@.len() ==> (#[trigger] all@[i])@ == final(manager)@.profiles[i].1
            },
            Err(e) => {
                &&& !old(manager)@.has(id@)
                &&& e@ == "Profile not found"@
                &&& final(manager)@ == old(manager)@
            },
        },
{
    match manager.activate_profile(id) {
        Ok(_) => {},
        Err(e) => {
            return Err(e);
        },
    }
    let listed = manager.list_profiles();
    let mut all: Vec<Profile> = Vec::new();
    let mut i: usize = 0;
    while i < listed.len()
        invariant
            i <= listed@.len(),
            listed@.len() == manager@.profiles.len(),
            forall|j: int|
                0 <= j < listed@.len() ==> (#[trigger] listed@[j])@ == manager@.profiles[j].1,
            all@.len() == i,
            forall|j: int| 0 <= j < i ==> (#[trigger] all@[j])@ == manager@.profiles[j].1,
        decreases listed.len() - i,
    {
        all.push(listed[i].clone());
        i += 1;
    }
    Ok(all)
}

/// The page of the log that a request for `limit` rows from `offset` on
/// gets: at most 100 rows, 100 where no limit is given; a negative limit
/// or offset counts as zero.
pub open spec fn page_of(limit: Option<i32>, offset: Option<i32>) -> (usize, usize) {
    let wanted = match limit {
        Some(l) => l,
        None => 100,
    };
    let from = match offset {
        Some(o) => o,
        None => 0,
    };
    (
        if wanted > 100 {
            100usize
        } else if wanted < 0 {
            0usize
        } else {
            wanted as usize
        },
        if from < 0 {
            0usize
        } else {
            from as usize
        },
    )
}

/// A page never holds more than 100 rows: no limit, and every limit above
/// 100, asks for 100. A negative offset asks for what no offset asks for.
pub proof fn lemma_page_is_clamped(limit: Option<i32>, offset: Option<i32>)
    ensures
        page_of(limit, offset).0 <= 100,
        limit is None ==> page_of(limit, offset) == page_of(Some(100), offset),
        limit matches Some(l) && l > 100 ==> page_of(limit, offset) == page_of(Some(100), offset),
        offset matches Some(n) && n < 0 ==> page_of(limit, offset) == page_of(limit, Some(0)),
        offset is None ==> page_of(limit, offset) == page_of(limit, Some(0)),
{
}

/// The page of the log that a request gets.
pub fn log_page(limit: Option<i32>, offset: Option<i32>) -> (r: (usize, usize))
    ensures
        r == page_of(limit, offset),
        r.0 <= 100,
{
    let wanted: i32 = match limit {
        Some(l) => l,
        None => 100,
    };
    let from: i32 = match offset {
        Some(o) => o,
        None => 0,
    };
    let size: usize = if wanted > 100 {
        100
    } else if wanted < 0 {
        0
    } else {
        wanted as usize
    };
    let start: usize = if from < 0 {
        0
    } else {
        from as usize
    };
    (size, start)
}

/// A log row as the control surface shows it.
#[derive(Debug)]
pub struct RequestLogDto {
    pub id: Option<i64>,
    pub request_id: String,
    pub timestamp: i64,
    pub profile_id: String,
    pub profile_name: String,
    pub provider: String,
    pub original_model: String,
    pub model_mode: String,
    pub forwarded_model: String,
    pub input_tokens: i32,
    pub output_tokens: i32,
    pub duration_ms: i64,
    pub upstream_duration_ms: Option<i64>,
    pub status_code: i32,
    pub error_message: Option<String>,
    pub is_stream: bool,
    pub request_size_bytes: Option<i64>,
    pub response_size_bytes: Option<i64>,
}

impl RequestLogDto {
    /// True when this record shows the given row: the same fields, without
    /// a row number, the cache counts and the kept body.
    pub open spec fn shows(&self, log: RequestLogView) -> bool {
        &&& self.id is None
        &&& self.request_id@ == log.request_id
        &&& self.timestamp == log.timestamp
        &&& self.profile_id@ == log.profile_id
        &&& self.profile_name@ == log.profile_name
        &&& self.provider@ == log.provider
        &&& self.original_model@ == log.original_model
        &&& self.model_mode@ == log.model_mode
        &&& self.forwarded_model@ == log.forwarded_model
        &&& self.input_tokens == log.input_tokens
        &&& self.output_tokens == log.output_tokens
        &&& self.duration_ms == log.duration_ms
        &&& self.upstream_duration_ms == log.upstream_duration_ms
        &&& self.status_code == log.status_code
        &&& opt_view(self.error_message) == log.error_message
        &&& self.is_stream == log.is_stream
        &&& self.request_size_bytes == log.request_size_bytes
        &&& self.response_size_bytes == log.response_size_bytes
    }

    /// The record for a log row.
    pub fn from_log(log: RequestLog) -> (r: Self)
        ensures
            r.shows(log@),
    {
        RequestLogDto {
            id: None,
            request_id: log.request_id,
            timestamp: log.timestamp,
            profile_id: log.profile_id,
            profile_name: log.profile_name,
            provider: log.provider,
            original_model: log.original_model,
            model_mode: log.model_mode,
            forwarded_model: log.forwarded_model,
            input_tokens: log.input_tokens,
            output_tokens: log.output_tokens,
            duration_ms: log.duration_ms,
            upstream_duration_ms: log.upstream_duration_ms,
            status_code: log.status_code,
            error_message: log.error_message,
            is_stream: log.is_stream,
            request_size_bytes: log.request_size_bytes,
            response_size_bytes: log.response_size_bytes,
        }
    }
}

/// True when the records show the rows, one for one and in order.
pub open spec fn show_all(records: Seq<RequestLogDto>, rows: Seq<RequestLogView>) -> bool {
    &&& records.len() == rows.len()
    &&& forall|i: int| 0 <= i < records.len() ==> (#[trigger] records[i]).shows(rows[i])
}

/// The page of a log that a request gets, as the control surface shows it:
/// the rows newest first, at most `limit` and at most 100 of them, after the
/// first `offset`; a negative offset counts as none.
pub fn get_logs(logs: &Vec<RequestLog>, limit: Option<i32>, offset: Option<i32>) -> (r: Vec<
    RequestLogDto,
>)
    ensures
        show_all(
            r@,
            listed(
                log_views(logs@),
                page_of(limit, offset).0 as int,
                page_of(limit, offset).1 as int,
            ),
        ),
        r@.len() <= 100,
{
    let (size, start) = log_page(limit, offset);
    let mut rows = list_logs(logs, size, start);
    let ghost shown = log_views(rows@);
    let mut reversed: Vec<RequestLogDto> = Vec::new();
    assert(shown.len() == rows@.len());
    while rows.len() > 0
        invariant
            rows@.len() <= shown.len(),
            log_views(rows@) == shown.subrange(0, rows@.len() as int),
            reversed@.len() == shown.len() - rows@.len(),
            forall|k: int|
                0 <= k < reversed@.len() ==> (#[trigger] reversed@[k]).shows(
                    shown[shown.len() - 1 - k],
                ),
        decreases rows@.len(),
    {
        let ghost before = rows@;
        match rows.pop() {
            Some(log) => {
                proof {
                    assert(log_views(before)[before.len() - 1] == log@);
                    assert(log_views(rows@) =~= shown.subrange(0, rows@.len() as int));
                }
                reversed.push(RequestLogDto::from_log(log));
            },
            None => {},
        }
    }
    let mut out: Vec<RequestLogDto> = Vec::new();
    while reversed.len() > 0
        invariant
            reversed@.len() + out@.len() == shown.len(),
            forall|k: int|
                0 <= k < reversed@.len() ==> (#[trigger] reversed@[k]).shows(
                    shown[shown.len() - 1 - k],
                ),
            forall|k: int| 0 <= k < out@.len() ==> (#[trigger] out@[k]).shows(shown[k]),
        decreases reversed@.len(),
    {
        match reversed.pop() {
            Some(dto) => {
                out.push(dto);
            },
            None => {},
        }
    }
    out
}

/// The dashboard numbers as the control surface shows them.
#[derive(Debug, Clone, Copy, PartialEq, Eq, Structural)]
pub struct DashboardStatsDto {
    pub today_requests: i32,
    pub today_tokens: i32,
    pub total_requests: i32,
    pub total_tokens: i32,
}

/// Today's dashboard numbers of a log as the control surface shows them.
pub fn get_dashboard_stats(logs: &Vec<RequestLog>) -> (r: Result<DashboardStatsDto, String>)
    ensures
        match r {
            Ok(shown) => exists|today_start: i64|
                #![trigger dashboard_of(log_views(logs@), today_start)]
                {
                    let stats = dashboard_of(log_views(logs@), today_start);
                    &&& shown.today_requests == stats.today_requests
                    &&& shown.today_tokens == stats.today_tokens
                    &&& shown.total_requests == stats.total_requests
                    &&& shown.total_tokens == stats.total_tokens
                },
            Err(e) => e@ == "Failed to create today start timestamp"@,
        },
{
    match dashboard::get_dashboard_stats(logs) {
        Ok(stats) => Ok(
            DashboardStatsDto {
                today_requests: stats.today_requests,
                today_tokens: stats.today_tokens,
                total_requests: stats.total_requests,
                total_tokens: stats.total_tokens,
            },
        ),
        Err(e) => Err(e),
    }
}

/// One point of a token series as the control surface shows it.
#[derive(Debug)]
pub struct TokenDataPointDto {
    pub label: String,
    pub tokens: i32,
}

impl TokenDataPointDto {
    /// The record for a point: its label and its tokens.
    pub fn from_point(point: TokenDataPoint) -> (r: Self)
        ensures
            r.label@ == point@.label,
            r.tokens == point@.tokens,
    {
        TokenDataPointDto { label: point.label, tokens: point.tokens }
    }
}

/// The token series of a range as the control surface shows it: label and
/// tokens of each point of the series, in order.
pub fn get_token_stats(time_range: &str, logs: &Vec<RequestLog>) -> (r: Result<
    Vec<TokenDataPointDto>,
    String,
>)
    ensures
        match r {
            Ok(shown) => exists|points: Seq<TokenDataPointView>|
                {
                    &&& #[trigger] is_series_of(time_range@, points, log_views(logs@))
                    &&& series_len(time_range@) == Some(points.len())
                    &&& shown@.len() == points.len()
                    &&& forall|i: int|
                        0 <= i < shown@.len() ==> (#[trigger] shown@[i]).label@ == points[i].label
                            && shown@[i].tokens == points[i].tokens
                },
            Err(e) => series_len(time_range@) is Some ==> is_calendar_failure(e@),
        },
        series_len(time_range@) is None ==> (r matches Err(e) && e@ == "Invalid time range: "@
            + time_range@),
{
    let points = match token_stats::get_token_stats(time_range, logs) {
        Ok(points) => points,
        Err(e) => {
            return Err(e);
        },
    };
    let ghost views = point_views(points@);
    let mut points = points;
    let mut reversed: Vec<TokenDataPointDto> = Vec::new();
    while points.len() > 0
        invariant
            points@.len() <= views.len(),
            point_views(points@) == views.subrange(0, points@.len() as int),
            reversed@.len() == views.len() - points@.len(),
            forall|k: int|
                0 <= k < reversed@.len() ==> (#[trigger] reversed@[k]).label@ == views[views.len()
                    - 1 - k].label && reversed@[k].tokens == views[views.len() - 1 - k].tokens,
        decreases points@.len(),
    {
        let ghost before = points@;
        match points.pop() {
            Some(point) => {
                proof {
                    assert(point@ == point_views(before)[before.len() - 1]);
                    assert(point_views(points@) =~= views.subrange(0, points@.len() as int));
                }
                reversed.push(TokenDataPointDto::from_point(point));
            },
            None => {},
        }
    }
    let mut out: Vec<TokenDataPointDto> = Vec::new();
    while reversed.len() > 0
        invariant
            reversed@.len() + out@.len() == views.len(),
            forall|k: int|
                0 <= k < reversed@.len() ==> (#[trigger] reversed@[k]).label@ == views[views.len()
                    - 1 - k].label && reversed@[k].tokens == views[views.len() - 1 - k].tokens,
            forall|k: int|
                0 <= k < out@.len() ==> (#[trigger] out@[k]).label@ == views[k].label
                    && out@[k].tokens == views[k].tokens,
        decreases reversed@.len(),
    {
        match reversed.pop() {
            Some(dto) => {
                out.push(dto);
            },
            None => {},
        }
    }
    Ok(out)
}

/// The address under which the proxy is reached.
pub open spec fn server_url_of(config: ProxyConfigView) -> Seq<char> {
    "http://"@ + config.host + ":"@ + decimal(config.port as nat)
}

/// The address under which the proxy is reached.
pub fn get_proxy_server_url(config: &ProxyConfig) -> (r: String)
    ensures
        r@ == server_url_of(config@),
{
    let mut out = String::from_str("http://");
    out.append(config.host.as_str());
    out.append(":");
    push_decimal(&mut out, config.port as u64);
    out
}

} // verus!
