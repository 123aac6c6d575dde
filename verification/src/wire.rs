//! The document that a configuration is saved as. Settings at their defaults
//! are left out, so that an untouched configuration stays short.
use vstd::prelude::*;

use crate::config;
use crate::config::{Config, DirectModeConfig, ExitNodeConfig, FrontingGroup, ScriptId};
use crate::json;
use crate::json::JsonView;
use crate::numeral;
use crate::text;

verus! {

/// The saved document of a configuration.
pub struct ConfigWire {
    pub members: serde_json::Map<String, serde_json::Value>,
}

/// A key of the document with its value, or with none where it is left out.
struct Field {
    key: &'static str,
    value: Option<serde_json::Value>,
}

spec fn field_view(f: Field) -> (Seq<char>, Option<JsonView>) {
    (
        f.key@,
        match f.value {
            Some(v) => Some(json::json_view(v)),
            None => None,
        },
    )
}

spec fn field_views(fields: Seq<Field>) -> Seq<(Seq<char>, Option<JsonView>)> {
    fields.map_values(|f: Field| field_view(f))
}

/// The value, unless it is left out.
pub open spec fn unless(omit: bool, v: JsonView) -> Option<JsonView> {
    if omit {
        None
    } else {
        Some(v)
    }
}

/// A flag that is saved only when it is set.
pub open spec fn set_flag(b: bool) -> Option<JsonView> {
    unless(!b, JsonView::Bool(b))
}

/// A flag that is saved only when it is cleared.
pub open spec fn cleared_flag(b: bool) -> Option<JsonView> {
    unless(b, JsonView::Bool(b))
}

/// A list that is saved only when it has entries.
pub open spec fn some_texts(v: Seq<String>) -> Option<JsonView> {
    unless(v.len() == 0, json::texts_array(text::texts(v)))
}

/// The IDs as they are saved: one as a string, several as an array.
pub open spec fn script_id_view(s: Option<ScriptId>) -> Option<JsonView> {
    match s {
        Some(ScriptId::One(id)) => Some(JsonView::Text(id@)),
        Some(ScriptId::Many(ids)) => Some(json::texts_array(text::texts(ids@))),
        None => None,
    }
}

/// The members that pairs make up; a later pair takes the place of an earlier
/// one with the same key.
pub open spec fn pairs_view(pairs: Seq<(String, String)>) -> Map<Seq<char>, JsonView>
    decreases pairs.len(),
{
    if pairs.len() == 0 {
        Map::empty()
    } else {
        pairs_view(pairs.drop_last()).insert(pairs.last().0@, JsonView::Text(pairs.last().1@))
    }
}

/// A fronting group as it is saved.
pub open spec fn group_view(g: FrontingGroup) -> JsonView {
    JsonView::Object(
        Map::<Seq<char>, JsonView>::empty().insert("name"@, JsonView::Text(g.name@)).insert(
            "ip"@,
            JsonView::Text(g.ip@),
        ).insert("sni"@, JsonView::Text(g.sni@)).insert(
            "domains"@,
            json::texts_array(text::texts(g.domains@)),
        ),
    )
}

/// Fronting groups as they are saved.
pub open spec fn groups_view(groups: Seq<FrontingGroup>) -> JsonView {
    JsonView::Array(groups.map_values(|g: FrontingGroup| group_view(g)))
}

/// Exit-node settings as they are saved.
pub open spec fn exit_node_view(en: ExitNodeConfig) -> JsonView {
    JsonView::Object(
        Map::<Seq<char>, JsonView>::empty().insert("enabled"@, JsonView::Bool(en.enabled)).insert(
            "relay_url"@,
            JsonView::Text(en.relay_url@),
        ).insert("psk"@, JsonView::Text(en.psk@)).insert(
            "hosts"@,
            json::texts_array(text::texts(en.hosts@)),
        ).insert("mode"@, JsonView::Text(en.mode@)),
    )
}

/// Direct-mode settings as they are saved.
pub open spec fn direct_mode_view(d: DirectModeConfig) -> JsonView {
    JsonView::Object(
        Map::<Seq<char>, JsonView>::empty().insert("enabled"@, JsonView::Bool(d.enabled)).insert(
            "fronts"@,
            json::texts_array(text::texts(d.fronts@)),
        ).insert("google_domains"@, json::texts_array(text::texts(d.google_domains@))).insert(
            "sanctioned_domains"@,
            json::texts_array(text::texts(d.sanctioned_domains@)),
        ),
    )
}

/// The mode, the deployment and the listeners.
pub open spec fn address_fields(c: Config) -> Seq<(Seq<char>, Option<JsonView>)> {
    seq![
        ("mode"@, Some(JsonView::Text(c.mode@))),
        ("google_ip"@, Some(JsonView::Text(c.google_ip@))),
        ("front_domain"@, Some(JsonView::Text(c.front_domain@))),
        ("script_id"@, script_id_view(c.script_id)),
        ("auth_key"@, Some(JsonView::Text(c.auth_key@))),
        ("listen_host"@, Some(JsonView::Text(c.listen_host@))),
        ("listen_port"@, Some(json::number(c.listen_port as nat))),
        (
            "socks5_port"@,
            match c.socks5_port {
                Some(p) => Some(json::number(p as nat)),
                None => None,
            },
        ),
        ("hosts"@, unless(c.hosts@.len() == 0, JsonView::Object(pairs_view(c.hosts@)))),
        (
            "upstream_socks5"@,
            match c.upstream_socks5 {
                Some(s) => Some(JsonView::Text(s@)),
                None => None,
            },
        ),
        (
            "sni_hosts"@,
            match c.sni_hosts {
                Some(v) => Some(json::texts_array(text::texts(v@))),
                None => None,
            },
        ),
    ]
}

/// The log panel, verification and the IP scan.
pub open spec fn log_fields(c: Config) -> Seq<(Seq<char>, Option<JsonView>)> {
    seq![
        ("log_level"@, Some(JsonView::Text(c.log_level@))),
        (
            "log_color_info"@,
            unless(
                config::default_or_blank(c.log_color_info@, config::DEFAULT_LOG_COLOR_INFO@),
                JsonView::Text(c.log_color_info@),
            ),
        ),
        (
            "log_color_warn"@,
            unless(
                config::default_or_blank(c.log_color_warn@, config::DEFAULT_LOG_COLOR_WARN@),
                JsonView::Text(c.log_color_warn@),
            ),
        ),
        (
            "log_color_error"@,
            unless(
                config::default_or_blank(c.log_color_error@, config::DEFAULT_LOG_COLOR_ERROR@),
                JsonView::Text(c.log_color_error@),
            ),
        ),
        ("verify_ssl"@, Some(JsonView::Bool(c.verify_ssl))),
        (
            "parallel_relay"@,
            unless(c.parallel_relay == 0, json::number(c.parallel_relay as nat)),
        ),
        ("fetch_ips_from_api"@, set_flag(c.fetch_ips_from_api)),
        ("max_ips_to_scan"@, Some(json::number(c.max_ips_to_scan as nat))),
        ("scan_batch_size"@, Some(json::number(c.scan_batch_size as nat))),
        ("google_ip_validation"@, Some(JsonView::Bool(c.google_ip_validation))),
    ]
}

/// What is rewritten, relayed, passed through or blocked.
pub open spec fn routing_fields(c: Config) -> Seq<(Seq<char>, Option<JsonView>)> {
    seq![
        ("normalize_x_graphql"@, set_flag(c.normalize_x_graphql)),
        ("youtube_via_relay"@, set_flag(c.youtube_via_relay)),
        ("relay_url_patterns"@, some_texts(c.relay_url_patterns@)),
        ("sabr_strip"@, set_flag(c.sabr_strip)),
        ("passthrough_hosts"@, some_texts(c.passthrough_hosts@)),
        ("tunnel_doh"@, set_flag(c.tunnel_doh)),
        ("bypass_doh_hosts"@, some_texts(c.bypass_doh_hosts@)),
        ("block_doh"@, cleared_flag(c.block_doh)),
        ("block_stun"@, set_flag(c.block_stun)),
        ("block_quic"@, cleared_flag(c.block_quic)),
        (
            "fronting_groups"@,
            unless(c.fronting_groups@.len() == 0, groups_view(c.fronting_groups@)),
        ),
    ]
}

/// Tuning, and the settings that have a document of their own.
pub open spec fn tuning_fields(c: Config) -> Seq<(Seq<char>, Option<JsonView>)> {
    seq![
        (
            "auto_blacklist_strikes"@,
            unless(c.auto_blacklist_strikes == 3, json::number(c.auto_blacklist_strikes as nat)),
        ),
        (
            "auto_blacklist_window_secs"@,
            unless(
                c.auto_blacklist_window_secs == 30,
                json::number(c.auto_blacklist_window_secs as nat),
            ),
        ),
        (
            "auto_blacklist_cooldown_secs"@,
            unless(
                c.auto_blacklist_cooldown_secs == 120,
                json::number(c.auto_blacklist_cooldown_secs as nat),
            ),
        ),
        (
            "request_timeout_secs"@,
            unless(c.request_timeout_secs == 30, json::number(c.request_timeout_secs as nat)),
        ),
        (
            "apps_script_lang"@,
            unless(
                config::default_or_blank(c.apps_script_lang@, "en"@),
                JsonView::Text(c.apps_script_lang@),
            ),
        ),
        ("force_http1"@, set_flag(c.force_http1)),
        ("disable_padding"@, set_flag(c.disable_padding)),
        ("enable_batching"@, set_flag(c.enable_batching)),
        (
            "coalesce_step_ms"@,
            unless(c.coalesce_step_ms == 0, json::number(c.coalesce_step_ms as nat)),
        ),
        (
            "coalesce_max_ms"@,
            unless(c.coalesce_max_ms == 0, json::number(c.coalesce_max_ms as nat)),
        ),
        ("exit_node"@, unless(config::default_exit_node(c.exit_node), exit_node_view(c.exit_node))),
        (
            "direct_mode"@,
            unless(config::default_direct_mode(c.direct_mode), direct_mode_view(c.direct_mode)),
        ),
    ]
}

/// The configuration's own keys with what is saved under them.
pub open spec fn fields(c: Config) -> Seq<(Seq<char>, Option<JsonView>)> {
    address_fields(c) + log_fields(c) + routing_fields(c) + tuning_fields(c)
}

/// The members that fields make up.
pub open spec fn fields_view(f: Seq<(Seq<char>, Option<JsonView>)>) -> Map<Seq<char>, JsonView>
    decreases f.len(),
{
    if f.len() == 0 {
        Map::empty()
    } else {
        match f.last().1 {
            Some(v) => fields_view(f.drop_last()).insert(f.last().0, v),
            None => fields_view(f.drop_last()),
        }
    }
}

/// The members of the saved document: the configuration's own, and the extras
/// beside them.
pub open spec fn document(c: Config) -> Map<Seq<char>, JsonView> {
    fields_view(fields(c)).union_prefer_right(json::members(c.extras))
}

fn when(save: bool, v: serde_json::Value) -> (r: Option<serde_json::Value>)
    ensures
        match r {
            Some(w) => save && json::json_view(w) == json::json_view(v),
            None => !save,
        },
{
    if save {
        Some(v)
    } else {
        None
    }
}

fn text_field(key: &'static str, s: &str) -> (f: Field)
    ensures
        field_view(f) == (key@, Some(JsonView::Text(s@))),
{
    Field { key, value: Some(json::text_value(s)) }
}

fn text_field_unless(key: &'static str, omit: bool, s: &str) -> (f: Field)
    ensures
        field_view(f) == (key@, unless(omit, JsonView::Text(s@))),
{
    Field { key, value: when(!omit, json::text_value(s)) }
}

fn bool_field(key: &'static str, omit: bool, b: bool) -> (f: Field)
    ensures
        field_view(f) == (key@, unless(omit, JsonView::Bool(b))),
{
    Field { key, value: when(!omit, json::bool_value(b)) }
}

fn number_field(key: &'static str, omit: bool, n: u64) -> (f: Field)
    ensures
        field_view(f) == (key@, unless(omit, json::number(n as nat))),
{
    Field { key, value: when(!omit, json::number_value(n)) }
}

fn texts_field(key: &'static str, v: &Vec<String>) -> (f: Field)
    ensures
        field_view(f) == (key@, some_texts(v@)),
{
    Field { key, value: when(v.len() > 0, json::texts_value(v)) }
}

fn script_id_value(s: &Option<ScriptId>) -> (r: Option<serde_json::Value>)
    ensures
        match r {
            Some(v) => script_id_view(*s) == Some(json::json_view(v)),
            None => script_id_view(*s) is None,
        },
{
    match s {
        Some(ScriptId::One(id)) => Some(json::text_value(id.as_str())),
        Some(ScriptId::Many(ids)) => Some(json::texts_value(ids)),
        None => None,
    }
}

fn pairs_value(pairs: &Vec<(String, String)>) -> (v: serde_json::Value)
    ensures
        json::json_view(v) == JsonView::Object(pairs_view(pairs@)),
{
    let mut m = json::new_object();
    let mut i: usize = 0;
    while i < pairs.len()
        invariant
            i <= pairs@.len(),
            json::members(m) == pairs_view(pairs@.take(i as int)),
        decreases pairs@.len() - i,
    {
        proof {
            assert(pairs@.take(i + 1).drop_last() =~= pairs@.take(i as int));
        }
        json::insert_member(&mut m, pairs[i].0.as_str(), json::text_value(pairs[i].1.as_str()));
        i = i + 1;
    }
    proof {
        assert(pairs@.take(i as int) =~= pairs@);
    }
    json::object_value(m)
}

fn group_value(g: &FrontingGroup) -> (v: serde_json::Value)
    ensures
        json::json_view(v) == group_view(*g),
{
    let mut m = json::new_object();
    json::insert_member(&mut m, "name", json::text_value(g.name.as_str()));
    json::insert_member(&mut m, "ip", json::text_value(g.ip.as_str()));
    json::insert_member(&mut m, "sni", json::text_value(g.sni.as_str()));
    json::insert_member(&mut m, "domains", json::texts_value(&g.domains));
    json::object_value(m)
}

/// Makes the saved form of fronting groups.
pub fn groups_value(groups: &Vec<FrontingGroup>) -> (v: serde_json::Value)
    ensures
        json::json_view(v) == groups_view(groups@),
{
    let mut items: Vec<serde_json::Value> = Vec::new();
    let mut i: usize = 0;
    while i < groups.len()
        invariant
            i <= groups@.len(),
            items@.len() == i,
            forall|k: int|
                0 <= k < i ==> json::json_view(#[trigger] items@[k]) == group_view(groups@[k]),
        decreases groups@.len() - i,
    {
        items.push(group_value(&groups[i]));
        i = i + 1;
    }
    let v = json::array_value(items);
    proof {
        assert(items@.map_values(|i: serde_json::Value| json::json_view(i))
            =~= groups@.map_values(|g: FrontingGroup| group_view(g)));
    }
    v
}

fn exit_node_value(en: &ExitNodeConfig) -> (v: serde_json::Value)
    ensures
        json::json_view(v) == exit_node_view(*en),
{
    let mut m = json::new_object();
    json::insert_member(&mut m, "enabled", json::bool_value(en.enabled));
    json::insert_member(&mut m, "relay_url", json::text_value(en.relay_url.as_str()));
    json::insert_member(&mut m, "psk", json::text_value(en.psk.as_str()));
    json::insert_member(&mut m, "hosts", json::texts_value(&en.hosts));
    json::insert_member(&mut m, "mode", json::text_value(en.mode.as_str()));
    json::object_value(m)
}

fn direct_mode_value(d: &DirectModeConfig) -> (v: serde_json::Value)
    ensures
        json::json_view(v) == direct_mode_view(*d),
{
    let mut m = json::new_object();
    json::insert_member(&mut m, "enabled", json::bool_value(d.enabled));
    json::insert_member(&mut m, "fronts", json::texts_value(&d.fronts));
    json::insert_member(&mut m, "google_domains", json::texts_value(&d.google_domains));
    json::insert_member(&mut m, "sanctioned_domains", json::texts_value(&d.sanctioned_domains));
    json::object_value(m)
}

fn address_list(c: &Config) -> (r: Vec<Field>)
    ensures
        field_views(r@) == address_fields(*c),
{
    let mut r: Vec<Field> = Vec::new();
    r.push(text_field("mode", c.mode.as_str()));
    r.push(text_field("google_ip", c.google_ip.as_str()));
    r.push(text_field("front_domain", c.front_domain.as_str()));
    r.push(Field { key: "script_id", value: script_id_value(&c.script_id) });
    r.push(text_field("auth_key", c.auth_key.as_str()));
    r.push(text_field("listen_host", c.listen_host.as_str()));
    r.push(number_field("listen_port", false, c.listen_port as u64));
    r.push(
        Field {
            key: "socks5_port",
            value: match c.socks5_port {
                Some(p) => Some(json::number_value(p as u64)),
                None => None,
            },
        },
    );
    r.push(Field { key: "hosts", value: when(c.hosts.len() > 0, pairs_value(&c.hosts)) });
    r.push(
        Field {
            key: "upstream_socks5",
            value: match &c.upstream_socks5 {
                Some(s) => Some(json::text_value(s.as_str())),
                None => None,
            },
        },
    );
    r.push(
        Field {
            key: "sni_hosts",
            value: match &c.sni_hosts {
                Some(v) => Some(json::texts_value(v)),
                None => None,
            },
        },
    );
    proof {
        assert(field_views(r@) =~= address_fields(*c));
    }
    r
}

fn log_list(c: &Config) -> (r: Vec<Field>)
    ensures
        field_views(r@) == log_fields(*c),
{
    let mut r: Vec<Field> = Vec::new();
    r.push(text_field("log_level", c.log_level.as_str()));
    r.push(
        text_field_unless(
            "log_color_info",
            config::is_default_log_color_info(c.log_color_info.as_str()),
            c.log_color_info.as_str(),
        ),
    );
    r.push(
        text_field_unless(
            "log_color_warn",
            config::is_default_log_color_warn(c.log_color_warn.as_str()),
            c.log_color_warn.as_str(),
        ),
    );
    r.push(
        text_field_unless(
            "log_color_error",
            config::is_default_log_color_error(c.log_color_error.as_str()),
            c.log_color_error.as_str(),
        ),
    );
    r.push(bool_field("verify_ssl", false, c.verify_ssl));
    r.push(
        number_field(
            "parallel_relay",
            config::is_zero_u8(&c.parallel_relay),
            c.parallel_relay as u64,
        ),
    );
    r.push(
        bool_field(
            "fetch_ips_from_api",
            config::is_false(&c.fetch_ips_from_api),
            c.fetch_ips_from_api,
        ),
    );
    r.push(number_field("max_ips_to_scan", false, c.max_ips_to_scan as u64));
    r.push(number_field("scan_batch_size", false, c.scan_batch_size as u64));
    r.push(bool_field("google_ip_validation", false, c.google_ip_validation));
    proof {
        assert(field_views(r@) =~= log_fields(*c));
    }
    r
}

fn routing_list(c: &Config) -> (r: Vec<Field>)
    ensures
        field_views(r@) == routing_fields(*c),
{
    let mut r: Vec<Field> = Vec::new();
    r.push(
        bool_field(
            "normalize_x_graphql",
            config::is_false(&c.normalize_x_graphql),
            c.normalize_x_graphql,
        ),
    );
    r.push(
        bool_field(
            "youtube_via_relay",
            config::is_false(&c.youtube_via_relay),
            c.youtube_via_relay,
        ),
    );
    r.push(texts_field("relay_url_patterns", &c.relay_url_patterns));
    r.push(bool_field("sabr_strip", config::is_false(&c.sabr_strip), c.sabr_strip));
    r.push(texts_field("passthrough_hosts", &c.passthrough_hosts));
    r.push(bool_field("tunnel_doh", config::is_false(&c.tunnel_doh), c.tunnel_doh));
    r.push(texts_field("bypass_doh_hosts", &c.bypass_doh_hosts));
    r.push(bool_field("block_doh", config::is_true(&c.block_doh), c.block_doh));
    r.push(bool_field("block_stun", config::is_false(&c.block_stun), c.block_stun));
    r.push(bool_field("block_quic", config::is_true(&c.block_quic), c.block_quic));
    r.push(
        Field {
            key: "fronting_groups",
            value: when(c.fronting_groups.len() > 0, groups_value(&c.fronting_groups)),
        },
    );
    proof {
        assert(field_views(r@) =~= routing_fields(*c));
    }
    r
}

fn tuning_list(c: &Config) -> (r: Vec<Field>)
    ensures
        field_views(r@) == tuning_fields(*c),
{
    let mut r: Vec<Field> = Vec::new();
    r.push(
        number_field(
            "auto_blacklist_strikes",
            config::is_default_strikes(&c.auto_blacklist_strikes),
            c.auto_blacklist_strikes as u64,
        ),
    );
    r.push(
        number_field(
            "auto_blacklist_window_secs",
            config::is_default_window_secs(&c.auto_blacklist_window_secs),
            c.auto_blacklist_window_secs,
        ),
    );
    r.push(
        number_field(
            "auto_blacklist_cooldown_secs",
            config::is_default_cooldown_secs(&c.auto_blacklist_cooldown_secs),
            c.auto_blacklist_cooldown_secs,
        ),
    );
    r.push(
        number_field(
            "request_timeout_secs",
            config::is_default_timeout_secs(&c.request_timeout_secs),
            c.request_timeout_secs,
        ),
    );
    r.push(
        text_field_unless(
            "apps_script_lang",
            config::is_default_apps_script_lang(c.apps_script_lang.as_str()),
            c.apps_script_lang.as_str(),
        ),
    );
    r.push(bool_field("force_http1", config::is_false(&c.force_http1), c.force_http1));
    r.push(bool_field("disable_padding", config::is_false(&c.disable_padding), c.disable_padding));
    r.push(bool_field("enable_batching", config::is_false(&c.enable_batching), c.enable_batching));
    r.push(
        number_field(
            "coalesce_step_ms",
            config::is_zero_u16(&c.coalesce_step_ms),
            c.coalesce_step_ms as u64,
        ),
    );
    r.push(
        number_field(
            "coalesce_max_ms",
            config::is_zero_u16(&c.coalesce_max_ms),
            c.coalesce_max_ms as u64,
        ),
    );
    r.push(
        Field {
            key: "exit_node",
            value: when(
                !config::is_default_exit_node(&c.exit_node),
                exit_node_value(&c.exit_node),
            ),
        },
    );
    r.push(
        Field {
            key: "direct_mode",
            value: when(
                !config::is_default_direct_mode(&c.direct_mode),
                direct_mode_value(&c.direct_mode),
            ),
        },
    );
    proof {
        assert(field_views(r@) =~= tuning_fields(*c));
    }
    r
}

proof fn lemma_fields_view_concat(
    a: Seq<(Seq<char>, Option<JsonView>)>,
    b: Seq<(Seq<char>, Option<JsonView>)>,
)
    ensures
        fields_view(a + b) == fields_view(a).union_prefer_right(fields_view(b)),
    decreases b.len(),
{
    if b.len() == 0 {
        assert(a + b =~= a);
        assert(fields_view(a) =~= fields_view(a).union_prefer_right(fields_view(b)));
    } else {
        assert((a + b).drop_last() =~= a + b.drop_last());
        lemma_fields_view_concat(a, b.drop_last());
        assert(fields_view(a + b) =~= fields_view(a).union_prefer_right(fields_view(b)));
    }
}

fn put_fields(m: &mut serde_json::Map<String, serde_json::Value>, list: Vec<Field>)
    ensures
        json::members(*final(m)) == json::members(*old(m)).union_prefer_right(
            fields_view(field_views(list@)),
        ),
{
    let len: usize = list.len();
    let mut rest = list;
    let ghost all = field_views(list@);
    let ghost base = json::members(*m);
    let mut i: usize = 0;
    proof {
        assert(base =~= base.union_prefer_right(fields_view(all.take(0))));
        assert(all.skip(0) =~= all);
    }
    while rest.len() > 0
        invariant
            i <= all.len(),
            field_views(rest@) == all.skip(i as int),
            rest@.len() == all.len() - i,
            all.len() == len,
            json::members(*m) == base.union_prefer_right(fields_view(all.take(i as int))),
        decreases rest@.len(),
    {
        let ghost before = rest@;
        let f = rest.remove(0);
        proof {
            assert(field_views(before)[0] == all[i as int]);
            assert(field_view(f) == all[i as int]);
            assert(all.take(i + 1).drop_last() =~= all.take(i as int));
            assert(field_views(rest@) =~= all.skip(i + 1)) by {
                assert forall|k: int| 0 <= k < rest@.len() implies field_views(rest@)[k] == all.skip(
                    i + 1,
                )[k] by {
                    assert(rest@[k] == before[k + 1]);
                    assert(field_views(before)[k + 1] == all.skip(i as int)[k + 1]);
                }
            }
        }
        if let Some(v) = f.value {
            json::insert_member(m, f.key, v);
        }
        proof {
            assert(json::members(*m) =~= base.union_prefer_right(fields_view(all.take(i + 1))));
        }
        i = i + 1;
    }
    proof {
        assert(all.take(i as int) =~= all);
    }
}

fn put_extras(
    m: &mut serde_json::Map<String, serde_json::Value>,
    extras: &serde_json::Map<String, serde_json::Value>,
)
    ensures
        json::members(*final(m)) == json::members(*old(m)).union_prefer_right(
            json::members(*extras),
        ),
{
    let keys = json::object_keys(extras);
    let ghost names = text::texts(keys@);
    let ghost base = json::members(*m);
    let ghost added = json::members(*extras);
    let mut i: usize = 0;
    while i < keys.len()
        invariant
            i <= keys@.len(),
            names == text::texts(keys@),
            added == json::members(*extras),
            forall|k: Seq<char>| #[trigger] names.contains(k) <==> added.contains_key(k),
            forall|k: Seq<char>|
                #[trigger] json::members(*m).contains_key(k) <==> base.contains_key(k)
                    || names.take(i as int).contains(k),
            forall|k: Seq<char>|
                #[trigger] json::members(*m).contains_key(k) ==> json::members(*m)[k] == (
                if names.take(i as int).contains(k) {
                    added[k]
                } else {
                    base[k]
                }),
        decreases keys@.len() - i,
    {
        let ghost key = names[i as int];
        let ghost before = json::members(*m);
        proof {
            assert(names.contains(key));
            let old_names = names.take(i as int);
            let new_names = names.take(i + 1);
            assert(new_names =~= old_names.push(key));
            assert forall|k: Seq<char>| new_names.contains(k) <==> (old_names.contains(k) || k
                == key) by {
                if old_names.contains(k) {
                    let j = choose|j: int| 0 <= j < old_names.len() && old_names[j] == k;
                    assert(new_names[j] == k);
                }
                if k == key {
                    assert(new_names[i as int] == k);
                }
                if new_names.contains(k) {
                    let j = choose|j: int| 0 <= j < new_names.len() && new_names[j] == k;
                    if j < i {
                        assert(old_names[j] == k);
                    }
                }
            }
        }
        match json::object_member(extras, keys[i].as_str()) {
            Some(v) => {
                json::insert_member(m, keys[i].as_str(), v);
            },
            None => {},
        }
        i = i + 1;
    }
    proof {
        assert(names.take(i as int) =~= names);
        assert(json::members(*m) =~= base.union_prefer_right(added));
    }
}

impl ConfigWire {
    /// The saved document of a configuration.
    pub fn from(c: &Config) -> (w: ConfigWire)
        ensures
            json::members(w.members) == document(*c),
    {
        let mut members = json::new_object();
        put_fields(&mut members, address_list(c));
        put_fields(&mut members, log_list(c));
        put_fields(&mut members, routing_list(c));
        put_fields(&mut members, tuning_list(c));
        proof {
            let a = address_fields(*c);
            let b = log_fields(*c);
            let d = routing_fields(*c);
            let e = tuning_fields(*c);
            lemma_fields_view_concat(a, b);
            lemma_fields_view_concat(a + b, d);
            lemma_fields_view_concat(a + b + d, e);
            assert(json::members(members) =~= fields_view(fields(*c)));
        }
        put_extras(&mut members, &c.extras);
        ConfigWire { members }
    }

    /// The document as one value.
    pub fn into_value(self) -> (v: serde_json::Value)
        ensures
            json::json_view(v) == JsonView::Object(json::members(self.members)),
    {
        json::object_value(self.members)
    }
}

/// The table of fields and the list of the configuration's own keys agree: each
/// field's key is on the list, and each key of the list except `script_ids`,
/// which is only ever read, has a field.
pub proof fn law_fields_are_modeled(c: Config)
    ensures
        forall|i: int|
            0 <= i < fields(c).len() ==> config::modeled_keys().contains((#[trigger] fields(c)[i]).0),
        forall|k: Seq<char>|
            #[trigger] config::modeled_keys().contains(k) && k != "script_ids"@ ==> exists|i: int|
                0 <= i < fields(c).len() && (#[trigger] fields(c)[i]).0 == k,
{
    let keys = config::modeled_keys();
    let at: Seq<int> = seq![
        0, 1, 2, 3, 5, 6, 7, 8, 14, 16, 20, 9, 10, 11, 12, 13, 17, 21, 22, 23, 24, 25, 26, 27, 28,
        29, 34, 35, 36, 31, 30, 37, 38, 39, 40, 41, 42, 33, 32, 15, 18, 19, 43, 44,
    ];
    let f = fields(c);
    assert(f.len() == 44);
    assert forall|i: int| 0 <= i < f.len() implies f[i].0 == keys[#[trigger] at[i]] && 0 <= at[i]
        < 45 by {}
    assert forall|i: int| 0 <= i < f.len() implies keys.contains((#[trigger] f[i]).0) by {
        assert(f[i].0 == keys[at[i]]);
    }
    let back: Seq<int> = seq![
        0, 1, 2, 3, 3, 4, 5, 6, 7, 11, 12, 13, 14, 15, 8, 39, 9, 16, 40, 41, 10, 17, 18, 19, 20, 21,
        22, 23, 24, 25, 30, 29, 38, 37, 26, 27, 28, 31, 32, 33, 34, 35, 36, 42, 43,
    ];
    assert forall|j: int| 0 <= j < 45 && j != 4 implies keys[j] == f[#[trigger] back[j]].0 && 0
        <= back[j] < 44 by {}
    assert forall|k: Seq<char>| #[trigger] keys.contains(k) && k != "script_ids"@ implies exists|
        i: int,
    |
        0 <= i < f.len() && (#[trigger] f[i]).0 == k by {
        let j = choose|j: int| 0 <= j < keys.len() && keys[j] == k;
        assert(f[back[j]].0 == k);
    }
}

/// Extras come through unchanged, and where none of them uses one of the
/// configuration's own keys, they change nothing else.
pub proof fn law_extras_survive(c: Config)
    ensures
        forall|k: Seq<char>|
            json::members(c.extras).contains_key(k) ==> #[trigger] document(c).contains_key(k)
                && document(c)[k] == json::members(c.extras)[k],
        forall|k: Seq<char>|
            !json::members(c.extras).contains_key(k) ==> (#[trigger] document(c).contains_key(k)
                <==> fields_view(fields(c)).contains_key(k)) && (document(c).contains_key(k)
                ==> document(c)[k] == fields_view(fields(c))[k]),
{
}

/// Where a member stands among the fields, told by its name.
spec fn place(k: Seq<char>) -> int {
    if k.len() == 4 {
        0
    } else if k.len() == 5 {
        8
    } else if k.len() == 8 {
        4
    } else if k.len() == 9 {
        if k[8] == 'p' {
            1
        } else if k[8] == 'd' {
            3
        } else if k[8] == 's' {
            10
        } else if k[8] == 'l' {
            11
        } else if k[8] == 'h' {
            28
        } else {
            42
        }
    } else if k.len() == 10 {
        if k[7] == 's' {
            15
        } else if k[7] == 'r' {
            24
        } else if k[7] == 'd' {
            26
        } else if k[7] == 't' {
            29
        } else {
            30
        }
    } else if k.len() == 11 {
        if k[0] == 'l' {
            if k[7] == 'h' {
                5
            } else {
                6
            }
        } else if k[0] == 's' {
            7
        } else if k[0] == 'f' {
            37
        } else {
            43
        }
    } else if k.len() == 12 {
        2
    } else if k.len() == 14 {
        if k[10] == 'i' {
            12
        } else if k[10] == 'w' {
            13
        } else {
            16
        }
    } else if k.len() == 15 {
        if k[0] == 'u' {
            9
        } else if k[0] == 'l' {
            14
        } else if k[0] == 'm' {
            18
        } else if k[0] == 's' {
            19
        } else if k[0] == 'f' {
            31
        } else if k[0] == 'd' {
            38
        } else if k[0] == 'e' {
            39
        } else {
            41
        }
    } else if k.len() == 16 {
        if k[0] == 'b' {
            27
        } else if k[0] == 'a' {
            36
        } else {
            40
        }
    } else if k.len() == 17 {
        if k[0] == 'y' {
            22
        } else {
            25
        }
    } else if k.len() == 18 {
        if k[0] == 'f' {
            17
        } else {
            23
        }
    } else if k.len() == 19 {
        21
    } else if k.len() == 20 {
        if k[0] == 'g' {
            20
        } else {
            35
        }
    } else if k.len() == 22 {
        32
    } else if k.len() == 26 {
        33
    } else {
        34
    }
}

proof fn lemma_address_places(c: Config)
    ensures
        forall|i: int|
            0 <= i < 11 ==> place((#[trigger] address_fields(c)[i]).0) == i + 0,
{
    reveal_strlit("mode");
    reveal_strlit("google_ip");
    reveal_strlit("front_domain");
    reveal_strlit("script_id");
    reveal_strlit("auth_key");
    reveal_strlit("listen_host");
    reveal_strlit("listen_port");
    reveal_strlit("socks5_port");
    reveal_strlit("hosts");
    reveal_strlit("upstream_socks5");
    reveal_strlit("sni_hosts");
    let f = address_fields(c);
    assert(f[0].0 == "mode"@ && place("mode"@) == 0);
    assert(f[1].0 == "google_ip"@ && place("google_ip"@) == 1);
    assert(f[2].0 == "front_domain"@ && place("front_domain"@) == 2);
    assert(f[3].0 == "script_id"@ && place("script_id"@) == 3);
    assert(f[4].0 == "auth_key"@ && place("auth_key"@) == 4);
    assert(f[5].0 == "listen_host"@ && place("listen_host"@) == 5);
    assert(f[6].0 == "listen_port"@ && place("listen_port"@) == 6);
    assert(f[7].0 == "socks5_port"@ && place("socks5_port"@) == 7);
    assert(f[8].0 == "hosts"@ && place("hosts"@) == 8);
    assert(f[9].0 == "upstream_socks5"@ && place("upstream_socks5"@) == 9);
    assert(f[10].0 == "sni_hosts"@ && place("sni_hosts"@) == 10);
}

proof fn lemma_log_places(c: Config)
    ensures
        forall|i: int|
            0 <= i < 10 ==> place((#[trigger] log_fields(c)[i]).0) == i + 11,
{
    reveal_strlit("log_level");
    reveal_strlit("log_color_info");
    reveal_strlit("log_color_warn");
    reveal_strlit("log_color_error");
    reveal_strlit("verify_ssl");
    reveal_strlit("parallel_relay");
    reveal_strlit("fetch_ips_from_api");
    reveal_strlit("max_ips_to_scan");
    reveal_strlit("scan_batch_size");
    reveal_strlit("google_ip_validation");
    let f = log_fields(c);
    assert(f[0].0 == "log_level"@ && place("log_level"@) == 11);
    assert(f[1].0 == "log_color_info"@ && place("log_color_info"@) == 12);
    assert(f[2].0 == "log_color_warn"@ && place("log_color_warn"@) == 13);
    assert(f[3].0 == "log_color_error"@ && place("log_color_error"@) == 14);
    assert(f[4].0 == "verify_ssl"@ && place("verify_ssl"@) == 15);
    assert(f[5].0 == "parallel_relay"@ && place("parallel_relay"@) == 16);
    assert(f[6].0 == "fetch_ips_from_api"@ && place("fetch_ips_from_api"@) == 17);
    assert(f[7].0 == "max_ips_to_scan"@ && place("max_ips_to_scan"@) == 18);
    assert(f[8].0 == "scan_batch_size"@ && place("scan_batch_size"@) == 19);
    assert(f[9].0 == "google_ip_validation"@ && place("google_ip_validation"@) == 20);
}

proof fn lemma_routing_places(c: Config)
    ensures
        forall|i: int|
            0 <= i < 11 ==> place((#[trigger] routing_fields(c)[i]).0) == i + 21,
{
    reveal_strlit("normalize_x_graphql");
    reveal_strlit("youtube_via_relay");
    reveal_strlit("relay_url_patterns");
    reveal_strlit("sabr_strip");
    reveal_strlit("passthrough_hosts");
    reveal_strlit("tunnel_doh");
    reveal_strlit("bypass_doh_hosts");
    reveal_strlit("block_doh");
    reveal_strlit("block_stun");
    reveal_strlit("block_quic");
    reveal_strlit("fronting_groups");
    let f = routing_fields(c);
    assert(f[0].0 == "normalize_x_graphql"@ && place("normalize_x_graphql"@) == 21);
    assert(f[1].0 == "youtube_via_relay"@ && place("youtube_via_relay"@) == 22);
    assert(f[2].0 == "relay_url_patterns"@ && place("relay_url_patterns"@) == 23);
    assert(f[3].0 == "sabr_strip"@ && place("sabr_strip"@) == 24);
    assert(f[4].0 == "passthrough_hosts"@ && place("passthrough_hosts"@) == 25);
    assert(f[5].0 == "tunnel_doh"@ && place("tunnel_doh"@) == 26);
    assert(f[6].0 == "bypass_doh_hosts"@ && place("bypass_doh_hosts"@) == 27);
    assert(f[7].0 == "block_doh"@ && place("block_doh"@) == 28);
    assert(f[8].0 == "block_stun"@ && place("block_stun"@) == 29);
    assert(f[9].0 == "block_quic"@ && place("block_quic"@) == 30);
    assert(f[10].0 == "fronting_groups"@ && place("fronting_groups"@) == 31);
}

proof fn lemma_tuning_places(c: Config)
    ensures
        forall|i: int|
            0 <= i < 12 ==> place((#[trigger] tuning_fields(c)[i]).0) == i + 32,
{
    reveal_strlit("auto_blacklist_strikes");
    reveal_strlit("auto_blacklist_window_secs");
    reveal_strlit("auto_blacklist_cooldown_secs");
    reveal_strlit("request_timeout_secs");
    reveal_strlit("apps_script_lang");
    reveal_strlit("force_http1");
    reveal_strlit("disable_padding");
    reveal_strlit("enable_batching");
    reveal_strlit("coalesce_step_ms");
    reveal_strlit("coalesce_max_ms");
    reveal_strlit("exit_node");
    reveal_strlit("direct_mode");
    let f = tuning_fields(c);
    assert(f[0].0 == "auto_blacklist_strikes"@ && place("auto_blacklist_strikes"@) == 32);
    assert(f[1].0 == "auto_blacklist_window_secs"@ && place("auto_blacklist_window_secs"@) == 33);
    assert(f[2].0 == "auto_blacklist_cooldown_secs"@);
    assert(place("auto_blacklist_cooldown_secs"@) == 34);
    assert(f[3].0 == "request_timeout_secs"@ && place("request_timeout_secs"@) == 35);
    assert(f[4].0 == "apps_script_lang"@ && place("apps_script_lang"@) == 36);
    assert(f[5].0 == "force_http1"@ && place("force_http1"@) == 37);
    assert(f[6].0 == "disable_padding"@ && place("disable_padding"@) == 38);
    assert(f[7].0 == "enable_batching"@ && place("enable_batching"@) == 39);
    assert(f[8].0 == "coalesce_step_ms"@ && place("coalesce_step_ms"@) == 40);
    assert(f[9].0 == "coalesce_max_ms"@ && place("coalesce_max_ms"@) == 41);
    assert(f[10].0 == "exit_node"@ && place("exit_node"@) == 42);
    assert(f[11].0 == "direct_mode"@ && place("direct_mode"@) == 43);
}

proof fn lemma_field_is_saved(f: Seq<(Seq<char>, Option<JsonView>)>, i: int)
    requires
        0 <= i < f.len(),
        forall|a: int| 0 <= a < f.len() ==> place((#[trigger] f[a]).0) == a,
    ensures
        match f[i].1 {
            Some(v) => fields_view(f).contains_key(f[i].0) && fields_view(f)[f[i].0] == v,
            None => !fields_view(f).contains_key(f[i].0),
        },
    decreases f.len(),
{
    let before = f.drop_last();
    assert forall|a: int| 0 <= a < before.len() implies place((#[trigger] before[a]).0) == a by {
        assert(before[a] == f[a]);
    }
    assert(place(f[f.len() - 1].0) == f.len() - 1);
    if i < f.len() - 1 {
        assert(before[i] == f[i]);
        assert(place(f[i].0) == i);
        lemma_field_is_saved(before, i);
    } else {
        lemma_unknown_field(before, f.last().0);
    }
}

proof fn lemma_unknown_field(f: Seq<(Seq<char>, Option<JsonView>)>, key: Seq<char>)
    requires
        forall|a: int| 0 <= a < f.len() ==> place((#[trigger] f[a]).0) == a,
        place(key) >= f.len(),
    ensures
        !fields_view(f).contains_key(key),
    decreases f.len(),
{
    if f.len() > 0 {
        let before = f.drop_last();
        assert forall|a: int| 0 <= a < before.len() implies place((#[trigger] before[a]).0) == a by {
            assert(before[a] == f[a]);
        }
        assert(place(f[f.len() - 1].0) == f.len() - 1);
        lemma_unknown_field(before, key);
    }
}

proof fn lemma_member_is_saved(c: Config, i: int)
    requires
        extras_are_apart(c),
        0 <= i < 44,
    ensures
        json::member(JsonView::Object(document(c)), fields(c)[i].0) == fields(c)[i].1,
{
    lemma_address_places(c);
    lemma_log_places(c);
    lemma_routing_places(c);
    lemma_tuning_places(c);
    let f = fields(c);
    assert forall|a: int| 0 <= a < f.len() implies place((#[trigger] f[a]).0) == a by {
        if a < 11 {
            assert(f[a] == address_fields(c)[a]);
        } else if a < 21 {
            assert(f[a] == log_fields(c)[a - 11]);
        } else if a < 32 {
            assert(f[a] == routing_fields(c)[a - 21]);
        } else {
            assert(f[a] == tuning_fields(c)[a - 32]);
        }
    }
    lemma_field_is_saved(f, i);
    law_fields_are_modeled(c);
    assert(config::modeled_keys().contains(f[i].0));
    law_extras_survive(c);
    assert(!json::members(c.extras).contains_key(f[i].0));
    assert(document(c).contains_key(f[i].0) <==> fields_view(f).contains_key(f[i].0));
}

proof fn lemma_address_member(c: Config, i: int)
    requires
        extras_are_apart(c),
        0 <= i < 11,
    ensures
        json::member(JsonView::Object(document(c)), address_fields(c)[i].0) == address_fields(c)[i].1,
{
    lemma_member_is_saved(c, i);
    assert(fields(c)[i] == address_fields(c)[i]);
}

proof fn lemma_log_member(c: Config, i: int)
    requires
        extras_are_apart(c),
        0 <= i < 10,
    ensures
        json::member(JsonView::Object(document(c)), log_fields(c)[i].0) == log_fields(c)[i].1,
{
    lemma_member_is_saved(c, i + 11);
    assert(fields(c)[i + 11] == log_fields(c)[i]);
}

proof fn lemma_routing_member(c: Config, i: int)
    requires
        extras_are_apart(c),
        0 <= i < 11,
    ensures
        json::member(JsonView::Object(document(c)), routing_fields(c)[i].0) == routing_fields(c)[i].1,
{
    lemma_member_is_saved(c, i + 21);
    assert(fields(c)[i + 21] == routing_fields(c)[i]);
}

proof fn lemma_tuning_member(c: Config, i: int)
    requires
        extras_are_apart(c),
        0 <= i < 12,
    ensures
        json::member(JsonView::Object(document(c)), tuning_fields(c)[i].0) == tuning_fields(c)[i].1,
{
    lemma_member_is_saved(c, i + 32);
    assert(fields(c)[i + 32] == tuning_fields(c)[i]);
}

/// No member without a field of its own bears the name of one that has.
pub open spec fn extras_are_apart(c: Config) -> bool {
    forall|k: Seq<char>|
        #[trigger] json::members(c.extras).contains_key(k) ==> !config::modeled_keys().contains(k)
}

/// The saved document, member by member: the mode, the addresses, the
/// deployment IDs, the key and the ports stand under their own names, and what
/// is not set is left out.
#[verifier::rlimit(30)]
pub proof fn law_saved_address_members(c: Config)
    requires
        extras_are_apart(c),
    ensures
        ({
            let doc = JsonView::Object(document(c));
            &&& json::member(doc, "mode"@) == Some(JsonView::Text(c.mode@))
            &&& json::member(doc, "google_ip"@) == Some(JsonView::Text(c.google_ip@))
            &&& json::member(doc, "front_domain"@) == Some(JsonView::Text(c.front_domain@))
            &&& c.script_id is None ==> json::member(doc, "script_id"@) is None
            &&& c.script_id matches Some(ScriptId::One(id))
                ==> json::member(doc, "script_id"@) == Some(JsonView::Text(id@))
            &&& c.script_id matches Some(ScriptId::Many(ids))
                ==> json::member(doc, "script_id"@) == Some(json::texts_array(text::texts(ids@)))
            &&& json::member(doc, "auth_key"@) == Some(JsonView::Text(c.auth_key@))
            &&& json::member(doc, "listen_host"@) == Some(JsonView::Text(c.listen_host@))
            &&& json::member(doc, "listen_port"@) == Some(
                JsonView::Number(numeral::decimal(c.listen_port as nat)),
            )
            &&& c.socks5_port is Some
                ==> json::member(doc, "socks5_port"@) == Some(
                JsonView::Number(numeral::decimal(c.socks5_port->0 as nat)),
            )
            &&& c.socks5_port is None ==> json::member(doc, "socks5_port"@) is None
            &&& c.hosts@.len() > 0
                ==> json::member(doc, "hosts"@) == Some(JsonView::Object(pairs_view(c.hosts@)))
            &&& c.hosts@.len() == 0 ==> json::member(doc, "hosts"@) is None
            &&& c.upstream_socks5 is Some
                ==> json::member(doc, "upstream_socks5"@) == Some(
                JsonView::Text(c.upstream_socks5->0@),
            )
            &&& c.upstream_socks5 is None ==> json::member(doc, "upstream_socks5"@) is None
            &&& c.sni_hosts is Some
                ==> json::member(doc, "sni_hosts"@) == Some(
                json::texts_array(text::texts(c.sni_hosts->0@)),
            )
            &&& c.sni_hosts is None ==> json::member(doc, "sni_hosts"@) is None
        }),
{
    lemma_address_member(c, 0);
    lemma_address_member(c, 1);
    lemma_address_member(c, 2);
    lemma_address_member(c, 3);
    lemma_address_member(c, 4);
    lemma_address_member(c, 5);
    lemma_address_member(c, 6);
    lemma_address_member(c, 7);
    lemma_address_member(c, 8);
    lemma_address_member(c, 9);
    lemma_address_member(c, 10);
}

/// The saved document, member by member: the logging and scanning settings
/// stand under their own names; a color that is blank or the built-in one, a
/// count of 0 and a flag that is off are left out.
#[verifier::rlimit(30)]
pub proof fn law_saved_log_members(c: Config)
    requires
        extras_are_apart(c),
    ensures
        ({
            let doc = JsonView::Object(document(c));
            &&& json::member(doc, "log_level"@) == Some(JsonView::Text(c.log_level@))
            &&& c.log_color_info@.len() == 0 || text::lower(c.log_color_info@) == "#5ab464"@
                ==> json::member(doc, "log_color_info"@) is None
            &&& c.log_color_info@.len() > 0 && text::lower(c.log_color_info@) != "#5ab464"@
                ==> json::member(doc, "log_color_info"@) == Some(JsonView::Text(c.log_color_info@))
            &&& c.log_color_warn@.len() == 0 || text::lower(c.log_color_warn@) == "#e0a83a"@
                ==> json::member(doc, "log_color_warn"@) is None
            &&& c.log_color_warn@.len() > 0 && text::lower(c.log_color_warn@) != "#e0a83a"@
                ==> json::member(doc, "log_color_warn"@) == Some(JsonView::Text(c.log_color_warn@))
            &&& c.log_color_error@.len() == 0 || text::lower(c.log_color_error@) == "#dc6e6e"@
                ==> json::member(doc, "log_color_error"@) is None
            &&& c.log_color_error@.len() > 0 && text::lower(c.log_color_error@) != "#dc6e6e"@
                ==> json::member(doc, "log_color_error"@) == Some(
                JsonView::Text(c.log_color_error@),
            )
            &&& json::member(doc, "verify_ssl"@) == Some(JsonView::Bool(c.verify_ssl))
            &&& c.parallel_relay > 0
                ==> json::member(doc, "parallel_relay"@) == Some(
                JsonView::Number(numeral::decimal(c.parallel_relay as nat)),
            )
            &&& c.parallel_relay == 0 ==> json::member(doc, "parallel_relay"@) is None
            &&& c.fetch_ips_from_api
                ==> json::member(doc, "fetch_ips_from_api"@) == Some(JsonView::Bool(true))
            &&& !c.fetch_ips_from_api ==> json::member(doc, "fetch_ips_from_api"@) is None
            &&& json::member(doc, "max_ips_to_scan"@) == Some(
                JsonView::Number(numeral::decimal(c.max_ips_to_scan as nat)),
            )
            &&& json::member(doc, "scan_batch_size"@) == Some(
                JsonView::Number(numeral::decimal(c.scan_batch_size as nat)),
            )
            &&& json::member(doc, "google_ip_validation"@) == Some(
                JsonView::Bool(c.google_ip_validation),
            )
        }),
{
    assert(text::lower("#5ab464"@) == "#5ab464"@) by {
        reveal_strlit("#5ab464");
    }
    assert(text::lower("#e0a83a"@) == "#e0a83a"@) by {
        reveal_strlit("#e0a83a");
    }
    assert(text::lower("#dc6e6e"@) == "#dc6e6e"@) by {
        reveal_strlit("#dc6e6e");
    }
    lemma_log_member(c, 0);
    lemma_log_member(c, 1);
    lemma_log_member(c, 2);
    lemma_log_member(c, 3);
    lemma_log_member(c, 4);
    lemma_log_member(c, 5);
    lemma_log_member(c, 6);
    lemma_log_member(c, 7);
    lemma_log_member(c, 8);
    lemma_log_member(c, 9);
}

/// The saved document, member by member: the routing settings stand under their
/// own names. A flag is left out while it has its usual value, which is on for
/// the two blocks of DoH and QUIC and off for the others; an empty list is left
/// out.
#[verifier::rlimit(30)]
pub proof fn law_saved_routing_members(c: Config)
    requires
        extras_are_apart(c),
    ensures
        ({
            let doc = JsonView::Object(document(c));
            &&& c.normalize_x_graphql
                ==> json::member(doc, "normalize_x_graphql"@) == Some(JsonView::Bool(true))
            &&& !c.normalize_x_graphql ==> json::member(doc, "normalize_x_graphql"@) is None
            &&& c.youtube_via_relay
                ==> json::member(doc, "youtube_via_relay"@) == Some(JsonView::Bool(true))
            &&& !c.youtube_via_relay ==> json::member(doc, "youtube_via_relay"@) is None
            &&& c.sabr_strip ==> json::member(doc, "sabr_strip"@) == Some(JsonView::Bool(true))
            &&& !c.sabr_strip ==> json::member(doc, "sabr_strip"@) is None
            &&& c.tunnel_doh ==> json::member(doc, "tunnel_doh"@) == Some(JsonView::Bool(true))
            &&& !c.tunnel_doh ==> json::member(doc, "tunnel_doh"@) is None
            &&& c.block_stun ==> json::member(doc, "block_stun"@) == Some(JsonView::Bool(true))
            &&& !c.block_stun ==> json::member(doc, "block_stun"@) is None
            &&& !c.block_doh ==> json::member(doc, "block_doh"@) == Some(JsonView::Bool(false))
            &&& c.block_doh ==> json::member(doc, "block_doh"@) is None
            &&& !c.block_quic ==> json::member(doc, "block_quic"@) == Some(JsonView::Bool(false))
            &&& c.block_quic ==> json::member(doc, "block_quic"@) is None
            &&& c.relay_url_patterns@.len() > 0
                ==> json::member(doc, "relay_url_patterns"@) == Some(
                json::texts_array(text::texts(c.relay_url_patterns@)),
            )
            &&& c.relay_url_patterns@.len() == 0
                ==> json::member(doc, "relay_url_patterns"@) is None
            &&& c.passthrough_hosts@.len() > 0
                ==> json::member(doc, "passthrough_hosts"@) == Some(
                json::texts_array(text::texts(c.passthrough_hosts@)),
            )
            &&& c.passthrough_hosts@.len() == 0
                ==> json::member(doc, "passthrough_hosts"@) is None
            &&& c.bypass_doh_hosts@.len() > 0
                ==> json::member(doc, "bypass_doh_hosts"@) == Some(
                json::texts_array(text::texts(c.bypass_doh_hosts@)),
            )
            &&& c.bypass_doh_hosts@.len() == 0 ==> json::member(doc, "bypass_doh_hosts"@) is None
            &&& c.fronting_groups@.len() > 0
                ==> json::member(doc, "fronting_groups"@) == Some(groups_view(c.fronting_groups@))
            &&& c.fronting_groups@.len() == 0 ==> json::member(doc, "fronting_groups"@) is None
        }),
{
    lemma_routing_member(c, 0);
    lemma_routing_member(c, 1);
    lemma_routing_member(c, 2);
    lemma_routing_member(c, 3);
    lemma_routing_member(c, 4);
    lemma_routing_member(c, 5);
    lemma_routing_member(c, 6);
    lemma_routing_member(c, 7);
    lemma_routing_member(c, 8);
    lemma_routing_member(c, 9);
    lemma_routing_member(c, 10);
}

/// The saved document, member by member: the limits and delays stand under their
/// own names, and are left out while they have their usual values.
#[verifier::rlimit(30)]
pub proof fn law_saved_limit_members(c: Config)
    requires
        extras_are_apart(c),
    ensures
        ({
            let doc = JsonView::Object(document(c));
            &&& c.auto_blacklist_strikes != 3
                ==> json::member(doc, "auto_blacklist_strikes"@) == Some(
                JsonView::Number(numeral::decimal(c.auto_blacklist_strikes as nat)),
            )
            &&& c.auto_blacklist_strikes == 3
                ==> json::member(doc, "auto_blacklist_strikes"@) is None
            &&& c.auto_blacklist_window_secs != 30
                ==> json::member(doc, "auto_blacklist_window_secs"@) == Some(
                JsonView::Number(numeral::decimal(c.auto_blacklist_window_secs as nat)),
            )
            &&& c.auto_blacklist_window_secs == 30
                ==> json::member(doc, "auto_blacklist_window_secs"@) is None
            &&& c.auto_blacklist_cooldown_secs != 120
                ==> json::member(doc, "auto_blacklist_cooldown_secs"@) == Some(
                JsonView::Number(numeral::decimal(c.auto_blacklist_cooldown_secs as nat)),
            )
            &&& c.auto_blacklist_cooldown_secs == 120
                ==> json::member(doc, "auto_blacklist_cooldown_secs"@) is None
            &&& c.request_timeout_secs != 30 ==> json::member(doc, "request_timeout_secs"@) == Some(
                JsonView::Number(numeral::decimal(c.request_timeout_secs as nat)),
            )
            &&& c.request_timeout_secs == 30 ==> json::member(doc, "request_timeout_secs"@) is None
            &&& c.coalesce_step_ms != 0 ==> json::member(doc, "coalesce_step_ms"@) == Some(
                JsonView::Number(numeral::decimal(c.coalesce_step_ms as nat)),
            )
            &&& c.coalesce_step_ms == 0 ==> json::member(doc, "coalesce_step_ms"@) is None
            &&& c.coalesce_max_ms != 0 ==> json::member(doc, "coalesce_max_ms"@) == Some(
                JsonView::Number(numeral::decimal(c.coalesce_max_ms as nat)),
            )
            &&& c.coalesce_max_ms == 0 ==> json::member(doc, "coalesce_max_ms"@) is None
        }),
{
    lemma_tuning_member(c, 0);
    lemma_tuning_member(c, 1);
    lemma_tuning_member(c, 2);
    lemma_tuning_member(c, 3);
    lemma_tuning_member(c, 8);
    lemma_tuning_member(c, 9);
}

/// The saved document, member by member: the transport flags stand under their
/// own names while they are on, and the language of the script while it is
/// neither blank nor English.
#[verifier::rlimit(30)]
pub proof fn law_saved_transport_members(c: Config)
    requires
        extras_are_apart(c),
    ensures
        ({
            let doc = JsonView::Object(document(c));
            &&& c.force_http1 ==> json::member(doc, "force_http1"@) == Some(JsonView::Bool(true))
            &&& !c.force_http1 ==> json::member(doc, "force_http1"@) is None
            &&& c.disable_padding
                ==> json::member(doc, "disable_padding"@) == Some(JsonView::Bool(true))
            &&& !c.disable_padding ==> json::member(doc, "disable_padding"@) is None
            &&& c.enable_batching
                ==> json::member(doc, "enable_batching"@) == Some(JsonView::Bool(true))
            &&& !c.enable_batching ==> json::member(doc, "enable_batching"@) is None
            &&& c.apps_script_lang@.len() == 0 || text::lower(c.apps_script_lang@) == "en"@
                ==> json::member(doc, "apps_script_lang"@) is None
            &&& c.apps_script_lang@.len() > 0 && text::lower(c.apps_script_lang@) != "en"@
                ==> json::member(doc, "apps_script_lang"@) == Some(
                JsonView::Text(c.apps_script_lang@),
            )
        }),
{
    assert(text::lower("en"@) == "en"@) by {
        reveal_strlit("en");
    }
    lemma_tuning_member(c, 4);
    lemma_tuning_member(c, 5);
    lemma_tuning_member(c, 6);
    lemma_tuning_member(c, 7);
}

/// The saved document, member by member: the exit node and the direct mode stand
/// under their own names unless they are as built in.
#[verifier::rlimit(30)]
pub proof fn law_saved_node_members(c: Config)
    requires
        extras_are_apart(c),
    ensures
        ({
            let doc = JsonView::Object(document(c));
            &&& config::default_exit_node(c.exit_node) ==> json::member(doc, "exit_node"@) is None
            &&& !config::default_exit_node(c.exit_node) ==> json::member(doc, "exit_node"@) == Some(
                exit_node_view(c.exit_node),
            )
            &&& config::default_direct_mode(c.direct_mode) ==> json::member(
                doc,
                "direct_mode"@,
            ) is None
            &&& !config::default_direct_mode(c.direct_mode) ==> json::member(doc, "direct_mode"@)
                == Some(direct_mode_view(c.direct_mode))
        }),
{
    lemma_tuning_member(c, 10);
    lemma_tuning_member(c, 11);
}

/// A fronting group, the exit node and the direct mode are saved as objects
/// whose members stand under their own names.
pub proof fn law_saved_objects(g: FrontingGroup, en: ExitNodeConfig, d: DirectModeConfig)
    ensures
        ({
            let v = group_view(g);
            &&& json::member(v, "name"@) == Some(JsonView::Text(g.name@))
            &&& json::member(v, "ip"@) == Some(JsonView::Text(g.ip@))
            &&& json::member(v, "sni"@) == Some(JsonView::Text(g.sni@))
            &&& json::member(v, "domains"@) == Some(json::texts_array(text::texts(g.domains@)))
        }),
        ({
            let v = exit_node_view(en);
            &&& json::member(v, "enabled"@) == Some(JsonView::Bool(en.enabled))
            &&& json::member(v, "relay_url"@) == Some(JsonView::Text(en.relay_url@))
            &&& json::member(v, "psk"@) == Some(JsonView::Text(en.psk@))
            &&& json::member(v, "hosts"@) == Some(json::texts_array(text::texts(en.hosts@)))
            &&& json::member(v, "mode"@) == Some(JsonView::Text(en.mode@))
        }),
        ({
            let v = direct_mode_view(d);
            &&& json::member(v, "enabled"@) == Some(JsonView::Bool(d.enabled))
            &&& json::member(v, "fronts"@) == Some(json::texts_array(text::texts(d.fronts@)))
            &&& json::member(v, "google_domains"@) == Some(
                json::texts_array(text::texts(d.google_domains@)),
            )
            &&& json::member(v, "sanctioned_domains"@) == Some(
                json::texts_array(text::texts(d.sanctioned_domains@)),
            )
        }),
{
    reveal_strlit("name");
    reveal_strlit("ip");
    reveal_strlit("sni");
    reveal_strlit("domains");
    reveal_strlit("enabled");
    reveal_strlit("relay_url");
    reveal_strlit("psk");
    reveal_strlit("hosts");
    reveal_strlit("mode");
    reveal_strlit("fronts");
    reveal_strlit("google_domains");
    reveal_strlit("sanctioned_domains");
    assert("name"@.len() == 4 && "ip"@.len() == 2 && "sni"@.len() == 3 && "domains"@.len() == 7);
    assert("enabled"@.len() == 7 && "relay_url"@.len() == 9 && "psk"@.len() == 3 && "hosts"@.len()
        == 5 && "mode"@.len() == 4);
    assert("fronts"@.len() == 6 && "google_domains"@.len() == 14 && "sanctioned_domains"@.len()
        == 18);
}

/// Each host that is mapped to an address is saved with that address.
pub proof fn law_saved_hosts(pairs: Seq<(String, String)>, i: int)
    requires
        0 <= i < pairs.len(),
        forall|j: int| i < j < pairs.len() ==> (#[trigger] pairs[j]).0@ != pairs[i].0@,
    ensures
        pairs_view(pairs).contains_key(pairs[i].0@),
        pairs_view(pairs)[pairs[i].0@] == JsonView::Text(pairs[i].1@),
    decreases pairs.len(),
{
    if i < pairs.len() - 1 {
        let before = pairs.drop_last();
        assert(pairs[pairs.len() - 1].0@ != pairs[i].0@);
        assert forall|j: int| i < j < before.len() implies (#[trigger] before[j]).0@
            != before[i].0@ by {
            assert(before[j] == pairs[j]);
        }
        law_saved_hosts(before, i);
    }
}

} // verus!
