//! The requests of the desktop front end: what each answers, and what it makes
//! of the saved document.
//!
//! A document is edited as a JSON value, so that the members which a request
//! does not control stay as they are.
use std::collections::VecDeque;

use vstd::prelude::*;

use crate::config;
use crate::config::{Config, FrontingGroup, ScriptId};
use crate::form;
use crate::fronting;
use crate::json;
use crate::json::JsonView;
use crate::numeral;
use crate::sni;
use crate::sni::SniHostDto;
use crate::text;
use crate::wire;

verus! {

/// How many relay calls a free account has each day.
pub const FREE_QUOTA_PER_DAY: u64 = 20_000;

/// What the status tab shows.
pub struct StatusDto {
    pub running: bool,
    pub uptime_secs: Option<u64>,
    pub last_error: Option<String>,
}

/// The day's usage.
pub struct UsageDto {
    pub today_calls: u64,
    pub today_bytes: u64,
    pub today_key: String,
    pub today_reset_secs: u64,
    pub free_quota_per_day: u64,
}

/// The configuration as the front end's form shows it.
pub struct ConfigDto {
    pub mode: String,
    pub listen_host: String,
    pub listen_port: u16,
    pub socks5_port: Option<u16>,
    pub script_ids: Vec<String>,
    pub auth_key: String,
    pub front_domain: String,
    pub google_ip: String,
    pub log_level: String,
}

/// What the form sends back.
pub struct ConfigUpdate {
    pub mode: String,
    pub listen_host: String,
    pub listen_port: u16,
    pub socks5_port: Option<u16>,
    pub script_ids: Vec<String>,
    pub auth_key: String,
    pub front_domain: String,
    pub google_ip: String,
    pub log_level: String,
}

/// The verdict of a diagnostic.
pub struct TestResult {
    pub pass: bool,
}

/// What the discovery of an edge address found.
pub struct DiscoverResultDto {
    pub hostname: String,
    pub best_ip: Option<String>,
    pub reachable_count: usize,
}

/// The verdict of a probe.
pub struct SniProbeResult {
    pub host: String,
    pub reachable: bool,
}

/// The state of the local certificate authority.
pub struct CaStatusDto {
    pub exists: bool,
    pub trusted: bool,
    pub path: String,
    pub fingerprint: Option<String>,
    pub subject_cn: Option<String>,
}

/// A failure, told as what was being done, with what, and why it failed.
pub open spec fn failure_text(what: Seq<char>, why: Seq<char>) -> Seq<char> {
    what + ": "@ + why
}

/// The failure to read the saved document.
pub open spec fn parse_failure(path: Seq<char>, why: Seq<char>) -> Seq<char> {
    failure_text("parse "@ + path, why)
}

/// Tells a failure.
pub fn failure(what: &str, why: &str) -> (r: String)
    ensures
        r@ == failure_text(what@, why@),
{
    what.to_owned().concat(": ").concat(why)
}

/// Tells a failure that concerns a file.
pub fn file_failure(verb: &str, path: &str, why: &str) -> (r: String)
    ensures
        r@ == failure_text(verb@ + " "@ + path@, why@),
{
    let what = verb.to_owned().concat(" ").concat(path);
    failure(what.as_str(), why)
}

/// Reads a saved document.
pub fn read_document(bytes: &Vec<u8>, path: &str) -> (r: Result<serde_json::Value, String>)
    ensures
        match json::bytes_document(bytes@) {
            Ok(v) => r matches Ok(d) && json::json_view(d) == v,
            Err(e) => r matches Err(m) && m@ == parse_failure(path@, e),
        },
{
    match json::parse_bytes(bytes.as_slice()) {
        Ok(v) => Ok(v),
        Err(e) => {
            let what = "parse ".to_owned().concat(path);
            Err(failure(what.as_str(), e.as_str()))
        },
    }
}

/// An edit of a document: what a key is to hold, or that it is to go.
pub open spec fn edited(
    base: Map<Seq<char>, JsonView>,
    edits: Seq<(Seq<char>, Option<JsonView>)>,
) -> Map<Seq<char>, JsonView>
    decreases edits.len(),
{
    if edits.len() == 0 {
        base
    } else {
        let before = edited(base, edits.drop_last());
        match edits.last().1 {
            Some(v) => before.insert(edits.last().0, v),
            None => before.remove(edits.last().0),
        }
    }
}

/// The edits touch `key`.
pub open spec fn touches(edits: Seq<(Seq<char>, Option<JsonView>)>, key: Seq<char>) -> bool {
    exists|i: int| 0 <= i < edits.len() && (#[trigger] edits[i]).0 == key
}

fn put(
    m: &mut serde_json::Map<String, serde_json::Value>,
    key: &str,
    v: Option<serde_json::Value>,
)
    ensures
        json::members(*final(m)) == (match v {
            Some(w) => json::members(*old(m)).insert(key@, json::json_view(w)),
            None => json::members(*old(m)).remove(key@),
        }),
{
    match v {
        Some(w) => json::insert_member(m, key, w),
        None => json::remove_member(m, key),
    }
}

proof fn lemma_edited_push(
    base: Map<Seq<char>, JsonView>,
    edits: Seq<(Seq<char>, Option<JsonView>)>,
    e: (Seq<char>, Option<JsonView>),
)
    ensures
        edited(base, edits.push(e)) == (match e.1 {
            Some(v) => edited(base, edits).insert(e.0, v),
            None => edited(base, edits).remove(e.0),
        }),
{
    assert(edits.push(e).drop_last() =~= edits);
}

/// The members of a document before anything has been saved.
pub open spec fn base_edits() -> Seq<(Seq<char>, Option<JsonView>)> {
    seq![
        ("mode"@, Some(JsonView::Text("apps_script"@))),
        ("google_ip"@, Some(JsonView::Text("216.239.38.120"@))),
        ("front_domain"@, Some(JsonView::Text("www.google.com"@))),
        ("auth_key"@, Some(JsonView::Text(""@))),
        ("listen_host"@, Some(JsonView::Text("127.0.0.1"@))),
        ("listen_port"@, Some(json::number(8085))),
        ("socks5_port"@, Some(json::number(8086))),
        ("log_level"@, Some(JsonView::Text("info,hyper=warn"@))),
    ]
}

/// The members of a document before anything has been saved.
pub open spec fn base_members() -> Map<Seq<char>, JsonView> {
    edited(json::no_members(), base_edits())
}

/// The smallest complete document: what there is before anything has been
/// saved.
pub fn default_config_base() -> (v: serde_json::Value)
    ensures
        json::json_view(v) == JsonView::Object(base_members()),
{
    let mut m = json::new_object();
    put(&mut m, "mode", Some(json::text_value("apps_script")));
    put(&mut m, "google_ip", Some(json::text_value("216.239.38.120")));
    put(&mut m, "front_domain", Some(json::text_value("www.google.com")));
    put(&mut m, "auth_key", Some(json::text_value("")));
    put(&mut m, "listen_host", Some(json::text_value("127.0.0.1")));
    put(&mut m, "listen_port", Some(json::number_value(8085)));
    put(&mut m, "socks5_port", Some(json::number_value(8086)));
    put(&mut m, "log_level", Some(json::text_value("info,hyper=warn")));
    proof {
        let e = base_edits();
        let b = json::no_members();
        assert(e.take(8) =~= e);
        assert(edited(b, e.take(0)) == b);
        lemma_edited_take(b, e, 0);
        lemma_edited_take(b, e, 1);
        lemma_edited_take(b, e, 2);
        lemma_edited_take(b, e, 3);
        lemma_edited_take(b, e, 4);
        lemma_edited_take(b, e, 5);
        lemma_edited_take(b, e, 6);
        lemma_edited_take(b, e, 7);
    }
    json::object_value(m)
}

proof fn lemma_edited_take(
    base: Map<Seq<char>, JsonView>,
    edits: Seq<(Seq<char>, Option<JsonView>)>,
    i: int,
)
    requires
        0 <= i < edits.len(),
    ensures
        edited(base, edits.take(i + 1)) == (match edits[i].1 {
            Some(v) => edited(base, edits.take(i)).insert(edits[i].0, v),
            None => edited(base, edits.take(i)).remove(edits[i].0),
        }),
{
    assert(edits.take(i + 1) =~= edits.take(i).push(edits[i]));
    lemma_edited_push(base, edits.take(i), edits[i]);
}

/// The document that a request starts from: the saved one, or the smallest
/// complete one where nothing has been saved.
pub open spec fn base_document(saved: Option<&Vec<u8>>, path: Seq<char>) -> Result<
    JsonView,
    Seq<char>,
> {
    match saved {
        None => Ok(JsonView::Object(base_members())),
        Some(bytes) => match json::bytes_document(bytes@) {
            Ok(v) => Ok(v),
            Err(e) => Err(parse_failure(path, e)),
        },
    }
}

/// Gives the document that a request starts from.
pub fn read_or_default_config_json(saved: Option<&Vec<u8>>, path: &str) -> (r: Result<
    serde_json::Value,
    String,
>)
    ensures
        match base_document(saved, path@) {
            Ok(v) => r matches Ok(d) && json::json_view(d) == v,
            Err(e) => r matches Err(m) && m@ == e,
        },
{
    match saved {
        None => Ok(default_config_base()),
        Some(bytes) => read_document(bytes, path),
    }
}

/// The members that a request starts from; only an object can be edited.
pub open spec fn base_object(saved: Option<&Vec<u8>>, path: Seq<char>) -> Result<
    Map<Seq<char>, JsonView>,
    Seq<char>,
> {
    match base_document(saved, path) {
        Ok(JsonView::Object(m)) => Ok(m),
        Ok(_) => Err("config.json is not a JSON object"@),
        Err(e) => Err(e),
    }
}

fn editable_document(saved: Option<&Vec<u8>>, path: &str) -> (r: Result<
    serde_json::Map<String, serde_json::Value>,
    String,
>)
    ensures
        match base_object(saved, path@) {
            Ok(m) => r matches Ok(d) && json::members(d) == m,
            Err(e) => r matches Err(m) && m@ == e,
        },
{
    match read_or_default_config_json(saved, path) {
        Ok(v) => match json::into_object(v) {
            Some(m) => Ok(m),
            None => Err("config.json is not a JSON object".to_owned()),
        },
        Err(e) => Err(e),
    }
}

/// The deployment IDs of an update, trimmed, blank ones dropped.
pub open spec fn update_ids(u: ConfigUpdate) -> Seq<Seq<char>> {
    text::cleaned(text::texts(u.script_ids@))
}

/// How IDs are saved: one as a string, several as a list, none not at all.
pub open spec fn ids_member(ids: Seq<Seq<char>>) -> Option<JsonView> {
    if ids.len() == 0 {
        None
    } else if ids.len() == 1 {
        Some(JsonView::Text(ids[0]))
    } else {
        Some(json::texts_array(ids))
    }
}

/// The edits that an update makes.
pub open spec fn update_edits(u: ConfigUpdate) -> Seq<(Seq<char>, Option<JsonView>)> {
    seq![
        ("mode"@, Some(JsonView::Text(u.mode@))),
        ("listen_host"@, Some(JsonView::Text(u.listen_host@))),
        ("listen_port"@, Some(json::number(u.listen_port as nat))),
        (
            "socks5_port"@,
            match u.socks5_port {
                Some(p) => Some(json::number(p as nat)),
                None => None,
            },
        ),
        ("auth_key"@, Some(JsonView::Text(u.auth_key@))),
        ("front_domain"@, Some(JsonView::Text(u.front_domain@))),
        ("google_ip"@, Some(JsonView::Text(u.google_ip@))),
        ("log_level"@, Some(JsonView::Text(u.log_level@))),
        ("script_ids"@, None),
        ("script_id"@, ids_member(update_ids(u))),
    ]
}

/// Why an update is refused. `relay` tells whether its mode uses the relay, or
/// why there is no such mode.
pub open spec fn update_complaint(u: ConfigUpdate, relay: Result<bool, String>) -> Option<Seq<char>> {
    match relay {
        Err(e) => Some(e@),
        Ok(uses_relay) => if uses_relay && update_ids(u).len() == 0 {
            Some("At least one deployment ID is required"@)
        } else if uses_relay && text::trimmed(u.auth_key@).len() == 0 {
            Some("Auth key is required"@)
        } else if u.socks5_port == Some(u.listen_port) {
            Some("HTTP and SOCKS5 ports must differ"@)
        } else {
            None
        },
    }
}

/// `d` shows the update, with its IDs cleaned.
pub open spec fn shows_update(d: ConfigDto, u: ConfigUpdate) -> bool {
    &&& d.mode == u.mode
    &&& d.listen_host == u.listen_host
    &&& d.listen_port == u.listen_port
    &&& d.socks5_port == u.socks5_port
    &&& text::texts(d.script_ids@) == update_ids(u)
    &&& d.auth_key == u.auth_key
    &&& d.front_domain == u.front_domain
    &&& d.google_ip == u.google_ip
    &&& d.log_level == u.log_level
}

fn ids_value(ids: &Vec<String>) -> (r: Option<serde_json::Value>)
    ensures
        match r {
            Some(v) => ids_member(text::texts(ids@)) == Some(json::json_view(v)),
            None => ids_member(text::texts(ids@)) is None,
        },
{
    proof {
        assert(text::texts(ids@).len() == ids@.len());
    }
    if ids.len() == 0 {
        None
    } else if ids.len() == 1 {
        Some(json::text_value(ids[0].as_str()))
    } else {
        Some(json::texts_value(ids))
    }
}

fn apply_update(
    m: &mut serde_json::Map<String, serde_json::Value>,
    u: &ConfigUpdate,
    ids: &Vec<String>,
)
    requires
        text::texts(ids@) == update_ids(*u),
    ensures
        json::members(*final(m)) == edited(json::members(*old(m)), update_edits(*u)),
{
    let ghost b = json::members(*m);
    put(m, "mode", Some(json::text_value(u.mode.as_str())));
    put(m, "listen_host", Some(json::text_value(u.listen_host.as_str())));
    put(m, "listen_port", Some(json::number_value(u.listen_port as u64)));
    let socks5 = match u.socks5_port {
        Some(p) => Some(json::number_value(p as u64)),
        None => None,
    };
    put(m, "socks5_port", socks5);
    put(m, "auth_key", Some(json::text_value(u.auth_key.as_str())));
    put(m, "front_domain", Some(json::text_value(u.front_domain.as_str())));
    put(m, "google_ip", Some(json::text_value(u.google_ip.as_str())));
    put(m, "log_level", Some(json::text_value(u.log_level.as_str())));
    put(m, "script_ids", None);
    put(m, "script_id", ids_value(ids));
    proof {
        let e = update_edits(*u);
        assert(e.take(10) =~= e);
        assert(edited(b, e.take(0)) == b);
        lemma_edited_take(b, e, 0);
        lemma_edited_take(b, e, 1);
        lemma_edited_take(b, e, 2);
        lemma_edited_take(b, e, 3);
        lemma_edited_take(b, e, 4);
        lemma_edited_take(b, e, 5);
        lemma_edited_take(b, e, 6);
        lemma_edited_take(b, e, 7);
        lemma_edited_take(b, e, 8);
        lemma_edited_take(b, e, 9);
    }
}

/// Checks an update and edits the saved document by it. Gives the configuration
/// to show and the document to save.
pub fn save_config(
    update: ConfigUpdate,
    relay: Result<bool, String>,
    saved: Option<&Vec<u8>>,
    path: &str,
) -> (r: Result<(ConfigDto, serde_json::Value), String>)
    ensures
        match update_complaint(update, relay) {
            Some(e) => r matches Err(m) && m@ == e,
            None => match base_object(saved, path@) {
                Err(e) => r matches Err(m) && m@ == e,
                Ok(base) => r matches Ok(out) && shows_update(out.0, update) && json::json_view(out.1)
                    == JsonView::Object(edited(base, update_edits(update))),
            },
        },
{
    let uses_relay = match relay {
        Ok(uses_relay) => uses_relay,
        Err(e) => return Err(e),
    };
    let ids = text::clean(&update.script_ids);
    proof {
        assert(text::texts(ids@).len() == ids@.len());
    }
    if uses_relay {
        if ids.len() == 0 {
            return Err("At least one deployment ID is required".to_owned());
        }
        if text::trim(update.auth_key.as_str()).as_str().is_empty() {
            return Err("Auth key is required".to_owned());
        }
    }
    if let Some(p) = update.socks5_port {
        if p == update.listen_port {
            return Err("HTTP and SOCKS5 ports must differ".to_owned());
        }
    }
    let mut m = match editable_document(saved, path) {
        Ok(m) => m,
        Err(e) => return Err(e),
    };
    apply_update(&mut m, &update, &ids);
    let shown = ConfigDto {
        mode: update.mode,
        listen_host: update.listen_host,
        listen_port: update.listen_port,
        socks5_port: update.socks5_port,
        script_ids: ids,
        auth_key: update.auth_key,
        front_domain: update.front_domain,
        google_ip: update.google_ip,
        log_level: update.log_level,
    };
    Ok((shown, json::object_value(m)))
}

/// `d` shows the saved configuration.
pub open spec fn shows_config(d: ConfigDto, c: Config) -> bool {
    &&& d.mode@ == c.mode@
    &&& d.listen_host@ == c.listen_host@
    &&& d.listen_port == c.listen_port
    &&& d.socks5_port == c.socks5_port
    &&& text::texts(d.script_ids@) == form::loaded_ids(c)
    &&& d.auth_key@ == c.auth_key@
    &&& d.front_domain@ == c.front_domain@
    &&& d.google_ip@ == c.google_ip@
    &&& d.log_level@ == c.log_level@
}

/// `d` shows what there is before anything has been saved.
pub open spec fn shows_fresh_install(d: ConfigDto) -> bool {
    &&& d.mode@ == "apps_script"@
    &&& d.listen_host@ == "127.0.0.1"@
    &&& d.listen_port == 8085
    &&& d.socks5_port == Some(8086u16)
    &&& d.script_ids@.len() == 0
    &&& d.auth_key@.len() == 0
    &&& d.front_domain@ == "www.google.com"@
    &&& d.google_ip@ == "216.239.38.120"@
    &&& d.log_level@ == "info,hyper=warn"@
}

fn list_ids(s: &ScriptId) -> (r: Vec<String>)
    ensures
        text::texts(r@) == form::ids_of(Some(*s)),
{
    match s {
        ScriptId::One(id) => {
            let mut one: Vec<String> = Vec::new();
            one.push(id.clone());
            proof {
                assert(text::texts(one@) =~= seq![id@]);
            }
            one
        },
        ScriptId::Many(ids) => config::copy_texts(ids),
    }
}

/// The configuration as the form shows it: the saved one, or the defaults where
/// nothing has been saved.
pub fn get_config(saved: Option<&Config>) -> (d: ConfigDto)
    ensures
        match saved {
            Some(c) => shows_config(d, *c),
            None => shows_fresh_install(d),
        },
{
    match saved {
        None => ConfigDto {
            mode: "apps_script".to_owned(),
            listen_host: "127.0.0.1".to_owned(),
            listen_port: 8085,
            socks5_port: Some(8086),
            script_ids: Vec::new(),
            auth_key: String::new(),
            front_domain: "www.google.com".to_owned(),
            google_ip: "216.239.38.120".to_owned(),
            log_level: "info,hyper=warn".to_owned(),
        },
        Some(c) => {
            let script_ids = match &c.script_id {
                Some(s) => list_ids(s),
                None => match &c.script_ids {
                    Some(s) => list_ids(s),
                    None => {
                        let none: Vec<String> = Vec::new();
                        proof {
                            assert(text::texts(none@) =~= Seq::empty());
                        }
                        none
                    },
                },
            };
            ConfigDto {
                mode: c.mode.clone(),
                listen_host: c.listen_host.clone(),
                listen_port: c.listen_port,
                socks5_port: c.socks5_port,
                script_ids,
                auth_key: c.auth_key.clone(),
                front_domain: c.front_domain.clone(),
                google_ip: c.google_ip.clone(),
                log_level: c.log_level.clone(),
            }
        },
    }
}

/// The fronting groups of the saved document, as they stand there. Nothing
/// where no document or no groups have been saved.
pub fn saved_fronting_groups(saved: Option<&Vec<u8>>, path: &str) -> (r: Result<
    Option<serde_json::Value>,
    String,
>)
    ensures
        match saved {
            None => r matches Ok(v) && v is None,
            Some(bytes) => match json::bytes_document(bytes@) {
                Err(e) => r matches Err(m) && m@ == parse_failure(path@, e),
                Ok(d) => match json::member(d, "fronting_groups"@) {
                    None => r matches Ok(v) && v is None,
                    Some(g) => r matches Ok(Some(v)) && json::json_view(v) == g,
                },
            },
        },
{
    match saved {
        None => Ok(None),
        Some(bytes) => match read_document(bytes, path) {
            Ok(d) => Ok(json::get_member(&d, "fronting_groups")),
            Err(e) => Err(e),
        },
    }
}

/// The groups to show, given what reading the saved value as groups gave.
/// Malformed groups are an error: shown as none, they would be lost on saving.
pub fn get_fronting_groups(read: Option<Result<Vec<FrontingGroup>, String>>) -> (r: Result<
    Vec<FrontingGroup>,
    String,
>)
    ensures
        match read {
            None => r matches Ok(g) && g@.len() == 0,
            Some(Ok(groups)) => r == Ok::<Vec<FrontingGroup>, String>(groups),
            Some(Err(e)) => r matches Err(m) && m@ == failure_text(
                "malformed fronting_groups"@,
                e@,
            ),
        },
{
    match read {
        None => Ok(Vec::new()),
        Some(Ok(groups)) => Ok(groups),
        Some(Err(e)) => Err(failure("malformed fronting_groups", e.as_str())),
    }
}

/// Checks submitted groups and puts them into the saved document. Gives the
/// groups as saved and the document to save.
pub fn save_fronting_groups(
    groups: &Vec<FrontingGroup>,
    saved: Option<&Vec<u8>>,
    path: &str,
) -> (r: Result<(Vec<FrontingGroup>, serde_json::Value), String>)
    ensures
        match fronting::first_complaint(
            fronting::cleaned_groups(fronting::views(groups@)),
            0,
        ) {
            Some(e) => r matches Err(m) && m@ == e,
            None => match base_object(saved, path@) {
                Err(e) => r matches Err(m) && m@ == e,
                Ok(base) => r matches Ok(out) && fronting::views(out.0@) == fronting::cleaned_groups(
                    fronting::views(groups@),
                ) && json::json_view(out.1) == JsonView::Object(
                    base.insert("fronting_groups"@, wire::groups_view(out.0@)),
                ),
            },
        },
{
    let cleaned = match fronting::check_groups(groups) {
        Ok(cleaned) => cleaned,
        Err(e) => return Err(e),
    };
    let mut m = match editable_document(saved, path) {
        Ok(m) => m,
        Err(e) => return Err(e),
    };
    fronting::put_groups(&mut m, &cleaned);
    Ok((cleaned, json::object_value(m)))
}

/// Checks submitted SNI rows and puts the enabled names into the saved document.
/// Gives the document to save.
pub fn save_sni_pool(entries: &Vec<SniHostDto>, saved: Option<&Vec<u8>>, path: &str) -> (r: Result<
    serde_json::Value,
    String,
>)
    ensures
        ({
            let names = sni::active_names(sni::host_views(entries@));
            if names.len() == 0 {
                r matches Err(m) && m@ == "At least one SNI host must remain enabled"@
            } else {
                match base_object(saved, path@) {
                    Err(e) => r matches Err(m) && m@ == e,
                    Ok(base) => r matches Ok(v) && json::json_view(v) == JsonView::Object(
                        base.insert("sni_hosts"@, json::texts_array(names)),
                    ),
                }
            }
        }),
{
    let names = match sni::checked_hosts(entries) {
        Ok(names) => names,
        Err(e) => return Err(e),
    };
    let mut m = match editable_document(saved, path) {
        Ok(m) => m,
        Err(e) => return Err(e),
    };
    sni::put_sni_hosts(&mut m, &names);
    Ok(json::object_value(m))
}

/// The address to probe, with the default where a document gives none.
pub open spec fn probe_ip(v: JsonView) -> Seq<char> {
    match json::member(v, "google_ip"@) {
        Some(JsonView::Text(s)) => s,
        _ => "216.239.38.120"@,
    }
}

/// Whether a probe validates the address, with the default where a document
/// does not say.
pub open spec fn probe_validates(v: JsonView) -> bool {
    match json::member(v, "google_ip_validation"@) {
        Some(JsonView::Bool(b)) => b,
        _ => true,
    }
}

/// The address to probe and whether to validate it, from the saved document.
pub fn probe_settings(saved: Option<&Vec<u8>>, path: &str) -> (r: Result<(String, bool), String>)
    ensures
        match saved {
            None => r matches Ok(s) && s.0@ == "216.239.38.120"@ && s.1,
            Some(bytes) => match json::bytes_document(bytes@) {
                Err(e) => r matches Err(m) && m@ == parse_failure(path@, e),
                Ok(v) => r matches Ok(s) && s.0@ == probe_ip(v) && s.1 == probe_validates(v),
            },
        },
{
    match saved {
        None => Ok(("216.239.38.120".to_owned(), true)),
        Some(bytes) => match read_document(bytes, path) {
            Err(e) => Err(e),
            Ok(v) => {
                let ip = match json::get_member(&v, "google_ip") {
                    Some(w) => match json::read_text(&w) {
                        Some(s) => s,
                        None => "216.239.38.120".to_owned(),
                    },
                    None => "216.239.38.120".to_owned(),
                };
                let validate = match json::get_member(&v, "google_ip_validation") {
                    Some(w) => match json::read_bool(&w) {
                        Some(b) => b,
                        None => true,
                    },
                    None => true,
                };
                Ok((ip, validate))
            },
        },
    }
}

/// The answer to a probe of `host`, given what the probe's task came to.
pub fn probe_sni(host: String, outcome: Result<bool, String>) -> (r: Result<SniProbeResult, String>)
    ensures
        match outcome {
            Ok(reachable) => r == Ok::<SniProbeResult, String>(
                (SniProbeResult { host, reachable }),
            ),
            Err(e) => r matches Err(m) && m@ == failure_text("probe task panicked"@, e@),
        },
{
    match outcome {
        Ok(reachable) => Ok(SniProbeResult { host, reachable }),
        Err(e) => Err(failure("probe task panicked", e.as_str())),
    }
}

/// The answer to a relay test, given what its task came to.
pub fn test_relay(outcome: Result<bool, String>) -> (r: Result<TestResult, String>)
    ensures
        match outcome {
            Ok(pass) => r == Ok::<TestResult, String>((TestResult { pass })),
            Err(e) => r matches Err(m) && m@ == failure_text("test task panicked"@, e@),
        },
{
    match outcome {
        Ok(pass) => Ok(TestResult { pass }),
        Err(e) => Err(failure("test task panicked", e.as_str())),
    }
}

/// The answer to an address scan, given what its task came to.
pub fn scan_ips(outcome: Result<bool, String>) -> (r: Result<TestResult, String>)
    ensures
        match outcome {
            Ok(pass) => r == Ok::<TestResult, String>((TestResult { pass })),
            Err(e) => r matches Err(m) && m@ == failure_text("scan task panicked"@, e@),
        },
{
    match outcome {
        Ok(pass) => Ok(TestResult { pass }),
        Err(e) => Err(failure("scan task panicked", e.as_str())),
    }
}

/// The reachable addresses that a discovery found for a host, fastest first.
pub struct DiscoveredFront {
    pub hostname: String,
    pub ok_ips: Vec<String>,
}

/// The answer to a discovery, given what its task and the search came to. The
/// best address is the fastest.
pub fn discover_front_cmd(outcome: Result<Result<DiscoveredFront, String>, String>) -> (r: Result<
    DiscoverResultDto,
    String,
>)
    ensures
        match outcome {
            Err(e) => r matches Err(m) && m@ == failure_text("discover task panicked"@, e@),
            Ok(Err(e)) => r matches Err(m) && m@ == failure_text("discover failed"@, e@),
            Ok(Ok(front)) => r matches Ok(d) && d.hostname == front.hostname && d.reachable_count
                == front.ok_ips@.len() && (match d.best_ip {
                Some(ip) => front.ok_ips@.len() > 0 && ip@ == front.ok_ips@[0]@,
                None => front.ok_ips@.len() == 0,
            }),
        },
{
    match outcome {
        Err(e) => Err(failure("discover task panicked", e.as_str())),
        Ok(Err(e)) => Err(failure("discover failed", e.as_str())),
        Ok(Ok(front)) => {
            let reachable_count: usize = front.ok_ips.len();
            let best_ip = if reachable_count > 0 {
                Some(front.ok_ips[0].clone())
            } else {
                None
            };
            Ok(DiscoverResultDto { hostname: front.hostname, best_ip, reachable_count })
        },
    }
}

/// What the certificate on disk says of itself. `trusted` answers whether the
/// system trusts a certificate of the given subject.
pub struct CaFacts {
    pub fingerprint: Option<String>,
    pub subject_cn: Option<String>,
    pub trusted: bool,
}

/// The state of the certificate authority. A certificate without a readable
/// subject is not trusted.
pub fn get_ca_status(path: String, on_disk: Option<CaFacts>) -> (d: CaStatusDto)
    ensures
        d.path == path,
        match on_disk {
            None => !d.exists && !d.trusted && d.fingerprint is None && d.subject_cn is None,
            Some(ca) => d.exists && d.trusted == (ca.trusted && ca.subject_cn is Some)
                && d.fingerprint == ca.fingerprint && d.subject_cn == ca.subject_cn,
        },
{
    match on_disk {
        None => CaStatusDto {
            exists: false,
            trusted: false,
            path,
            fingerprint: None,
            subject_cn: None,
        },
        Some(ca) => {
            let trusted = ca.trusted && ca.subject_cn.is_some();
            CaStatusDto {
                exists: true,
                trusted,
                path,
                fingerprint: ca.fingerprint,
                subject_cn: ca.subject_cn,
            }
        },
    }
}

/// The answer to a request to make the certificate authority, given what that
/// came to and the state then.
pub fn mint_ca_if_missing(minted: Result<(), String>, status: CaStatusDto) -> (r: Result<
    CaStatusDto,
    String,
>)
    ensures
        match minted {
            Err(e) => r matches Err(m) && m@ == failure_text("mitm init"@, e@),
            Ok(_) => r == Ok::<CaStatusDto, String>(status),
        },
{
    match minted {
        Err(e) => Err(failure("mitm init", e.as_str())),
        Ok(_) => Ok(status),
    }
}

/// The answer to a request to install the certificate authority. It is made
/// first: where that failed, what `installed` says does not matter.
pub fn install_ca_cmd(
    minted: Result<(), String>,
    installed: Result<(), String>,
    status: CaStatusDto,
) -> (r: Result<CaStatusDto, String>)
    ensures
        match minted {
            Err(e) => r matches Err(m) && m@ == failure_text("mitm init"@, e@),
            Ok(_) => match installed {
                Err(e) => r matches Err(m) && m@ == failure_text("install failed"@, e@),
                Ok(_) => r == Ok::<CaStatusDto, String>(status),
            },
        },
{
    if let Err(e) = minted {
        return Err(failure("mitm init", e.as_str()));
    }
    match installed {
        Err(e) => Err(failure("install failed", e.as_str())),
        Ok(_) => Ok(status),
    }
}

/// The answer to a request to remove the certificate authority: the summary of
/// the removal.
pub fn remove_ca_cmd(outcome: Result<String, String>) -> (r: Result<String, String>)
    ensures
        match outcome {
            Ok(summary) => r == Ok::<String, String>(summary),
            Err(e) => r matches Err(m) && m@ == failure_text("remove failed"@, e@),
        },
{
    match outcome {
        Ok(summary) => Ok(summary),
        Err(e) => Err(failure("remove failed", e.as_str())),
    }
}

/// The usage counters of a running relay.
pub struct UsageSnapshot {
    pub today_calls: u64,
    pub today_bytes: u64,
    pub today_key: String,
    pub today_reset_secs: u64,
}

/// The day's usage; nothing where no relay is running.
pub fn get_stats(snapshot: Option<UsageSnapshot>) -> (r: Option<UsageDto>)
    ensures
        match snapshot {
            None => r is None,
            Some(s) => r == Some(
                (UsageDto {
                    today_calls: s.today_calls,
                    today_bytes: s.today_bytes,
                    today_key: s.today_key,
                    today_reset_secs: s.today_reset_secs,
                    free_quota_per_day: FREE_QUOTA_PER_DAY,
                }),
            ),
        },
{
    match snapshot {
        None => None,
        Some(s) => Some(
            UsageDto {
                today_calls: s.today_calls,
                today_bytes: s.today_bytes,
                today_key: s.today_key,
                today_reset_secs: s.today_reset_secs,
                free_quota_per_day: FREE_QUOTA_PER_DAY,
            },
        ),
    }
}

/// The saved document as text for the raw editor, ending in a newline.
pub fn get_raw_config(saved: Option<&Vec<u8>>, path: &str) -> (r: Result<String, String>)
    ensures
        match saved {
            None => r matches Ok(s) && s@ == "{}\n"@,
            Some(bytes) => match json::bytes_document(bytes@) {
                Err(e) => r matches Err(m) && m@ == parse_failure(path@, e),
                Ok(v) => r matches Ok(s) && s@ == json::pretty_text(v).push('\n'),
            },
        },
{
    match saved {
        None => Ok("{}\n".to_owned()),
        Some(bytes) => match read_document(bytes, path) {
            Err(e) => Err(e),
            Ok(v) => match json::write_pretty(&v) {
                Ok(s) => {
                    let mut out = s;
                    out.push('\n');
                    Ok(out)
                },
                Err(e) => Err(failure("serialize", e.as_str())),
            },
        },
    }
}

/// Checks the raw editor's text and gives what to save: the text just as it was
/// typed. `typed` and `valid` tell whether the text reads as a configuration and
/// whether that configuration is usable.
pub fn save_raw_config(text: &str, typed: Result<(), String>, valid: Result<(), String>) -> (r: Result<
    String,
    String,
>)
    ensures
        match typed {
            Err(e) => r matches Err(m) && m@ == failure_text("invalid config"@, e@),
            Ok(_) => match valid {
                Err(e) => r matches Err(m) && m@ == failure_text("invalid config"@, e@),
                Ok(_) => r matches Ok(kept) && kept@ == text@,
            },
        },
{
    if let Err(e) = typed {
        return Err(failure("invalid config", e.as_str()));
    }
    if let Err(e) = valid {
        return Err(failure("invalid config", e.as_str()));
    }
    Ok(text.to_owned())
}

/// The log ring's lines, oldest first.
pub fn drain_logs(log: &VecDeque<String>) -> (r: Vec<String>)
    ensures
        r@ == log@,
{
    let mut r: Vec<String> = Vec::new();
    let len: usize = log.len();
    let mut i: usize = 0;
    while i < len
        invariant
            i <= len,
            len == log@.len(),
            r@ == log@.take(i as int),
        decreases len - i,
    {
        r.push(log[i].clone());
        proof {
            assert(log@.take(i as int).push(log@[i as int]) =~= log@.take(i + 1));
        }
        i = i + 1;
    }
    proof {
        assert(log@.take(len as int) =~= log@);
    }
    r
}

/// Empties the log ring.
pub fn clear_logs(log: &mut VecDeque<String>)
    ensures
        final(log)@.len() == 0,
{
    log.clear();
}

/// Edits touch only the keys that they name.
pub proof fn law_other_members_stay(
    base: Map<Seq<char>, JsonView>,
    edits: Seq<(Seq<char>, Option<JsonView>)>,
    key: Seq<char>,
)
    requires
        !touches(edits, key),
    ensures
        edited(base, edits).contains_key(key) == base.contains_key(key),
        base.contains_key(key) ==> edited(base, edits)[key] == base[key],
    decreases edits.len(),
{
    if edits.len() > 0 {
        let q = edits.drop_last();
        assert(edits[edits.len() - 1].0 != key);
        assert forall|i: int| 0 <= i < q.len() implies (#[trigger] q[i]).0 != key by {
            assert(edits[i].0 != key);
        }
        law_other_members_stay(base, q, key);
    }
}

/// After edits under different keys, the document holds what each asked for.
pub proof fn law_edits_are_saved(
    base: Map<Seq<char>, JsonView>,
    edits: Seq<(Seq<char>, Option<JsonView>)>,
    i: int,
)
    requires
        0 <= i < edits.len(),
        forall|a: int, b: int|
            0 <= a < b < edits.len() ==> (#[trigger] edits[a]).0 != (#[trigger] edits[b]).0,
    ensures
        match edits[i].1 {
            Some(v) => edited(base, edits).contains_key(edits[i].0) && edited(base, edits)[edits[i].0] == v,
            None => !edited(base, edits).contains_key(edits[i].0),
        },
    decreases edits.len(),
{
    let q = edits.drop_last();
    if i < q.len() {
        law_edits_are_saved(base, q, i);
        assert(q[i] == edits[i]);
        assert(edits[edits.len() - 1].0 != edits[i].0);
    }
}

/// Saving the same edits again changes nothing.
pub proof fn law_saving_again_changes_nothing(
    base: Map<Seq<char>, JsonView>,
    edits: Seq<(Seq<char>, Option<JsonView>)>,
)
    requires
        forall|a: int, b: int|
            0 <= a < b < edits.len() ==> (#[trigger] edits[a]).0 != (#[trigger] edits[b]).0,
    ensures
        edited(edited(base, edits), edits) == edited(base, edits),
{
    let once = edited(base, edits);
    let twice = edited(once, edits);
    assert forall|k: Seq<char>| #[trigger] twice.contains_key(k) == once.contains_key(k) && (
    once.contains_key(k) ==> twice[k] == once[k]) by {
        if touches(edits, k) {
            let i = choose|i: int| 0 <= i < edits.len() && (#[trigger] edits[i]).0 == k;
            law_edits_are_saved(base, edits, i);
            law_edits_are_saved(once, edits, i);
        } else {
            law_other_members_stay(once, edits, k);
        }
    }
    assert(twice =~= once);
}

/// The keys that an update edits are all different, so that the laws on edits
/// hold of every update.
pub proof fn law_update_keys_differ(u: ConfigUpdate)
    ensures
        forall|a: int, b: int|
            0 <= a < b < update_edits(u).len() ==> (#[trigger] update_edits(u)[a]).0
                != (#[trigger] update_edits(u)[b]).0,
{
    reveal_strlit("mode");
    reveal_strlit("listen_host");
    reveal_strlit("listen_port");
    reveal_strlit("socks5_port");
    reveal_strlit("auth_key");
    reveal_strlit("front_domain");
    reveal_strlit("google_ip");
    reveal_strlit("log_level");
    reveal_strlit("script_ids");
    reveal_strlit("script_id");
    let e = update_edits(u);
    assert(e[0].0 == "mode"@ && "mode"@.len() == 4);
    assert(e[1].0 == "listen_host"@ && "listen_host"@.len() == 11);
    assert(e[2].0 == "listen_port"@ && "listen_port"@.len() == 11);
    assert(e[3].0 == "socks5_port"@ && "socks5_port"@.len() == 11);
    assert(e[4].0 == "auth_key"@ && "auth_key"@.len() == 8);
    assert(e[5].0 == "front_domain"@ && "front_domain"@.len() == 12);
    assert(e[6].0 == "google_ip"@ && "google_ip"@.len() == 9);
    assert(e[7].0 == "log_level"@ && "log_level"@.len() == 9);
    assert(e[8].0 == "script_ids"@ && "script_ids"@.len() == 10);
    assert(e[9].0 == "script_id"@ && "script_id"@.len() == 9);
    assert("listen_host"@[7] != "listen_port"@[7]);
    assert("socks5_port"@[0] != "listen_host"@[0]);
    assert("socks5_port"@[0] != "listen_port"@[0]);
    assert("google_ip"@[0] != "log_level"@[0]);
    assert("google_ip"@[0] != "script_id"@[0]);
    assert("log_level"@[0] != "script_id"@[0]);
    assert forall|a: int, b: int| 0 <= a < b < e.len() implies (#[trigger] e[a]).0 != (
    #[trigger] e[b]).0 by {
        assert(a == 0 || a == 1 || a == 2 || a == 3 || a == 4 || a == 5 || a == 6 || a == 7 || a
            == 8);
        assert(b == 1 || b == 2 || b == 3 || b == 4 || b == 5 || b == 6 || b == 7 || b == 8 || b
            == 9);
    }
}

/// An accepted update never leaves a document with both spellings of the
/// deployment IDs, and its two ports differ.
pub proof fn law_saved_update_is_usable(
    u: ConfigUpdate,
    relay: Result<bool, String>,
    base: Map<Seq<char>, JsonView>,
)
    requires
        update_complaint(u, relay) is None,
    ensures
        !edited(base, update_edits(u)).contains_key("script_ids"@),
        edited(base, update_edits(u)).contains_key("listen_port"@),
        edited(base, update_edits(u)).contains_key("socks5_port"@) ==> edited(
            base,
            update_edits(u),
        )["socks5_port"@] != edited(base, update_edits(u))["listen_port"@],
        relay == Ok::<bool, String>(true) ==> edited(base, update_edits(u)).contains_key("script_id"@),
{
    law_update_keys_differ(u);
    let e = update_edits(u);
    law_edits_are_saved(base, e, 2);
    law_edits_are_saved(base, e, 3);
    law_edits_are_saved(base, e, 8);
    law_edits_are_saved(base, e, 9);
    if let Some(p) = u.socks5_port {
        if numeral::decimal(p as nat) == numeral::decimal(u.listen_port as nat) {
            numeral::law_decimal_injective(p as nat, u.listen_port as nat);
        }
    }
}

/// The saved document says what the form shows, member by member: every text
/// of the update stands under its own name, the ports as numbers, the
/// deployment IDs as one text or as a list, under one name only.
pub proof fn law_saved_members(u: ConfigUpdate, base: Map<Seq<char>, JsonView>)
    ensures
        ({
            let saved = JsonView::Object(edited(base, update_edits(u)));
            let ids = text::cleaned(text::texts(u.script_ids@));
            &&& json::member(saved, "mode"@) == Some(JsonView::Text(u.mode@))
            &&& json::member(saved, "listen_host"@) == Some(JsonView::Text(u.listen_host@))
            &&& json::member(saved, "auth_key"@) == Some(JsonView::Text(u.auth_key@))
            &&& json::member(saved, "front_domain"@) == Some(JsonView::Text(u.front_domain@))
            &&& json::member(saved, "google_ip"@) == Some(JsonView::Text(u.google_ip@))
            &&& json::member(saved, "log_level"@) == Some(JsonView::Text(u.log_level@))
            &&& json::member(saved, "listen_port"@) == Some(
                JsonView::Number(numeral::decimal(u.listen_port as nat)),
            )
            &&& u.socks5_port is Some ==> json::member(saved, "socks5_port"@) == Some(
                JsonView::Number(numeral::decimal(u.socks5_port->0 as nat)),
            )
            &&& u.socks5_port is None ==> json::member(saved, "socks5_port"@) is None
            &&& ids.len() == 0 ==> json::member(saved, "script_id"@) is None
            &&& ids.len() == 1 ==> json::member(saved, "script_id"@) == Some(
                JsonView::Text(ids[0]),
            )
            &&& ids.len() > 1 ==> {
                &&& json::member(saved, "script_id"@) matches Some(JsonView::Array(list))
                &&& list.len() == ids.len()
                &&& forall|i: int|
                    0 <= i < ids.len() ==> #[trigger] list[i] == JsonView::Text(ids[i])
            }
            &&& json::member(saved, "script_ids"@) is None
        }),
{
    law_update_keys_differ(u);
    let e = update_edits(u);
    law_edits_are_saved(base, e, 0);
    law_edits_are_saved(base, e, 1);
    law_edits_are_saved(base, e, 2);
    law_edits_are_saved(base, e, 3);
    law_edits_are_saved(base, e, 4);
    law_edits_are_saved(base, e, 5);
    law_edits_are_saved(base, e, 6);
    law_edits_are_saved(base, e, 7);
    law_edits_are_saved(base, e, 8);
    law_edits_are_saved(base, e, 9);
}

/// What a configuration that was read from a document holds of the members
/// that the form shows.
pub open spec fn is_read_from(c: Config, m: Map<Seq<char>, JsonView>) -> bool {
    let doc = JsonView::Object(m);
    &&& json::member(doc, "mode"@) == Some(JsonView::Text(c.mode@))
    &&& json::member(doc, "listen_host"@) == Some(JsonView::Text(c.listen_host@))
    &&& json::member(doc, "auth_key"@) == Some(JsonView::Text(c.auth_key@))
    &&& json::member(doc, "front_domain"@) == Some(JsonView::Text(c.front_domain@))
    &&& json::member(doc, "google_ip"@) == Some(JsonView::Text(c.google_ip@))
    &&& json::member(doc, "log_level"@) == Some(JsonView::Text(c.log_level@))
    &&& json::member(doc, "listen_port"@) == Some(json::number(c.listen_port as nat))
    &&& json::member(doc, "socks5_port"@) == (match c.socks5_port {
        Some(p) => Some(json::number(p as nat)),
        None => None,
    })
    &&& json::member(doc, "script_id"@) == wire::script_id_view(c.script_id)
    &&& json::member(doc, "script_ids"@) == wire::script_id_view(c.script_ids)
}

/// Saving and showing agree: the configuration read from a document that an
/// update was saved to is shown with the mode, host, ports, deployment IDs,
/// key, front domain, Google IP and log level of that update, whatever the
/// document held before.
pub proof fn law_saved_update_is_shown(
    u: ConfigUpdate,
    base: Map<Seq<char>, JsonView>,
    c: Config,
    d: ConfigDto,
)
    requires
        is_read_from(c, edited(base, update_edits(u))),
        shows_config(d, c),
    ensures
        d.mode@ == u.mode@,
        d.listen_host@ == u.listen_host@,
        d.listen_port == u.listen_port,
        d.socks5_port == u.socks5_port,
        text::texts(d.script_ids@) == text::cleaned(text::texts(u.script_ids@)),
        d.auth_key@ == u.auth_key@,
        d.front_domain@ == u.front_domain@,
        d.google_ip@ == u.google_ip@,
        d.log_level@ == u.log_level@,
{
    law_saved_members(u, base);
    let ids = update_ids(u);
    if numeral::decimal(c.listen_port as nat) == numeral::decimal(u.listen_port as nat) {
        numeral::law_decimal_injective(c.listen_port as nat, u.listen_port as nat);
    }
    if c.socks5_port is Some && u.socks5_port is Some {
        numeral::law_decimal_injective(c.socks5_port->0 as nat, u.socks5_port->0 as nat);
    }
    assert(c.script_ids is None);
    match c.script_id {
        None => {
            assert(ids =~= Seq::empty());
        },
        Some(ScriptId::One(id)) => {
            assert(ids =~= seq![id@]);
        },
        Some(ScriptId::Many(list)) => {
            let shown = text::texts(list@);
            let saved = json::member(
                JsonView::Object(edited(base, update_edits(u))),
                "script_id"@,
            )->0->Array_0;
            assert(saved == shown.map_values(|s: Seq<char>| JsonView::Text(s)));
            assert forall|i: int| 0 <= i < ids.len() implies #[trigger] ids[i] == shown[i] by {
                assert(saved[i] == JsonView::Text(ids[i]));
                assert(saved[i] == JsonView::Text(shown[i]));
            }
            assert(ids =~= shown);
        },
    }
}

/// Showing a configuration shows each of its settings under its own name, and
/// the deployment IDs of the present name before those of the former one.
pub proof fn law_shown_settings(c: Config, d: ConfigDto)
    requires
        shows_config(d, c),
    ensures
        d.mode@ == c.mode@,
        d.listen_host@ == c.listen_host@,
        d.listen_port == c.listen_port,
        d.socks5_port == c.socks5_port,
        d.auth_key@ == c.auth_key@,
        d.front_domain@ == c.front_domain@,
        d.google_ip@ == c.google_ip@,
        d.log_level@ == c.log_level@,
        c.script_id matches Some(ScriptId::One(id)) ==> text::texts(d.script_ids@) == seq![id@],
        c.script_id matches Some(ScriptId::Many(ids)) ==> text::texts(d.script_ids@)
            == text::texts(ids@),
        c.script_id is None ==> {
            &&& c.script_ids matches Some(ScriptId::One(id)) ==> text::texts(d.script_ids@) == seq![
                id@,
            ]
            &&& c.script_ids matches Some(ScriptId::Many(ids)) ==> text::texts(d.script_ids@)
                == text::texts(ids@)
            &&& c.script_ids is None ==> d.script_ids@.len() == 0
        },
{
    if c.script_id is None && c.script_ids is None {
        assert(text::texts(d.script_ids@).len() == 0);
    }
}

/// What an answer to a saved update repeats is what was entered.
pub proof fn law_answer_repeats_update(u: ConfigUpdate, d: ConfigDto)
    requires
        shows_update(d, u),
    ensures
        d.mode@ == u.mode@,
        d.listen_host@ == u.listen_host@,
        d.listen_port == u.listen_port,
        d.socks5_port == u.socks5_port,
        text::texts(d.script_ids@) == text::cleaned(text::texts(u.script_ids@)),
        d.auth_key@ == u.auth_key@,
        d.front_domain@ == u.front_domain@,
        d.google_ip@ == u.google_ip@,
        d.log_level@ == u.log_level@,
{
}

/// An update is refused for a mode that is not known, for a mode with a relay
/// that lacks deployment IDs or a key, and for two equal ports; any other is
/// saved.
pub proof fn law_update_is_refused_for_cause(u: ConfigUpdate, relay: Result<bool, String>)
    ensures
        update_complaint(u, relay) is Some <==> {
            ||| relay is Err
            ||| relay->Ok_0 && text::cleaned(text::texts(u.script_ids@)).len() == 0
            ||| relay->Ok_0 && text::trimmed(u.auth_key@).len() == 0
            ||| u.socks5_port == Some(u.listen_port)
        },
        relay matches Err(e) ==> update_complaint(u, relay) == Some(e@),
        relay == Ok::<bool, String>(true) && text::cleaned(text::texts(u.script_ids@)).len() == 0
            ==> update_complaint(u, relay) == Some("At least one deployment ID is required"@),
        relay == Ok::<bool, String>(true) && text::cleaned(text::texts(u.script_ids@)).len() > 0
            && text::trimmed(u.auth_key@).len() == 0 ==> update_complaint(u, relay) == Some(
            "Auth key is required"@,
        ),
        relay == Ok::<bool, String>(false) && u.socks5_port == Some(u.listen_port)
            ==> update_complaint(u, relay) == Some("HTTP and SOCKS5 ports must differ"@),
{
}

/// The settings of a new installation: the relay mode, both listeners on the
/// local host under ports 8085 and 8086, no key yet, and the built-in Google
/// address, front and log level.
pub proof fn law_new_installation()
    ensures
        ({
            let doc = JsonView::Object(base_members());
            &&& json::member(doc, "mode"@) == Some(JsonView::Text("apps_script"@))
            &&& json::member(doc, "google_ip"@) == Some(JsonView::Text("216.239.38.120"@))
            &&& json::member(doc, "front_domain"@) == Some(JsonView::Text("www.google.com"@))
            &&& json::member(doc, "auth_key"@) == Some(JsonView::Text(""@))
            &&& json::member(doc, "listen_host"@) == Some(JsonView::Text("127.0.0.1"@))
            &&& json::member(doc, "listen_port"@) == Some(
                JsonView::Number(numeral::decimal(8085)),
            )
            &&& json::member(doc, "socks5_port"@) == Some(
                JsonView::Number(numeral::decimal(8086)),
            )
            &&& json::member(doc, "log_level"@) == Some(JsonView::Text("info,hyper=warn"@))
            &&& json::member(doc, "script_id"@) is None
        }),
{
    reveal_strlit("mode");
    reveal_strlit("listen_host");
    reveal_strlit("listen_port");
    reveal_strlit("socks5_port");
    reveal_strlit("auth_key");
    reveal_strlit("front_domain");
    reveal_strlit("google_ip");
    reveal_strlit("log_level");
    reveal_strlit("script_id");
    let e = base_edits();
    assert("listen_host"@[7] != "listen_port"@[7]);
    assert("socks5_port"@[0] != "listen_host"@[0]);
    assert("google_ip"@[0] != "log_level"@[0]);
    assert("google_ip"@[0] != "script_id"@[0]);
    assert("log_level"@[0] != "script_id"@[0]);
    assert(e[0].0 == "mode"@ && "mode"@.len() == 4);
    assert(e[1].0 == "google_ip"@ && "google_ip"@.len() == 9);
    assert(e[2].0 == "front_domain"@ && "front_domain"@.len() == 12);
    assert(e[3].0 == "auth_key"@ && "auth_key"@.len() == 8);
    assert(e[4].0 == "listen_host"@ && "listen_host"@.len() == 11);
    assert(e[5].0 == "listen_port"@ && "listen_port"@.len() == 11);
    assert(e[6].0 == "socks5_port"@ && "socks5_port"@.len() == 11);
    assert(e[7].0 == "log_level"@ && "log_level"@.len() == 9);
    assert("script_id"@.len() == 9);
    assert forall|a: int, b: int| 0 <= a < b < e.len() implies (#[trigger] e[a]).0 != (
    #[trigger] e[b]).0 by {
        assert(a == 0 || a == 1 || a == 2 || a == 3 || a == 4 || a == 5 || a == 6);
        assert(b == 1 || b == 2 || b == 3 || b == 4 || b == 5 || b == 6 || b == 7);
    }
    law_edits_are_saved(json::no_members(), e, 0);
    law_edits_are_saved(json::no_members(), e, 1);
    law_edits_are_saved(json::no_members(), e, 2);
    law_edits_are_saved(json::no_members(), e, 3);
    law_edits_are_saved(json::no_members(), e, 4);
    law_edits_are_saved(json::no_members(), e, 5);
    law_edits_are_saved(json::no_members(), e, 6);
    law_edits_are_saved(json::no_members(), e, 7);
    assert(!touches(e, "script_id"@)) by {
        assert forall|i: int| 0 <= i < e.len() implies (#[trigger] e[i]).0 != "script_id"@ by {
            assert(i == 0 || i == 1 || i == 2 || i == 3 || i == 4 || i == 5 || i == 6 || i == 7);
        }
    }
    law_other_members_stay(json::no_members(), e, "script_id"@);
}

/// What a new installation shows, member by member.
pub proof fn law_new_installation_is_shown(d: ConfigDto)
    requires
        shows_fresh_install(d),
    ensures
        d.mode@ == "apps_script"@,
        d.listen_host@ == "127.0.0.1"@,
        d.listen_port == 8085,
        d.socks5_port == Some(8086u16),
        d.script_ids@.len() == 0,
        d.auth_key@.len() == 0,
        d.front_domain@ == "www.google.com"@,
        d.google_ip@ == "216.239.38.120"@,
        d.log_level@ == "info,hyper=warn"@,
{
}

/// A probe goes to the saved address and follows the saved choice on
/// validation; where either is missing or of another kind, to the built-in
/// address and with validation.
pub proof fn law_probe_follows_document(m: Map<Seq<char>, JsonView>, ip: Seq<char>, on: bool)
    ensures
        probe_ip(JsonView::Object(m.insert("google_ip"@, JsonView::Text(ip)))) == ip,
        probe_validates(
            JsonView::Object(m.insert("google_ip_validation"@, JsonView::Bool(on))),
        ) == on,
        !m.contains_key("google_ip"@) ==> probe_ip(JsonView::Object(m)) == "216.239.38.120"@,
        !m.contains_key("google_ip_validation"@) ==> probe_validates(JsonView::Object(m)),
        m.contains_key("google_ip"@) && !(m["google_ip"@] is Text) ==> probe_ip(JsonView::Object(m))
            == "216.239.38.120"@,
        m.contains_key("google_ip_validation"@) && !(m["google_ip_validation"@] is Bool)
            ==> probe_validates(JsonView::Object(m)),
{
}

/// A failure is told as what failed and why, a document that does not parse by
/// its path.
pub proof fn law_failure_tells_what_and_why(what: Seq<char>, path: Seq<char>, why: Seq<char>)
    ensures
        failure_text(what, why) == what + ": "@ + why,
        parse_failure(path, why) == "parse "@ + path + ": "@ + why,
{
}

/// An update leaves every other member of the document as it was.
pub proof fn law_update_keeps_the_rest(
    u: ConfigUpdate,
    base: Map<Seq<char>, JsonView>,
    key: Seq<char>,
)
    requires
        key != "mode"@,
        key != "listen_host"@,
        key != "listen_port"@,
        key != "socks5_port"@,
        key != "auth_key"@,
        key != "front_domain"@,
        key != "google_ip"@,
        key != "log_level"@,
        key != "script_ids"@,
        key != "script_id"@,
    ensures
        json::member(JsonView::Object(edited(base, update_edits(u))), key) == json::member(
            JsonView::Object(base),
            key,
        ),
{
    let e = update_edits(u);
    assert(!touches(e, key)) by {
        assert forall|i: int| 0 <= i < e.len() implies (#[trigger] e[i]).0 != key by {
            assert(i == 0 || i == 1 || i == 2 || i == 3 || i == 4 || i == 5 || i == 6 || i == 7 || i
                == 8 || i == 9);
        }
    }
    law_other_members_stay(base, e, key);
}

/// Without a saved document an update starts from the settings of a new
/// installation, and with one from that document, which has to be an object.
pub proof fn law_update_starts_from_saved_document(bytes: Vec<u8>, path: Seq<char>)
    ensures
        base_object(None, path) == Ok::<Map<Seq<char>, JsonView>, Seq<char>>(base_members()),
        json::bytes_document(bytes@) matches Ok(JsonView::Object(m)) ==> base_object(
            Some(&bytes),
            path,
        ) == Ok::<Map<Seq<char>, JsonView>, Seq<char>>(m),
        json::bytes_document(bytes@) matches Ok(v) ==> (!(v is Object) ==> base_object(
            Some(&bytes),
            path,
        ) == Err::<Map<Seq<char>, JsonView>, Seq<char>>("config.json is not a JSON object"@)),
        json::bytes_document(bytes@) matches Err(e) ==> base_object(Some(&bytes), path) == Err::<
            Map<Seq<char>, JsonView>,
            Seq<char>,
        >("parse "@ + path + ": "@ + e),
{
}

} // verus!
