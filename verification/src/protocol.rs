//! The JSON protocol shared by the host and guest plugins: the manifest a
//! guest declares, the events and commands it receives, and its replies,
//! with the JSON form of each.
use vstd::prelude::*;

use crate::json::{
    clone_values, deep_clone, distinct_keys, distinct_pair_keys, is_record, json_member, json_parse, json_quote,
    json_record, json_text, json_to_string, json_u32, lemma_lookup_absent, lemma_lookup_distinct,
    lemma_object_view, lemma_pairs_roundtrip, lemma_strings_roundtrip, member, opt_string_json,
    pairs_json, pairs_view, parse_json, quote, read_slot_any, read_slot_bool, read_slot_opt_any,
    read_slot_opt_string, read_slot_or_null, read_slot_pairs_or_empty, read_slot_str,
    read_slot_strings, read_slot_strings_or_empty, read_slot_u32_or, read_slot_values_or_empty,
    slot_bool, slot_opt_any, slot_opt_string, slot_or_null, slot_pairs_or_empty, slot_str,
    slot_strings, slot_strings_or_empty, slot_u32_or, slot_values_or_empty, slot_view,
    strings_json, strings_view, values_view, Json, JsonValue,
};
use crate::text::{decimal_text, lemma_decimal_roundtrip, owned, push_decimal, push_str};
use crate::writer::{
    has_member, joined, lemma_object_prefix_push, lemma_object_text_extend, lemma_object_text_member,
    lemma_object_text_one, lemma_object_text_prefix, object_prefix, object_text,
    bool_text, entry_text, member_text, opt_member_text, opt_quoted, pairs_object, pairs_text,
    push_entry, push_member, quoted_or_null, strings_array, strings_text, values_array, values_text,
};

verus! {

/// The protocol version that this library speaks.
pub const CURRENT_PROTOCOL_VERSION: u32 = 1;

/// The oldest protocol version that the host still loads.
pub const MIN_SUPPORTED_PROTOCOL_VERSION: u32 = 1;

/// The protocol version of a manifest that does not state one.
pub fn default_protocol_version() -> (v: u32)
    ensures
        v == 1,
{
    1
}

// ---------------------------------------------------------------------------
// Models
// ---------------------------------------------------------------------------

/// The model of the permissions a plugin asks for.
pub struct PermissionsModel {
    pub defaults: Json,
    pub reasons: Seq<(Seq<char>, Seq<char>)>,
}

/// The model of a guest's manifest.
pub struct ManifestModel {
    pub protocol_version: u32,
    pub id: Seq<char>,
    pub name: Seq<char>,
    pub version: Seq<char>,
    pub description: Seq<char>,
    pub capabilities: Seq<Seq<char>>,
    pub ui: Seq<Json>,
    pub commands: Seq<Seq<char>>,
    pub cli: Seq<Json>,
    pub requested_permissions: Option<PermissionsModel>,
    pub conversions: Seq<Seq<char>>,
    pub min_app_version: Option<Seq<char>>,
}

/// The model of an event sent to a guest.
pub struct EventModel {
    pub event_type: Seq<char>,
    pub payload: Json,
}

/// The model of a command request sent to a guest.
pub struct RequestModel {
    pub command: Seq<char>,
    pub params: Json,
}

/// The model of a guest's reply to a command.
pub struct ResponseModel {
    pub success: bool,
    pub data: Option<Json>,
    pub error: Option<Seq<char>>,
    pub error_code: Option<Seq<char>>,
}

/// The text of an optional string.
pub open spec fn opt_view(s: Option<String>) -> Option<Seq<char>> {
    match s {
        Some(t) => Some(t@),
        None => None,
    }
}

// ---------------------------------------------------------------------------
// Types
// ---------------------------------------------------------------------------

/// The default permissions a plugin asks for, with the reason for each.
#[derive(Debug)]
pub struct GuestRequestedPermissions {
    /// Default permission rules to apply at install time.
    pub defaults: JsonValue,
    /// Why each permission is needed, keyed by permission field name.
    pub reasons: Vec<(String, String)>,
}

impl View for GuestRequestedPermissions {
    type V = PermissionsModel;

    open spec fn view(&self) -> PermissionsModel {
        PermissionsModel { defaults: self.defaults@, reasons: pairs_view(self.reasons@) }
    }
}

impl Default for GuestRequestedPermissions {
    fn default() -> (r: Self)
        ensures
            r@ == (PermissionsModel { defaults: Json::Null, reasons: seq![] }),
    {
        let r = GuestRequestedPermissions { defaults: JsonValue::Null, reasons: Vec::new() };
        assert(pairs_view(r.reasons@) =~= seq![]);
        r
    }
}

/// The manifest that a guest's exported `manifest` function returns.
#[derive(Debug)]
pub struct GuestManifest {
    /// Protocol version this guest was built against (1 when omitted).
    pub protocol_version: u32,
    /// Unique plugin identifier (e.g. `"diaryx.myplugin"`).
    pub id: String,
    /// Human-readable name.
    pub name: String,
    /// SemVer version string.
    pub version: String,
    /// Short description of what this plugin does.
    pub description: String,
    /// Capability strings this plugin requests.
    pub capabilities: Vec<String>,
    /// Serialized UI contribution values.
    pub ui: Vec<JsonValue>,
    /// Custom command names this plugin handles.
    pub commands: Vec<String>,
    /// CLI subcommand declarations.
    pub cli: Vec<JsonValue>,
    /// Default permission request and rationale shown during install.
    pub requested_permissions: Option<GuestRequestedPermissions>,
    /// Supported conversion pairs for the `media_transcoder` capability.
    pub conversions: Vec<String>,
    /// Minimum Diaryx version required to run this plugin.
    pub min_app_version: Option<String>,
}

/// The model of optional permissions.
pub open spec fn opt_permissions_view(p: Option<GuestRequestedPermissions>) -> Option<
    PermissionsModel,
> {
    match p {
        Some(q) => Some(q@),
        None => None,
    }
}

impl View for GuestManifest {
    type V = ManifestModel;

    open spec fn view(&self) -> ManifestModel {
        ManifestModel {
            protocol_version: self.protocol_version,
            id: self.id@,
            name: self.name@,
            version: self.version@,
            description: self.description@,
            capabilities: strings_view(self.capabilities@),
            ui: values_view(self.ui@),
            commands: strings_view(self.commands@),
            cli: values_view(self.cli@),
            requested_permissions: opt_permissions_view(self.requested_permissions),
            conversions: strings_view(self.conversions@),
            min_app_version: opt_view(self.min_app_version),
        }
    }
}

/// An event sent to the guest's `on_event` function.
#[derive(Debug)]
pub struct GuestEvent {
    /// Event type identifier (e.g. `"file_saved"`).
    pub event_type: String,
    /// Event-specific payload.
    pub payload: JsonValue,
}

impl View for GuestEvent {
    type V = EventModel;

    open spec fn view(&self) -> EventModel {
        EventModel { event_type: self.event_type@, payload: self.payload@ }
    }
}

/// A command request sent to the guest's `handle_command` function.
#[derive(Debug)]
pub struct CommandRequest {
    /// Command name (one of the guest's declared commands).
    pub command: String,
    /// Command parameters.
    pub params: JsonValue,
}

impl View for CommandRequest {
    type V = RequestModel;

    open spec fn view(&self) -> RequestModel {
        RequestModel { command: self.command@, params: self.params@ }
    }
}

/// The reply that the guest returns from `handle_command`.
#[derive(Debug)]
pub struct CommandResponse {
    /// Whether the command succeeded.
    pub success: bool,
    /// Result data (present on success).
    pub data: Option<JsonValue>,
    /// Error message (present on failure).
    pub error: Option<String>,
    /// Optional structured error code (e.g. `"permission_denied"`).
    pub error_code: Option<String>,
}

/// The model of an optional document.
pub open spec fn opt_json_view(v: Option<JsonValue>) -> Option<Json> {
    match v {
        Some(j) => Some(j@),
        None => None,
    }
}

impl View for CommandResponse {
    type V = ResponseModel;

    open spec fn view(&self) -> ResponseModel {
        ResponseModel {
            success: self.success,
            data: opt_json_view(self.data),
            error: opt_view(self.error),
            error_code: opt_view(self.error_code),
        }
    }
}

// ---------------------------------------------------------------------------
// Construction
// ---------------------------------------------------------------------------

impl GuestManifest {
    /// A manifest with the required fields; the protocol version is the
    /// current one and every optional field is empty.
    pub fn new(
        id: String,
        name: String,
        version: String,
        description: String,
        capabilities: Vec<String>,
    ) -> (m: Self)
        ensures
            m@ == (ManifestModel {
                protocol_version: CURRENT_PROTOCOL_VERSION,
                id: id@,
                name: name@,
                version: version@,
                description: description@,
                capabilities: strings_view(capabilities@),
                ui: seq![],
                commands: seq![],
                cli: seq![],
                requested_permissions: None,
                conversions: seq![],
                min_app_version: None,
            }),
    {
        let m = GuestManifest {
            protocol_version: CURRENT_PROTOCOL_VERSION,
            id,
            name,
            version,
            description,
            capabilities,
            ui: Vec::new(),
            commands: Vec::new(),
            cli: Vec::new(),
            requested_permissions: None,
            conversions: Vec::new(),
            min_app_version: None,
        };
        assert(values_view(m.ui@) =~= seq![]);
        assert(values_view(m.cli@) =~= seq![]);
        assert(strings_view(m.commands@) =~= seq![]);
        assert(strings_view(m.conversions@) =~= seq![]);
        m
    }

    /// Sets the UI contributions.
    pub fn ui(self, ui: Vec<JsonValue>) -> (m: Self)
        ensures
            m@ == (ManifestModel { ui: values_view(ui@), ..self@ }),
    {
        let mut m = self;
        m.ui = ui;
        m
    }

    /// Sets the custom command names.
    pub fn commands(self, commands: Vec<String>) -> (m: Self)
        ensures
            m@ == (ManifestModel { commands: strings_view(commands@), ..self@ }),
    {
        let mut m = self;
        m.commands = commands;
        m
    }

    /// Sets the CLI subcommand declarations.
    pub fn cli(self, cli: Vec<JsonValue>) -> (m: Self)
        ensures
            m@ == (ManifestModel { cli: values_view(cli@), ..self@ }),
    {
        let mut m = self;
        m.cli = cli;
        m
    }

    /// Sets the requested permissions.
    pub fn requested_permissions(self, perms: GuestRequestedPermissions) -> (m: Self)
        ensures
            m@ == (ManifestModel { requested_permissions: Some(perms@), ..self@ }),
    {
        let mut m = self;
        m.requested_permissions = Some(perms);
        m
    }

    /// Sets the media transcoder conversion pairs (e.g. `["heic:jpeg"]`).
    pub fn conversions(self, conversions: Vec<String>) -> (m: Self)
        ensures
            m@ == (ManifestModel { conversions: strings_view(conversions@), ..self@ }),
    {
        let mut m = self;
        m.conversions = conversions;
        m
    }

    /// Sets the minimum Diaryx version required (e.g. `"1.4.0"`).
    pub fn min_app_version(self, version: String) -> (m: Self)
        ensures
            m@ == (ManifestModel { min_app_version: Some(version@), ..self@ }),
    {
        let mut m = self;
        m.min_app_version = Some(version);
        m
    }
}

impl CommandResponse {
    /// A successful reply carrying `data`.
    pub fn ok(data: JsonValue) -> (r: Self)
        ensures
            r@ == (ResponseModel { success: true, data: Some(data@), error: None, error_code: None }),
    {
        CommandResponse { success: true, data: Some(data), error: None, error_code: None }
    }

    /// A successful reply without data.
    pub fn ok_empty() -> (r: Self)
        ensures
            r@ == (ResponseModel { success: true, data: None, error: None, error_code: None }),
    {
        CommandResponse { success: true, data: None, error: None, error_code: None }
    }

    /// A failed reply with a message.
    pub fn err(message: String) -> (r: Self)
        ensures
            r@ == (ResponseModel {
                success: false,
                data: None,
                error: Some(message@),
                error_code: None,
            }),
    {
        CommandResponse { success: false, data: None, error: Some(message), error_code: None }
    }

    /// A failed reply with a message and a structured error code.
    pub fn err_with_code(message: String, code: String) -> (r: Self)
        ensures
            r@ == (ResponseModel {
                success: false,
                data: None,
                error: Some(message@),
                error_code: Some(code@),
            }),
    {
        CommandResponse {
            success: false,
            data: None,
            error: Some(message),
            error_code: Some(code),
        }
    }
}


// ---------------------------------------------------------------------------
// JSON form
// ---------------------------------------------------------------------------

/// A `u32` as a JSON number.
pub open spec fn u32_json(n: u32) -> Json {
    Json::Number(decimal_text(n as nat))
}

/// Texts as a JSON array of strings.
pub open spec fn texts_json(ss: Seq<Seq<char>>) -> Json {
    Json::Array(ss.map_values(|s: Seq<char>| Json::Str(s)))
}

/// An optional text as a string or `null`.
pub open spec fn opt_text_json(o: Option<Seq<char>>) -> Json {
    match o {
        Some(s) => Json::Str(s),
        None => Json::Null,
    }
}

/// An optional document as itself or `null`.
pub open spec fn opt_value_json(o: Option<Json>) -> Json {
    match o {
        Some(j) => j,
        None => Json::Null,
    }
}

/// The JSON form of requested permissions: `defaults`, then `reasons` as an
/// object of strings.
pub open spec fn permissions_json(p: PermissionsModel) -> Json {
    Json::Object(
        seq![
            ("defaults"@, p.defaults),
            ("reasons"@, Json::Object(p.reasons.map_values(|q: (Seq<char>, Seq<char>)| (q.0, Json::Str(q.1))))),
        ],
    )
}

/// Requested permissions read from JSON: a record of two fields, `defaults`
/// and `reasons`, as an object or as an array in that order; `defaults` may
/// be anything (`null` when absent) and `reasons`, when present, is an
/// object of strings.
pub open spec fn permissions_of_json(j: Json) -> Option<PermissionsModel> {
    if json_record(j, 2) {
        match slot_pairs_or_empty(json_member(j, "reasons"@, 1)) {
            Some(r) => Some(
                PermissionsModel { defaults: slot_or_null(json_member(j, "defaults"@, 0)), reasons: r },
            ),
            None => None,
        }
    } else {
        None
    }
}

/// Optional permissions read from a field: absent or `null` is nothing.
pub open spec fn slot_opt_permissions(f: Option<Json>) -> Option<Option<PermissionsModel>> {
    match f {
        None => Some(None),
        Some(Json::Null) => Some(None),
        Some(f) => match permissions_of_json(f) {
            Some(p) => Some(Some(p)),
            None => None,
        },
    }
}

/// The members of a manifest's JSON form that are always present, in the
/// order of the fields.
pub open spec fn manifest_base_entries(m: ManifestModel) -> Seq<(Seq<char>, Json)> {
    seq![
        ("protocol_version"@, u32_json(m.protocol_version)),
        ("id"@, Json::Str(m.id)),
        ("name"@, Json::Str(m.name)),
        ("version"@, Json::Str(m.version)),
        ("description"@, Json::Str(m.description)),
        ("capabilities"@, texts_json(m.capabilities)),
        ("ui"@, Json::Array(m.ui)),
        ("commands"@, texts_json(m.commands)),
        ("cli"@, Json::Array(m.cli)),
        ("requested_permissions"@, match m.requested_permissions {
            Some(p) => permissions_json(p),
            None => Json::Null,
        }),
        ("conversions"@, texts_json(m.conversions)),
    ]
}

/// The JSON form of a manifest: every field in order, except that
/// `min_app_version` is left out when it is `None`.
pub open spec fn manifest_json(m: ManifestModel) -> Json {
    match m.min_app_version {
        Some(v) => Json::Object(manifest_base_entries(m).push(("min_app_version"@, Json::Str(v)))),
        None => Json::Object(manifest_base_entries(m)),
    }
}

/// A manifest read from JSON: an object with the string members `id`,
/// `name`, `version`, `description` and the array of strings
/// `capabilities`; `protocol_version` defaults to 1, the arrays to empty,
/// and `requested_permissions` and `min_app_version` to nothing. Members
/// that the manifest does not know are ignored.
pub open spec fn manifest_of_json(j: Json) -> Option<ManifestModel> {
    let pv = slot_u32_or(json_member(j, "protocol_version"@, 0), 1);
    let id = slot_str(json_member(j, "id"@, 1));
    let name = slot_str(json_member(j, "name"@, 2));
    let version = slot_str(json_member(j, "version"@, 3));
    let description = slot_str(json_member(j, "description"@, 4));
    let capabilities = slot_strings(json_member(j, "capabilities"@, 5));
    let ui = slot_values_or_empty(json_member(j, "ui"@, 6));
    let commands = slot_strings_or_empty(json_member(j, "commands"@, 7));
    let cli = slot_values_or_empty(json_member(j, "cli"@, 8));
    let rp = slot_opt_permissions(json_member(j, "requested_permissions"@, 9));
    let conversions = slot_strings_or_empty(json_member(j, "conversions"@, 10));
    let mav = slot_opt_string(json_member(j, "min_app_version"@, 11));
    if json_record(j, 12) && pv is Some && id is Some && name is Some && version is Some
        && description is Some && capabilities is Some && ui is Some && commands is Some
        && cli is Some && rp is Some && conversions is Some && mav is Some {
        Some(
            ManifestModel {
                protocol_version: pv->0,
                id: id->0,
                name: name->0,
                version: version->0,
                description: description->0,
                capabilities: capabilities->0,
                ui: ui->0,
                commands: commands->0,
                cli: cli->0,
                requested_permissions: rp->0,
                conversions: conversions->0,
                min_app_version: mav->0,
            },
        )
    } else {
        None
    }
}

/// The JSON form of an event.
pub open spec fn event_json(e: EventModel) -> Json {
    Json::Object(seq![("event_type"@, Json::Str(e.event_type)), ("payload"@, e.payload)])
}

/// An event read from JSON: a record of two fields, as an object or as an
/// array in field order; both fields are required.
pub open spec fn event_of_json(j: Json) -> Option<EventModel> {
    match (slot_str(json_member(j, "event_type"@, 0)), json_member(j, "payload"@, 1)) {
        (Some(t), Some(p)) => if json_record(j, 2) {
            Some(EventModel { event_type: t, payload: p })
        } else {
            None
        },
        _ => None,
    }
}

/// The JSON form of a command request.
pub open spec fn request_json(r: RequestModel) -> Json {
    Json::Object(seq![("command"@, Json::Str(r.command)), ("params"@, r.params)])
}

/// A command request read from JSON: a record of two fields, as an object
/// or as an array in field order; both fields are required.
pub open spec fn request_of_json(j: Json) -> Option<RequestModel> {
    match (slot_str(json_member(j, "command"@, 0)), json_member(j, "params"@, 1)) {
        (Some(c), Some(p)) => if json_record(j, 2) {
            Some(RequestModel { command: c, params: p })
        } else {
            None
        },
        _ => None,
    }
}

/// The members of a reply's JSON form that are always present.
pub open spec fn response_base_entries(r: ResponseModel) -> Seq<(Seq<char>, Json)> {
    seq![
        ("success"@, Json::Bool(r.success)),
        ("data"@, opt_value_json(r.data)),
        ("error"@, opt_text_json(r.error)),
    ]
}

/// The JSON form of a reply: `error_code` is left out when it is `None`.
pub open spec fn response_json(r: ResponseModel) -> Json {
    match r.error_code {
        Some(c) => Json::Object(response_base_entries(r).push(("error_code"@, Json::Str(c)))),
        None => Json::Object(response_base_entries(r)),
    }
}

/// A reply read from JSON: `success` is required; `data`, `error` and
/// `error_code` are nothing when missing or `null`.
pub open spec fn response_of_json(j: Json) -> Option<ResponseModel> {
    let success = slot_bool(json_member(j, "success"@, 0));
    let error = slot_opt_string(json_member(j, "error"@, 2));
    let code = slot_opt_string(json_member(j, "error_code"@, 3));
    if json_record(j, 4) && success is Some && error is Some && code is Some {
        Some(
            ResponseModel {
                success: success->0,
                data: slot_opt_any(json_member(j, "data"@, 1)),
                error: error->0,
                error_code: code->0,
            },
        )
    } else {
        None
    }
}

/// A `u32` as a JSON number.
fn u32_value(n: u32) -> (r: JsonValue)
    ensures
        r@ == u32_json(n),
{
    let mut t = String::new();
    push_decimal(&mut t, n as u64);
    JsonValue::Number(t)
}

impl GuestRequestedPermissions {
    /// The JSON form of the permissions.
    pub fn to_json(&self) -> (r: JsonValue)
        requires
            distinct_pair_keys(pairs_view(self.reasons@)),
        ensures
            r@ == permissions_json(self@),
    {
        let mut entries: Vec<(String, JsonValue)> = Vec::new();
        entries.push((owned("defaults"), deep_clone(&self.defaults)));
        entries.push((owned("reasons"), pairs_json(&self.reasons)));
        proof {
            lemma_object_view(entries);
            assert(entries@.map_values(|e: (String, JsonValue)| (e.0@, e.1@)) =~= permissions_json(
                self@,
            )->Object_0);
        }
        JsonValue::Object(entries)
    }

    /// The permissions as JSON text.
    pub fn to_json_text(&self) -> (t: String)
        requires
            distinct_pair_keys(pairs_view(self.reasons@)),
        ensures
            t@ == permissions_text(self@),
    {
        let mut out = owned("{");
        let d = json_to_string(&self.defaults);
        push_entry(&mut out, "defaults", d.as_str());
        let r = pairs_object(&self.reasons);
        push_member(&mut out, "reasons", r.as_str());
        push_str(&mut out, "}");
        assert(out@ =~= permissions_text(self@));
        out
    }

    /// Reads permissions from their JSON form.
    pub fn from_json(v: &JsonValue) -> (r: Option<Self>)
        ensures
            match r {
                Some(p) => permissions_of_json(v@) == Some(p@),
                None => permissions_of_json(v@) is None,
            },
    {
        if !is_record(v, 2) {
            return None;
        }
        match read_slot_pairs_or_empty(member(v, "reasons", 1)) {
            Some(reasons) => Some(
                GuestRequestedPermissions {
                    defaults: read_slot_or_null(member(v, "defaults", 0)),
                    reasons,
                },
            ),
            None => None,
        }
    }
}

impl GuestEvent {
    /// The JSON form of the event.
    pub fn to_json(&self) -> (r: JsonValue)
        ensures
            r@ == event_json(self@),
    {
        let mut entries: Vec<(String, JsonValue)> = Vec::new();
        entries.push((owned("event_type"), JsonValue::Str(self.event_type.clone())));
        entries.push((owned("payload"), deep_clone(&self.payload)));
        proof {
            lemma_object_view(entries);
            assert(entries@.map_values(|e: (String, JsonValue)| (e.0@, e.1@)) =~= event_json(
                self@,
            )->Object_0);
        }
        JsonValue::Object(entries)
    }

    /// Reads an event from its JSON form.
    pub fn from_json(v: &JsonValue) -> (r: Option<Self>)
        ensures
            match r {
                Some(e) => event_of_json(v@) == Some(e@),
                None => event_of_json(v@) is None,
            },
    {
        match (read_slot_str(member(v, "event_type", 0)), read_slot_any(member(v, "payload", 1))) {
            (Some(t), Some(p)) => if is_record(v, 2) {
                Some(GuestEvent { event_type: t, payload: p })
            } else {
                None
            },
            _ => None,
        }
    }
}

impl CommandRequest {
    /// The JSON form of the request.
    pub fn to_json(&self) -> (r: JsonValue)
        ensures
            r@ == request_json(self@),
    {
        let mut entries: Vec<(String, JsonValue)> = Vec::new();
        entries.push((owned("command"), JsonValue::Str(self.command.clone())));
        entries.push((owned("params"), deep_clone(&self.params)));
        proof {
            lemma_object_view(entries);
            assert(entries@.map_values(|e: (String, JsonValue)| (e.0@, e.1@)) =~= request_json(
                self@,
            )->Object_0);
        }
        JsonValue::Object(entries)
    }

    /// Reads a request from its JSON form.
    pub fn from_json(v: &JsonValue) -> (r: Option<Self>)
        ensures
            match r {
                Some(q) => request_of_json(v@) == Some(q@),
                None => request_of_json(v@) is None,
            },
    {
        match (read_slot_str(member(v, "command", 0)), read_slot_any(member(v, "params", 1))) {
            (Some(c), Some(p)) => if is_record(v, 2) {
                Some(CommandRequest { command: c, params: p })
            } else {
                None
            },
            _ => None,
        }
    }
}

impl CommandResponse {
    /// The JSON form of the reply.
    pub fn to_json(&self) -> (r: JsonValue)
        ensures
            r@ == response_json(self@),
    {
        let mut entries: Vec<(String, JsonValue)> = Vec::new();
        entries.push((owned("success"), JsonValue::Bool(self.success)));
        let data = match &self.data {
            Some(d) => deep_clone(d),
            None => JsonValue::Null,
        };
        entries.push((owned("data"), data));
        entries.push((owned("error"), opt_string_json(&self.error)));
        let ghost base = entries@;
        match &self.error_code {
            Some(c) => {
                entries.push((owned("error_code"), JsonValue::Str(c.clone())));
            },
            None => {},
        }
        proof {
            lemma_object_view(entries);
            assert(entries@.map_values(|e: (String, JsonValue)| (e.0@, e.1@)) =~= response_json(
                self@,
            )->Object_0);
        }
        JsonValue::Object(entries)
    }

    /// Reads a reply from its JSON form.
    pub fn from_json(v: &JsonValue) -> (r: Option<Self>)
        ensures
            match r {
                Some(q) => response_of_json(v@) == Some(q@),
                None => response_of_json(v@) is None,
            },
    {
        if !is_record(v, 4) {
            return None;
        }
        let success = read_slot_bool(member(v, "success", 0));
        let error = read_slot_opt_string(member(v, "error", 2));
        let code = read_slot_opt_string(member(v, "error_code", 3));
        match (success, error, code) {
            (Some(s), Some(e), Some(c)) => Some(
                CommandResponse { success: s, data: read_slot_opt_any(member(v, "data", 1)), error: e, error_code: c },
            ),
            _ => None,
        }
    }
}


/// Reads optional permissions from a field.
fn read_slot_opt_permissions(f: Option<&JsonValue>) -> (r: Option<Option<GuestRequestedPermissions>>)
    ensures
        match r {
            Some(o) => slot_opt_permissions(slot_view(f)) == Some(opt_permissions_view(o)),
            None => slot_opt_permissions(slot_view(f)) is None,
        },
{
    match f {
        None => Some(None),
        Some(f) => {
            if crate::json::is_null(f) {
                Some(None)
            } else {
                match GuestRequestedPermissions::from_json(f) {
                    Some(p) => Some(Some(p)),
                    None => None,
                }
            }
        },
    }
}

impl GuestManifest {
    /// The JSON form of the manifest.
    pub fn to_json(&self) -> (r: JsonValue)
        requires
            self.requested_permissions matches Some(p) ==> distinct_pair_keys(pairs_view(p.reasons@)),
        ensures
            r@ == manifest_json(self@),
    {
        let mut entries: Vec<(String, JsonValue)> = Vec::new();
        entries.push((owned("protocol_version"), u32_value(self.protocol_version)));
        entries.push((owned("id"), JsonValue::Str(self.id.clone())));
        entries.push((owned("name"), JsonValue::Str(self.name.clone())));
        entries.push((owned("version"), JsonValue::Str(self.version.clone())));
        entries.push((owned("description"), JsonValue::Str(self.description.clone())));
        entries.push((owned("capabilities"), strings_json(&self.capabilities)));
        let ui = clone_values(&self.ui);
        proof {
            crate::json::lemma_array_view(ui);
        }
        entries.push((owned("ui"), JsonValue::Array(ui)));
        entries.push((owned("commands"), strings_json(&self.commands)));
        let cli = clone_values(&self.cli);
        proof {
            crate::json::lemma_array_view(cli);
        }
        entries.push((owned("cli"), JsonValue::Array(cli)));
        let perms = match &self.requested_permissions {
            Some(p) => p.to_json(),
            None => JsonValue::Null,
        };
        entries.push((owned("requested_permissions"), perms));
        entries.push((owned("conversions"), strings_json(&self.conversions)));
        match &self.min_app_version {
            Some(m) => {
                entries.push((owned("min_app_version"), JsonValue::Str(m.clone())));
            },
            None => {},
        }
        proof {
            lemma_object_view(entries);
            assert(entries@.map_values(|e: (String, JsonValue)| (e.0@, e.1@)) =~= manifest_json(
                self@,
            )->Object_0);
        }
        JsonValue::Object(entries)
    }

    /// Reads a manifest from its JSON form.
    pub fn from_json(v: &JsonValue) -> (r: Option<Self>)
        ensures
            match r {
                Some(m) => manifest_of_json(v@) == Some(m@),
                None => manifest_of_json(v@) is None,
            },
    {
        if !is_record(v, 12) {
            return None;
        }
        let pv = read_slot_u32_or(member(v, "protocol_version", 0), default_protocol_version());
        let id = read_slot_str(member(v, "id", 1));
        let name = read_slot_str(member(v, "name", 2));
        let version = read_slot_str(member(v, "version", 3));
        let description = read_slot_str(member(v, "description", 4));
        let capabilities = read_slot_strings(member(v, "capabilities", 5));
        let ui = read_slot_values_or_empty(member(v, "ui", 6));
        let commands = read_slot_strings_or_empty(member(v, "commands", 7));
        let cli = read_slot_values_or_empty(member(v, "cli", 8));
        let rp = read_slot_opt_permissions(member(v, "requested_permissions", 9));
        let conversions = read_slot_strings_or_empty(member(v, "conversions", 10));
        let mav = read_slot_opt_string(member(v, "min_app_version", 11));
        match (pv, id, name, version, description, capabilities) {
            (Some(pv), Some(id), Some(name), Some(version), Some(description), Some(capabilities)) => {
                match (ui, commands, cli, rp, conversions, mav) {
                    (Some(ui), Some(commands), Some(cli), Some(rp), Some(conversions), Some(mav)) => {
                        Some(
                            GuestManifest {
                                protocol_version: pv,
                                id,
                                name,
                                version,
                                description,
                                capabilities,
                                ui,
                                commands,
                                cli,
                                requested_permissions: rp,
                                conversions,
                                min_app_version: mav,
                            },
                        )
                    },
                    _ => None,
                }
            },
            _ => None,
        }
    }
}


// ---------------------------------------------------------------------------
// JSON text
// ---------------------------------------------------------------------------

/// What reading a value from JSON text gives, given how it is read from a
/// document: nothing when the text is not JSON.
pub open spec fn of_text<T>(text: Seq<char>, read: spec_fn(Json) -> Option<T>) -> Option<T> {
    match json_parse(text) {
        Ok(j) => read(j),
        Err(_) => None,
    }
}

/// The JSON text of requested permissions: `defaults`, then `reasons` as an
/// object of strings.
pub open spec fn permissions_text(p: PermissionsModel) -> Seq<char> {
    "{"@ + entry_text("defaults"@, json_text(p.defaults)) + member_text(
        "reasons"@,
        pairs_text(p.reasons),
    ) + "}"@
}

/// The JSON text of optional permissions: `null` when there are none.
pub open spec fn opt_permissions_text(p: Option<PermissionsModel>) -> Seq<char> {
    match p {
        Some(q) => permissions_text(q),
        None => "null"@,
    }
}

/// The JSON text of a manifest: its fields in the order they are declared,
/// `min_app_version` left out when it is `None`.
pub open spec fn manifest_text(m: ManifestModel) -> Seq<char> {
    "{"@ + entry_text("protocol_version"@, decimal_text(m.protocol_version as nat)) + member_text(
        "id"@,
        json_quote(m.id),
    ) + member_text("name"@, json_quote(m.name)) + member_text("version"@, json_quote(m.version))
        + member_text("description"@, json_quote(m.description)) + member_text(
        "capabilities"@,
        strings_text(m.capabilities),
    ) + member_text("ui"@, values_text(m.ui)) + member_text("commands"@, strings_text(m.commands))
        + member_text("cli"@, values_text(m.cli)) + member_text(
        "requested_permissions"@,
        opt_permissions_text(m.requested_permissions),
    ) + member_text("conversions"@, strings_text(m.conversions)) + opt_member_text(
        "min_app_version"@,
        opt_quoted(m.min_app_version),
    ) + "}"@
}

/// The JSON text of an event: `event_type`, then `payload`.
pub open spec fn event_text(e: EventModel) -> Seq<char> {
    "{"@ + entry_text("event_type"@, json_quote(e.event_type)) + member_text(
        "payload"@,
        json_text(e.payload),
    ) + "}"@
}

/// The JSON text of a command request: `command`, then `params`.
pub open spec fn request_text(r: RequestModel) -> Seq<char> {
    "{"@ + entry_text("command"@, json_quote(r.command)) + member_text("params"@, json_text(r.params))
        + "}"@
}

/// The JSON text of a reply: `success`, `data` and `error` (`null` when
/// absent), then `error_code` only when present.
pub open spec fn response_text(r: ResponseModel) -> Seq<char> {
    "{"@ + entry_text("success"@, bool_text(r.success)) + member_text(
        "data"@,
        match r.data {
            Some(j) => json_text(j),
            None => "null"@,
        },
    ) + member_text("error"@, quoted_or_null(r.error)) + opt_member_text(
        "error_code"@,
        opt_quoted(r.error_code),
    ) + "}"@
}

impl GuestManifest {
    /// The manifest as JSON text.
    pub fn to_json_text(&self) -> (t: String)
        requires
            self.requested_permissions matches Some(p) ==> distinct_pair_keys(pairs_view(p.reasons@)),
        ensures
            t@ == manifest_text(self@),
    {
        let mut out = owned("{");
        let mut pv = String::new();
        push_decimal(&mut pv, self.protocol_version as u64);
        push_entry(&mut out, "protocol_version", pv.as_str());
        let id = quote(self.id.as_str());
        push_member(&mut out, "id", id.as_str());
        let name = quote(self.name.as_str());
        push_member(&mut out, "name", name.as_str());
        let version = quote(self.version.as_str());
        push_member(&mut out, "version", version.as_str());
        let description = quote(self.description.as_str());
        push_member(&mut out, "description", description.as_str());
        let capabilities = strings_array(&self.capabilities);
        push_member(&mut out, "capabilities", capabilities.as_str());
        let ui = values_array(&self.ui);
        push_member(&mut out, "ui", ui.as_str());
        let commands = strings_array(&self.commands);
        push_member(&mut out, "commands", commands.as_str());
        let cli = values_array(&self.cli);
        push_member(&mut out, "cli", cli.as_str());
        let perms = match &self.requested_permissions {
            Some(p) => p.to_json_text(),
            None => owned("null"),
        };
        push_member(&mut out, "requested_permissions", perms.as_str());
        let conversions = strings_array(&self.conversions);
        push_member(&mut out, "conversions", conversions.as_str());
        match &self.min_app_version {
            Some(m) => {
                let q = quote(m.as_str());
                push_member(&mut out, "min_app_version", q.as_str());
            },
            None => {},
        }
        push_str(&mut out, "}");
        assert(out@ =~= manifest_text(self@));
        out
    }

    /// Reads a manifest from JSON text. The text is parsed as a document first, so a
    /// member name given twice counts with its last value.
    pub fn from_json_text(text: &str) -> (r: Option<Self>)
        ensures
            match r {
                Some(m) => of_text(text@, |j: Json| manifest_of_json(j)) == Some(m@),
                None => of_text(text@, |j: Json| manifest_of_json(j)) is None,
            },
    {
        match parse_json(text) {
            Ok(v) => GuestManifest::from_json(&v),
            Err(_) => None,
        }
    }
}

impl GuestEvent {
    /// The event as JSON text.
    pub fn to_json_text(&self) -> (t: String)
        ensures
            t@ == event_text(self@),
    {
        let mut out = owned("{");
        let t = quote(self.event_type.as_str());
        push_entry(&mut out, "event_type", t.as_str());
        let p = json_to_string(&self.payload);
        push_member(&mut out, "payload", p.as_str());
        push_str(&mut out, "}");
        assert(out@ =~= event_text(self@));
        out
    }

    /// Reads an event from JSON text. The text is parsed as a document first, so a
    /// member name given twice counts with its last value.
    pub fn from_json_text(text: &str) -> (r: Option<Self>)
        ensures
            match r {
                Some(e) => of_text(text@, |j: Json| event_of_json(j)) == Some(e@),
                None => of_text(text@, |j: Json| event_of_json(j)) is None,
            },
    {
        match parse_json(text) {
            Ok(v) => GuestEvent::from_json(&v),
            Err(_) => None,
        }
    }
}

impl CommandRequest {
    /// The request as JSON text.
    pub fn to_json_text(&self) -> (t: String)
        ensures
            t@ == request_text(self@),
    {
        let mut out = owned("{");
        let c = quote(self.command.as_str());
        push_entry(&mut out, "command", c.as_str());
        let p = json_to_string(&self.params);
        push_member(&mut out, "params", p.as_str());
        push_str(&mut out, "}");
        assert(out@ =~= request_text(self@));
        out
    }

    /// Reads a request from JSON text. The text is parsed as a document first, so a
    /// member name given twice counts with its last value.
    pub fn from_json_text(text: &str) -> (r: Option<Self>)
        ensures
            match r {
                Some(q) => of_text(text@, |j: Json| request_of_json(j)) == Some(q@),
                None => of_text(text@, |j: Json| request_of_json(j)) is None,
            },
    {
        match parse_json(text) {
            Ok(v) => CommandRequest::from_json(&v),
            Err(_) => None,
        }
    }
}

impl CommandResponse {
    /// The reply as JSON text.
    pub fn to_json_text(&self) -> (t: String)
        ensures
            t@ == response_text(self@),
    {
        let mut out = owned("{");
        let success = if self.success {
            owned("true")
        } else {
            owned("false")
        };
        push_entry(&mut out, "success", success.as_str());
        let data = match &self.data {
            Some(d) => json_to_string(d),
            None => owned("null"),
        };
        push_member(&mut out, "data", data.as_str());
        let error = match &self.error {
            Some(e) => quote(e.as_str()),
            None => owned("null"),
        };
        push_member(&mut out, "error", error.as_str());
        match &self.error_code {
            Some(c) => {
                let q = quote(c.as_str());
                push_member(&mut out, "error_code", q.as_str());
            },
            None => {},
        }
        push_str(&mut out, "}");
        assert(out@ =~= response_text(self@));
        out
    }

    /// Reads a reply from JSON text. The text is parsed as a document first, so a
    /// member name given twice counts with its last value.
    pub fn from_json_text(text: &str) -> (r: Option<Self>)
        ensures
            match r {
                Some(q) => of_text(text@, |j: Json| response_of_json(j)) == Some(q@),
                None => of_text(text@, |j: Json| response_of_json(j)) is None,
            },
    {
        match parse_json(text) {
            Ok(v) => CommandResponse::from_json(&v),
            Err(_) => None,
        }
    }
}

// ---------------------------------------------------------------------------
// Laws
// ---------------------------------------------------------------------------

/// Requested permissions read back from their JSON form are the same
/// permissions, when no reason is given twice for one permission (as a map
/// of reasons never does).
pub proof fn lemma_permissions_roundtrip(p: PermissionsModel)
    requires
        distinct_pair_keys(p.reasons),
    ensures
        permissions_of_json(permissions_json(p)) == Some(p),
{
    reveal_strlit("defaults");
    reveal_strlit("reasons");
    let es = permissions_json(p)->Object_0;
    assert(es[0].0 == "defaults"@);
    assert(es[1].0 == "reasons"@);
    assert(distinct_keys(es));
    lemma_lookup_distinct(es, 0);
    lemma_lookup_distinct(es, 1);
    lemma_pairs_roundtrip(p.reasons);
}

/// A number written by `u32_json` reads back as itself.
pub proof fn lemma_u32_roundtrip(n: u32)
    ensures
        json_u32(u32_json(n)) == Some(n),
{
    lemma_decimal_roundtrip(n as nat);
}

/// A manifest read back from its JSON form is the same manifest: what the
/// guest declares is what the host reads (when its permission reasons name
/// each permission once).
pub proof fn lemma_manifest_roundtrip(m: ManifestModel)
    requires
        m.requested_permissions matches Some(p) ==> distinct_pair_keys(p.reasons),
    ensures
        manifest_of_json(manifest_json(m)) == Some(m),
{
    reveal_strlit("protocol_version");
    reveal_strlit("id");
    reveal_strlit("name");
    reveal_strlit("version");
    reveal_strlit("description");
    reveal_strlit("capabilities");
    reveal_strlit("ui");
    reveal_strlit("commands");
    reveal_strlit("cli");
    reveal_strlit("requested_permissions");
    reveal_strlit("conversions");
    reveal_strlit("min_app_version");
    let j = manifest_json(m);
    let es = j->Object_0;
    // The member names differ in length, or else (`id` and `ui`,
    // `description` and `conversions`) in their first character.
    assert(es[0].0 == "protocol_version"@ && es[0].0.len() == 16);
    assert(es[1].0 == "id"@ && es[1].0.len() == 2 && es[1].0[0] == 'i');
    assert(es[2].0 == "name"@ && es[2].0.len() == 4);
    assert(es[3].0 == "version"@ && es[3].0.len() == 7);
    assert(es[4].0 == "description"@ && es[4].0.len() == 11 && es[4].0[0] == 'd');
    assert(es[5].0 == "capabilities"@ && es[5].0.len() == 12);
    assert(es[6].0 == "ui"@ && es[6].0.len() == 2 && es[6].0[0] == 'u');
    assert(es[7].0 == "commands"@ && es[7].0.len() == 8);
    assert(es[8].0 == "cli"@ && es[8].0.len() == 3);
    assert(es[9].0 == "requested_permissions"@ && es[9].0.len() == 21);
    assert(es[10].0 == "conversions"@ && es[10].0.len() == 11 && es[10].0[0] == 'c');
    if m.min_app_version is Some {
        assert(es[11].0 == "min_app_version"@ && es[11].0.len() == 15);
    }
    assert(distinct_keys(es));
    lemma_u32_roundtrip(m.protocol_version);
    lemma_strings_roundtrip(m.capabilities);
    lemma_strings_roundtrip(m.commands);
    lemma_strings_roundtrip(m.conversions);
    lemma_lookup_distinct(es, 0);
    lemma_lookup_distinct(es, 1);
    lemma_lookup_distinct(es, 2);
    lemma_lookup_distinct(es, 3);
    lemma_lookup_distinct(es, 4);
    lemma_lookup_distinct(es, 5);
    lemma_lookup_distinct(es, 6);
    lemma_lookup_distinct(es, 7);
    lemma_lookup_distinct(es, 8);
    lemma_lookup_distinct(es, 9);
    lemma_lookup_distinct(es, 10);
    match m.requested_permissions {
        Some(p) => lemma_permissions_roundtrip(p),
        None => {},
    }
    match m.min_app_version {
        Some(v) => lemma_lookup_distinct(es, 11),
        None => {
            assert forall|i: int| 0 <= i < es.len() implies (#[trigger] es[i]).0
                != "min_app_version"@ by {}
            lemma_lookup_absent(es, "min_app_version"@);
        },
    }
}

/// An event read back from its JSON form is the same event.
pub proof fn lemma_event_roundtrip(e: EventModel)
    ensures
        event_of_json(event_json(e)) == Some(e),
{
    reveal_strlit("event_type");
    reveal_strlit("payload");
    let es = event_json(e)->Object_0;
    assert(es[0].0 == "event_type"@);
    assert(es[1].0 == "payload"@);
    assert(distinct_keys(es));
    lemma_lookup_distinct(es, 0);
    lemma_lookup_distinct(es, 1);
}

/// A command request read back from its JSON form is the same request.
pub proof fn lemma_request_roundtrip(r: RequestModel)
    ensures
        request_of_json(request_json(r)) == Some(r),
{
    reveal_strlit("command");
    reveal_strlit("params");
    let es = request_json(r)->Object_0;
    assert(es[0].0 == "command"@);
    assert(es[1].0 == "params"@);
    assert(distinct_keys(es));
    lemma_lookup_distinct(es, 0);
    lemma_lookup_distinct(es, 1);
}

/// A reply read back from its JSON form is the same reply, except that data
/// which is `null` itself reads back as no data (both print as `null`).
pub proof fn lemma_response_roundtrip(r: ResponseModel)
    requires
        r.data != Some(Json::Null),
    ensures
        response_of_json(response_json(r)) == Some(r),
{
    reveal_strlit("success");
    reveal_strlit("data");
    reveal_strlit("error");
    reveal_strlit("error_code");
    let es = response_json(r)->Object_0;
    assert(es[0].0 == "success"@);
    assert(es[1].0 == "data"@);
    assert(es[2].0 == "error"@);
    if r.error_code is Some {
        assert(es[3].0 == "error_code"@);
    }
    assert("success"@ != "data"@ && "success"@ != "error"@ && "success"@ != "error_code"@);
    assert("data"@ != "error"@ && "data"@ != "error_code"@ && "error"@ != "error_code"@);
    assert(distinct_keys(es));
    lemma_lookup_distinct(es, 0);
    lemma_lookup_distinct(es, 1);
    lemma_lookup_distinct(es, 2);
    match r.error_code {
        Some(c) => lemma_lookup_distinct(es, 3),
        None => {
            assert forall|i: int| 0 <= i < es.len() implies (#[trigger] es[i]).0 != "error_code"@ by {}
            lemma_lookup_absent(es, "error_code"@);
        },
    }
}

} // verus!

verus! {

/// A reply's JSON text holds each field under its name: `success` as the
/// reply's flag, `data` as the printed data or `null`, `error` as the quoted
/// message or `null`, and `error_code` when the reply has one.
pub proof fn lemma_response_text_members(r: ResponseModel)
    ensures
        has_member(response_text(r), "success"@, bool_text(r.success)),
        has_member(
            response_text(r),
            "data"@,
            match r.data {
                Some(j) => json_text(j),
                None => "null"@,
            },
        ),
        has_member(response_text(r), "error"@, quoted_or_null(r.error)),
        r.error_code matches Some(c) ==> has_member(response_text(r), "error_code"@, json_quote(c)),
{
    reveal_strlit("{");
    reveal_strlit("}");
    reveal_strlit(",");
    let data = match r.data {
        Some(j) => json_text(j),
        None => "null"@,
    };
    let base = seq![
        ("success"@, bool_text(r.success)),
        ("data"@, data),
        ("error"@, quoted_or_null(r.error)),
    ];
    let members = match r.error_code {
        Some(c) => base.push(("error_code"@, json_quote(c))),
        None => base,
    };
    let items = members.map_values(|m: (Seq<char>, Seq<char>)| entry_text(m.0, m.1));
    reveal_with_fuel(joined, 5);
    assert(joined(items.take(1)) =~= entry_text("success"@, bool_text(r.success)));
    assert(items.take(2).drop_last() =~= items.take(1));
    assert(items.take(3).drop_last() =~= items.take(2));
    assert(joined(items.take(3)) =~= entry_text("success"@, bool_text(r.success)) + member_text(
        "data"@,
        data,
    ) + member_text("error"@, quoted_or_null(r.error)));
    match r.error_code {
        Some(c) => {
            assert(items.drop_last() =~= items.take(3));
        },
        None => {
            assert(items =~= items.take(3));
        },
    }
    assert(response_text(r) =~= object_text(members));
    lemma_object_text_member(members, 0);
    lemma_object_text_member(members, 1);
    lemma_object_text_member(members, 2);
    if r.error_code is Some {
        lemma_object_text_member(members, 3);
    }
}

/// The names and value texts of a manifest's members, in order.
spec fn manifest_members(m: ManifestModel) -> Seq<(Seq<char>, Seq<char>)> {
    let base = seq![("protocol_version"@, decimal_text(m.protocol_version as nat))].push(
        ("id"@, json_quote(m.id)),
    ).push(("name"@, json_quote(m.name))).push(("version"@, json_quote(m.version))).push(
        ("description"@, json_quote(m.description)),
    ).push(("capabilities"@, strings_text(m.capabilities))).push(("ui"@, values_text(m.ui))).push(
        ("commands"@, strings_text(m.commands)),
    ).push(("cli"@, values_text(m.cli))).push(
        (
            "requested_permissions"@,
            match m.requested_permissions {
                Some(p) => permissions_text(p),
                None => "null"@,
            },
        ),
    ).push(("conversions"@, strings_text(m.conversions)));
    match m.min_app_version {
        Some(v) => base.push(("min_app_version"@, json_quote(v))),
        None => base,
    }
}

/// A manifest's text is the object of its members.
#[verifier::rlimit(30)]
#[verifier::spinoff_prover]
proof fn lemma_manifest_text_object(m: ManifestModel)
    ensures
        manifest_text(m) == object_text(manifest_members(m)),
{
    reveal_strlit("{");
    reveal_strlit("}");
    let x0 = ("protocol_version"@, decimal_text(m.protocol_version as nat));
    let m0 = seq![x0];
    assert(object_prefix(m0) == seq!['{'] + entry_text(x0.0, x0.1));
    let m1 = m0.push(("id"@, json_quote(m.id)));
    lemma_object_prefix_push(m0, ("id"@, json_quote(m.id)));
    let m2 = m1.push(("name"@, json_quote(m.name)));
    lemma_object_prefix_push(m1, ("name"@, json_quote(m.name)));
    let m3 = m2.push(("version"@, json_quote(m.version)));
    lemma_object_prefix_push(m2, ("version"@, json_quote(m.version)));
    let m4 = m3.push(("description"@, json_quote(m.description)));
    lemma_object_prefix_push(m3, ("description"@, json_quote(m.description)));
    let m5 = m4.push(("capabilities"@, strings_text(m.capabilities)));
    lemma_object_prefix_push(m4, ("capabilities"@, strings_text(m.capabilities)));
    let m6 = m5.push(("ui"@, values_text(m.ui)));
    lemma_object_prefix_push(m5, ("ui"@, values_text(m.ui)));
    let m7 = m6.push(("commands"@, strings_text(m.commands)));
    lemma_object_prefix_push(m6, ("commands"@, strings_text(m.commands)));
    let m8 = m7.push(("cli"@, values_text(m.cli)));
    lemma_object_prefix_push(m7, ("cli"@, values_text(m.cli)));
    let perms = match m.requested_permissions {
        Some(p) => permissions_text(p),
        None => "null"@,
    };
    let m9 = m8.push(("requested_permissions"@, perms));
    lemma_object_prefix_push(m8, ("requested_permissions"@, perms));
    let m10 = m9.push(("conversions"@, strings_text(m.conversions)));
    lemma_object_prefix_push(m9, ("conversions"@, strings_text(m.conversions)));
    let ms = manifest_members(m);
    match m.min_app_version {
        Some(v) => {
            lemma_object_prefix_push(m10, ("min_app_version"@, json_quote(v)));
            assert(ms == m10.push(("min_app_version"@, json_quote(v))));
        },
        None => {
            assert(ms == m10);
            let p = object_prefix(m10);
            assert(p + seq![] =~= p);
        },
    }
    lemma_object_text_prefix(ms);
}

/// A manifest's JSON text holds each field under its name, with its value
/// printed from that field of the manifest: the protocol version in
/// decimal, the texts quoted, the lists of strings and of documents as
/// arrays, the permissions (or `null`), and the minimum app version when
/// there is one.
#[verifier::spinoff_prover]
pub proof fn lemma_manifest_text_members(m: ManifestModel)
    ensures
        has_member(manifest_text(m), "protocol_version"@, decimal_text(m.protocol_version as nat)),
        has_member(manifest_text(m), "id"@, json_quote(m.id)),
        has_member(manifest_text(m), "name"@, json_quote(m.name)),
        has_member(manifest_text(m), "version"@, json_quote(m.version)),
        has_member(manifest_text(m), "description"@, json_quote(m.description)),
        has_member(manifest_text(m), "capabilities"@, strings_text(m.capabilities)),
        has_member(manifest_text(m), "ui"@, values_text(m.ui)),
        has_member(manifest_text(m), "commands"@, strings_text(m.commands)),
        has_member(manifest_text(m), "cli"@, values_text(m.cli)),
        has_member(
            manifest_text(m),
            "requested_permissions"@,
            match m.requested_permissions {
                Some(p) => permissions_text(p),
                None => "null"@,
            },
        ),
        has_member(manifest_text(m), "conversions"@, strings_text(m.conversions)),
        m.min_app_version matches Some(v) ==> has_member(
            manifest_text(m),
            "min_app_version"@,
            json_quote(v),
        ),
{
    let members = manifest_members(m);
    lemma_manifest_text_object(m);
    lemma_object_text_member(members, 0);
    lemma_object_text_member(members, 1);
    lemma_object_text_member(members, 2);
    lemma_object_text_member(members, 3);
    lemma_object_text_member(members, 4);
    lemma_object_text_member(members, 5);
    lemma_object_text_member(members, 6);
    lemma_object_text_member(members, 7);
    lemma_object_text_member(members, 8);
    lemma_object_text_member(members, 9);
    lemma_object_text_member(members, 10);
    if m.min_app_version is Some {
        lemma_object_text_member(members, 11);
    }
}

/// The JSON text of requested permissions holds the printed defaults under
/// `defaults` and the reasons, as an object of strings, under `reasons`.
pub proof fn lemma_permissions_text_members(p: PermissionsModel)
    ensures
        has_member(permissions_text(p), "defaults"@, json_text(p.defaults)),
        has_member(permissions_text(p), "reasons"@, pairs_text(p.reasons)),
{
    reveal_strlit("{");
    reveal_strlit("}");
    let m0 = seq![("defaults"@, json_text(p.defaults))];
    lemma_object_text_one("defaults"@, json_text(p.defaults));
    lemma_object_text_extend(m0, entry_text("defaults"@, json_text(p.defaults)), "reasons"@, pairs_text(p.reasons));
    let members = m0.push(("reasons"@, pairs_text(p.reasons)));
    assert(permissions_text(p) =~= object_text(members));
    lemma_object_text_member(members, 0);
    lemma_object_text_member(members, 1);
}

/// An event's JSON text holds its quoted type under `event_type` and its
/// printed payload under `payload`.
pub proof fn lemma_event_text_members(e: EventModel)
    ensures
        has_member(event_text(e), "event_type"@, json_quote(e.event_type)),
        has_member(event_text(e), "payload"@, json_text(e.payload)),
{
    reveal_strlit("{");
    reveal_strlit("}");
    let m0 = seq![("event_type"@, json_quote(e.event_type))];
    lemma_object_text_one("event_type"@, json_quote(e.event_type));
    lemma_object_text_extend(m0, entry_text("event_type"@, json_quote(e.event_type)), "payload"@, json_text(e.payload));
    let members = m0.push(("payload"@, json_text(e.payload)));
    assert(event_text(e) =~= object_text(members));
    lemma_object_text_member(members, 0);
    lemma_object_text_member(members, 1);
}

/// A command request's JSON text holds its quoted command under `command`
/// and its printed parameters under `params`.
pub proof fn lemma_request_text_members(r: RequestModel)
    ensures
        has_member(request_text(r), "command"@, json_quote(r.command)),
        has_member(request_text(r), "params"@, json_text(r.params)),
{
    reveal_strlit("{");
    reveal_strlit("}");
    let m0 = seq![("command"@, json_quote(r.command))];
    lemma_object_text_one("command"@, json_quote(r.command));
    lemma_object_text_extend(m0, entry_text("command"@, json_quote(r.command)), "params"@, json_text(r.params));
    let members = m0.push(("params"@, json_text(r.params)));
    assert(request_text(r) =~= object_text(members));
    lemma_object_text_member(members, 0);
    lemma_object_text_member(members, 1);
}

} // verus!

