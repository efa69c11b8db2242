//! The decisions of the proxy's request handlers: which application a chat
//! request belongs to, which VS Code Copilot models are offered, and the small
//! choices made while forwarding.
//!
//! The handlers themselves (reading requests, querying the database,
//! forwarding upstream) stay in the application.

use vstd::prelude::*;
use vstd::utf8::encode_utf8;

use crate::crypto::{is_rfc3339_utc_text, now_rfc3339};
use crate::json::{json_as_bool, json_as_str, json_bytes_value, json_get, keys_once, parse_json_bytes, JsonValue};
use crate::keyed::{find_key, index_of_first, key_views, lemma_index_of_first_spec};
use crate::text::{
    blank, concat, is_blank, is_white_space, lemma_blank_iff_all_white, lemma_not_blank_concat, lowercased, owned,
    str_eq, to_lowercase,
};
use crate::vscode_copilot_config::string_views;

verus! {

/// The client applications whose requests the proxy serves.
#[derive(Debug, PartialEq, Eq, Structural, Clone, Copy)]
pub enum AppType {
    Claude,
    Codex,
    Gemini,
    VscodeCopilot,
}

/// A configured provider.
#[derive(Debug)]
pub struct Provider {
    pub id: String,
    pub name: String,
    pub settings_config: JsonValue,
    pub website_url: Option<String>,
    pub category: Option<String>,
}

impl Provider {
    /// A provider with the given id, name, settings and website, and no
    /// category.
    pub fn with_id(id: String, name: String, settings_config: JsonValue, website_url: Option<String>) -> (r: Self)
        ensures
            r.id == id,
            r.name == name,
            r.settings_config == settings_config,
            r.website_url == website_url,
            r.category is None,
    {
        Provider { id, name, settings_config, website_url, category: None }
    }
}

/// What a VS Code Copilot model can do.
#[derive(Debug, Clone, Copy)]
pub struct VscodeModelCapabilities {
    pub image_input: bool,
    pub tool_calling: bool,
}

/// A model offered to VS Code Copilot.
#[derive(Debug)]
pub struct VscodeModelInfo {
    pub id: String,
    pub name: String,
    pub family: String,
    pub version: String,
    pub max_input_tokens: u64,
    pub max_output_tokens: u64,
    pub tooltip: String,
    pub capabilities: VscodeModelCapabilities,
    pub provider_id: String,
}

/// A model as plain text.
pub struct ModelView {
    pub id: Seq<char>,
    pub name: Seq<char>,
    pub family: Seq<char>,
    pub version: Seq<char>,
    pub max_input_tokens: u64,
    pub max_output_tokens: u64,
    pub tooltip: Seq<char>,
    pub image_input: bool,
    pub tool_calling: bool,
    pub provider_id: Seq<char>,
}

impl View for VscodeModelInfo {
    type V = ModelView;

    open spec fn view(&self) -> ModelView {
        ModelView {
            id: self.id@,
            name: self.name@,
            family: self.family@,
            version: self.version@,
            max_input_tokens: self.max_input_tokens,
            max_output_tokens: self.max_output_tokens,
            tooltip: self.tooltip@,
            image_input: self.capabilities.image_input,
            tool_calling: self.capabilities.tool_calling,
            provider_id: self.provider_id@,
        }
    }
}

/// The list of models answered to VS Code Copilot.
#[derive(Debug)]
pub struct VscodeModelsResponse {
    pub object: String,
    pub data: Vec<VscodeModelInfo>,
}

/// Model version used when the settings name none.
pub const DEFAULT_MODEL_VERSION: &'static str = "1.0.0";

/// Input-token limit used when the settings name none.
pub const DEFAULT_MAX_INPUT_TOKENS: u64 = 128_000;

/// Output-token limit used when the settings name none.
pub const DEFAULT_MAX_OUTPUT_TOKENS: u64 = 8_192;

/// The model that a provider stands for when its settings do not describe one.
pub open spec fn fallback_model(id: Seq<char>, name: Seq<char>, category: Option<Seq<char>>) -> ModelView {
    ModelView {
        id,
        name,
        family: match category {
            Some(c) => c,
            None => "custom"@,
        },
        version: DEFAULT_MODEL_VERSION@,
        max_input_tokens: DEFAULT_MAX_INPUT_TOKENS,
        max_output_tokens: DEFAULT_MAX_OUTPUT_TOKENS,
        tooltip: name,
        image_input: false,
        tool_calling: true,
        provider_id: id,
    }
}

/// A model with its blank fields filled from the provider: id and name from
/// the provider, family `custom`, tooltip "<name> via CC Switch"; the provider
/// id always set.
pub open spec fn with_defaults(m: ModelView, id: Seq<char>, name: Seq<char>) -> ModelView {
    let new_id = if is_blank(m.id) {
        id
    } else {
        m.id
    };
    let new_name = if is_blank(m.name) {
        name
    } else {
        m.name
    };
    ModelView {
        id: new_id,
        name: new_name,
        family: if is_blank(m.family) {
            "custom"@
        } else {
            m.family
        },
        tooltip: if is_blank(m.tooltip) {
            new_name + " via CC Switch"@
        } else {
            m.tooltip
        },
        provider_id: id,
        ..m
    }
}

/// The model a provider offers, given what its settings parse to; `None` when
/// it ends up without an id or a name.
pub open spec fn spec_vscode_model(
    id: Seq<char>,
    name: Seq<char>,
    category: Option<Seq<char>>,
    parsed: Option<ModelView>,
) -> Option<ModelView> {
    let m = with_defaults(
        match parsed {
            Some(p) => p,
            None => fallback_model(id, name, category),
        },
        id,
        name,
    );
    if is_blank(m.id) || is_blank(m.name) {
        None
    } else {
        Some(m)
    }
}

/// The view of an optional parsed model.
pub open spec fn opt_model_view(m: Option<&VscodeModelInfo>) -> Option<ModelView> {
    match m {
        Some(x) => Some(x@),
        None => None,
    }
}

/// The view of an optional string.
pub open spec fn opt_str_view(s: Option<String>) -> Option<Seq<char>> {
    match s {
        Some(t) => Some(t@),
        None => None,
    }
}

/// `s` if it is not blank, else `fallback`.
fn non_blank_or(s: &String, fallback: &str) -> (r: String)
    ensures
        r@ == if is_blank(s@) {
            fallback@
        } else {
            s@
        },
{
    if blank(s.as_str()) {
        owned(fallback)
    } else {
        s.clone()
    }
}

/// The model that `provider` offers to VS Code Copilot, given what its
/// settings parse to as a model description (`None` when they do not parse):
/// blank fields are filled from the provider, and a model still without id or
/// name is not offered.
pub fn provider_to_vscode_model(provider: &Provider, parsed: Option<&VscodeModelInfo>) -> (r: Option<
    VscodeModelInfo,
>)
    ensures
        match r {
            Some(m) => spec_vscode_model(
                provider.id@,
                provider.name@,
                opt_str_view(provider.category),
                opt_model_view(parsed),
            ) == Some(m@),
            None => spec_vscode_model(
                provider.id@,
                provider.name@,
                opt_str_view(provider.category),
                opt_model_view(parsed),
            ) is None,
        },
{
    let model = match parsed {
        Some(p) => VscodeModelInfo {
            id: p.id.clone(),
            name: p.name.clone(),
            family: p.family.clone(),
            version: p.version.clone(),
            max_input_tokens: p.max_input_tokens,
            max_output_tokens: p.max_output_tokens,
            tooltip: p.tooltip.clone(),
            capabilities: p.capabilities,
            provider_id: p.provider_id.clone(),
        },
        None => VscodeModelInfo {
            id: provider.id.clone(),
            name: provider.name.clone(),
            family: match &provider.category {
                Some(c) => c.clone(),
                None => owned("custom"),
            },
            version: owned(DEFAULT_MODEL_VERSION),
            max_input_tokens: DEFAULT_MAX_INPUT_TOKENS,
            max_output_tokens: DEFAULT_MAX_OUTPUT_TOKENS,
            tooltip: provider.name.clone(),
            capabilities: VscodeModelCapabilities { image_input: false, tool_calling: true },
            provider_id: provider.id.clone(),
        },
    };
    let ghost start = model@;
    assert(start == match opt_model_view(parsed) {
        Some(p) => p,
        None => fallback_model(provider.id@, provider.name@, opt_str_view(provider.category)),
    });
    let id = non_blank_or(&model.id, provider.id.as_str());
    let name = non_blank_or(&model.name, provider.name.as_str());
    let family = non_blank_or(&model.family, "custom");
    let tooltip = if blank(model.tooltip.as_str()) {
        concat(name.as_str(), " via CC Switch")
    } else {
        model.tooltip.clone()
    };
    let result = VscodeModelInfo {
        id,
        name,
        family,
        version: model.version,
        max_input_tokens: model.max_input_tokens,
        max_output_tokens: model.max_output_tokens,
        tooltip,
        capabilities: model.capabilities,
        provider_id: provider.id.clone(),
    };
    assert(result@ == with_defaults(start, provider.id@, provider.name@));
    if blank(result.id.as_str()) || blank(result.name.as_str()) {
        return None;
    }
    Some(result)
}

/// A header byte that `HeaderValue::to_str` accepts: visible ASCII or tab.
pub open spec fn is_visible_ascii(b: u8) -> bool {
    (32 <= b && b < 127) || b == 9
}

/// ASCII lower case of a byte.
pub open spec fn ascii_lower(b: u8) -> u8 {
    if 65 <= b <= 90 {
        (b + 32) as u8
    } else {
        b
    }
}

/// Equal up to ASCII case, as `str::eq_ignore_ascii_case` compares.
pub open spec fn eq_ignore_ascii_case(a: Seq<u8>, b: Seq<u8>) -> bool {
    a.len() == b.len() && forall|i: int| 0 <= i < a.len() ==> ascii_lower(a[i]) == ascii_lower(b[i])
}

/// Value of the `x-cc-switch-app` header that marks a VS Code Copilot request.
pub const VSCODE_COPILOT_APP: &'static str = "vscode-copilot";

/// A request comes from VS Code Copilot: its `x-cc-switch-app` header is
/// readable text equal to `vscode-copilot` up to ASCII case.
pub open spec fn spec_is_vscode_copilot_request(header: Option<Seq<u8>>) -> bool {
    match header {
        Some(v) => (forall|i: int| 0 <= i < v.len() ==> is_visible_ascii(v[i])) && eq_ignore_ascii_case(
            v,
            encode_utf8(VSCODE_COPILOT_APP@),
        ),
        None => false,
    }
}

fn lower_byte(b: u8) -> (r: u8)
    ensures
        r == ascii_lower(b),
{
    if 65 <= b && b <= 90 {
        b + 32
    } else {
        b
    }
}

/// Whether the request is from VS Code Copilot, given the bytes of its
/// `x-cc-switch-app` header (`None` when the header is absent).
#[verifier::loop_isolation(false)]
pub fn is_vscode_copilot_request(header: Option<&[u8]>) -> (r: bool)
    ensures
        r == spec_is_vscode_copilot_request(
            match header {
                Some(v) => Some(v@),
                None => None,
            },
        ),
{
    let value = match header {
        Some(v) => v,
        None => {
            return false;
        },
    };
    let mut i: usize = 0;
    while i < value.len()
        invariant
            i <= value@.len(),
            forall|k: int| 0 <= k < i ==> is_visible_ascii(value@[k]),
        decreases value.len() - i,
    {
        let b = value[i];
        if !((32 <= b && b < 127) || b == 9) {
            assert(!is_visible_ascii(value@[i as int]));
            return false;
        }
        i = i + 1;
    }
    let expected = VSCODE_COPILOT_APP.as_bytes();
    if value.len() != expected.len() {
        return false;
    }
    let mut j: usize = 0;
    while j < value.len()
        invariant
            j <= value@.len(),
            value@.len() == expected@.len(),
            expected@ == encode_utf8(VSCODE_COPILOT_APP@),
            forall|k: int| 0 <= k < j ==> ascii_lower(value@[k]) == ascii_lower(expected@[k]),
        decreases value.len() - j,
    {
        if lower_byte(value[j]) != lower_byte(expected[j]) {
            assert(ascii_lower(value@[j as int]) != ascii_lower(expected@[j as int]));
            return false;
        }
        j = j + 1;
    }
    true
}

/// The settings of `provider` name the model `request_model` as their `id`.
pub open spec fn spec_model_matches(provider: &Provider, request_model: Seq<char>) -> bool {
    json_as_str(json_get(provider.settings_config, "id"@)) == Some(request_model)
}

/// Whether the provider's settings give `request_model` as the model id.
pub fn model_matches_vscode_provider(provider: &Provider, request_model: &str) -> (r: bool)
    ensures
        r == spec_model_matches(provider, request_model@),
{
    match provider.settings_config.get("id") {
        Some(v) => match v.as_str() {
            Some(model_id) => str_eq(model_id, request_model),
            None => false,
        },
        None => false,
    }
}

/// The provider stored under `key`.
pub open spec fn provider_for(providers: Seq<(String, Provider)>, key: Seq<char>) -> Option<Provider> {
    match index_of_first(key_views(providers), key) {
        Some(i) => Some(providers[i].1),
        None => None,
    }
}

/// `id` names a provider whose settings give `request_model`.
pub open spec fn id_serves(providers: Seq<(String, Provider)>, id: Seq<char>, request_model: Seq<char>) -> bool {
    match provider_for(providers, id) {
        Some(p) => spec_model_matches(&p, request_model),
        None => false,
    }
}

/// Some id among `ids` names a provider whose settings give `request_model`.
pub open spec fn some_enabled_match(
    providers: Seq<(String, Provider)>,
    ids: Seq<Seq<char>>,
    request_model: Seq<char>,
) -> bool {
    exists|i: int| 0 <= i < ids.len() && #[trigger] id_serves(providers, ids[i], request_model)
}

/// The model that a request body names (`""` when it names none).
pub open spec fn spec_request_model(body: JsonValue) -> Seq<char> {
    match json_as_str(json_get(body, "model"@)) {
        Some(m) => m,
        None => ""@,
    }
}

/// The application a chat-completions request is for: VS Code Copilot when its
/// header says so, or when its model is that of an enabled VS Code Copilot
/// provider; Codex otherwise (also when there is no model, or the providers
/// could not be read).
pub open spec fn spec_chat_app_type(
    header: Option<Seq<u8>>,
    body: JsonValue,
    providers: Option<Seq<(String, Provider)>>,
    enabled_ids: Option<Seq<Seq<char>>>,
) -> AppType {
    if spec_is_vscode_copilot_request(header) {
        AppType::VscodeCopilot
    } else if spec_request_model(body).len() == 0 {
        AppType::Codex
    } else {
        match providers {
            Some(ps) => {
                let ids = match enabled_ids {
                    Some(v) => v,
                    None => key_views(ps),
                };
                if some_enabled_match(ps, ids, spec_request_model(body)) {
                    AppType::VscodeCopilot
                } else {
                    AppType::Codex
                }
            },
            None => AppType::Codex,
        }
    }
}

/// The model that a request body names, `""` when it names none.
pub fn request_model_of(body: &JsonValue) -> (r: &str)
    ensures
        r@ == spec_request_model(*body),
{
    match body.get("model") {
        Some(v) => match v.as_str() {
            Some(m) => m,
            None => "",
        },
        None => "",
    }
}

/// Whether the request body asks for a streamed answer (`"stream": true`).
pub fn request_is_stream(body: &JsonValue) -> (r: bool)
    ensures
        r == (json_as_bool(json_get(*body, "stream"@)) == Some(true)),
{
    match body.get("stream") {
        Some(v) => match v.as_bool() {
            Some(b) => b,
            None => false,
        },
        None => false,
    }
}

/// The keys of the providers, in order.
fn provider_keys(providers: &Vec<(String, Provider)>) -> (r: Vec<String>)
    ensures
        string_views(r@) == key_views(providers@),
{
    let mut out: Vec<String> = Vec::new();
    let mut i: usize = 0;
    while i < providers.len()
        invariant
            i <= providers@.len(),
            string_views(out@) == key_views(providers@).take(i as int),
        decreases providers.len() - i,
    {
        let ghost before = out@;
        out.push(providers[i].0.clone());
        assert(string_views(out@) =~= string_views(before).push(providers@[i as int].0@));
        assert(key_views(providers@).take(i + 1) =~= key_views(providers@).take(i as int).push(
            providers@[i as int].0@,
        ));
        assert(string_views(out@) =~= key_views(providers@).take(i + 1));
        i = i + 1;
    }
    assert(key_views(providers@).take(providers@.len() as int) =~= key_views(providers@));
    out
}

/// The bytes of a header, if present.
pub open spec fn header_bytes(header: Option<&[u8]>) -> Option<Seq<u8>> {
    match header {
        Some(v) => Some(v@),
        None => None,
    }
}

/// Which application a chat-completions request is for, where the request
/// alone decides it: VS Code Copilot by its header, Codex without a model.
/// `None` when the providers are needed, so that they are read only then.
pub fn chat_app_type_from_request(header: Option<&[u8]>, body: &JsonValue) -> (r: Option<AppType>)
    ensures
        r is None <==> (!spec_is_vscode_copilot_request(header_bytes(header)) && spec_request_model(
            *body,
        ).len() > 0),
        r matches Some(t) ==> forall|
            providers: Option<Seq<(String, Provider)>>,
            enabled_ids: Option<Seq<Seq<char>>>,
        |
            t == #[trigger] spec_chat_app_type(header_bytes(header), *body, providers, enabled_ids),
{
    if is_vscode_copilot_request(header) {
        return Some(AppType::VscodeCopilot);
    }
    if request_model_of(body).is_empty() {
        return Some(AppType::Codex);
    }
    None
}

/// Which application a chat-completions request is for. `header` is the
/// `x-cc-switch-app` header's bytes, `providers` the VS Code Copilot providers
/// by id (`None` when they could not be read), `enabled_ids` the enabled list
/// (`None` when absent or unreadable: then every provider counts).
#[verifier::loop_isolation(false)]
pub fn resolve_chat_app_type(
    header: Option<&[u8]>,
    body: &JsonValue,
    providers: Option<&Vec<(String, Provider)>>,
    enabled_ids: Option<Vec<String>>,
) -> (r: AppType)
    ensures
        r == spec_chat_app_type(
            match header {
                Some(v) => Some(v@),
                None => None,
            },
            *body,
            match providers {
                Some(p) => Some(p@),
                None => None,
            },
            match enabled_ids {
                Some(v) => Some(string_views(v@)),
                None => None,
            },
        ),
{
    if is_vscode_copilot_request(header) {
        return AppType::VscodeCopilot;
    }
    let request_model = request_model_of(body);
    if request_model.is_empty() {
        return AppType::Codex;
    }
    let ps = match providers {
        Some(ps) => ps,
        None => {
            return AppType::Codex;
        },
    };
    let ghost spec_ids = match &enabled_ids {
        Some(v) => string_views(v@),
        None => key_views(ps@),
    };
    let ids = match enabled_ids {
        Some(v) => v,
        None => provider_keys(ps),
    };
    let ghost idv = string_views(ids@);
    assert(idv == spec_ids);
    let mut i: usize = 0;
    while i < ids.len()
        invariant
            i <= ids@.len(),
            idv == string_views(ids@),
            request_model@ == spec_request_model(*body),
            forall|k: int| 0 <= k < i ==> !#[trigger] id_serves(ps@, idv[k], request_model@),
        decreases ids.len() - i,
    {
        match find_key(ps, ids[i].as_str()) {
            Some(j) => {
                if model_matches_vscode_provider(&ps[j].1, request_model) {
                    assert(idv[i as int] == ids@[i as int]@);
                    assert(provider_for(ps@, idv[i as int]) == Some(ps@[j as int].1));
                    assert(id_serves(ps@, idv[i as int], request_model@));
                    return AppType::VscodeCopilot;
                }
            },
            None => {},
        }
        i = i + 1;
    }
    AppType::Codex
}

/// What the settings of the provider at `i` parse to (`None` past the end).
pub open spec fn parsed_at(parsed: Seq<Option<VscodeModelInfo>>, i: int) -> Option<ModelView> {
    if 0 <= i < parsed.len() {
        match parsed[i] {
            Some(m) => Some(m@),
            None => None,
        }
    } else {
        None
    }
}

/// The models offered for the listed provider ids, in the order of the ids:
/// ids without a provider, and providers without a model, are skipped.
pub open spec fn spec_models_for(
    providers: Seq<(String, Provider)>,
    parsed: Seq<Option<VscodeModelInfo>>,
    ids: Seq<Seq<char>>,
) -> Seq<ModelView>
    decreases ids.len(),
{
    if ids.len() == 0 {
        Seq::empty()
    } else {
        let rest = spec_models_for(providers, parsed, ids.drop_last());
        match index_of_first(key_views(providers), ids.last()) {
            Some(i) => {
                let p = providers[i].1;
                match spec_vscode_model(p.id@, p.name@, opt_str_view(p.category), parsed_at(parsed, i)) {
                    Some(m) => rest.push(m),
                    None => rest,
                }
            },
            None => rest,
        }
    }
}

/// The answer to VS Code Copilot's model listing: the models of the enabled
/// providers, in the order they are enabled (every provider, in order, when no
/// list is kept). `parsed[i]` is what the settings of `providers[i]` parse to
/// as a model description.
pub fn vscode_models_response(
    providers: &Vec<(String, Provider)>,
    parsed: &Vec<Option<VscodeModelInfo>>,
    enabled_ids: Option<Vec<String>>,
) -> (r: VscodeModelsResponse)
    ensures
        r.object@ == "list"@,
        r.data@.map_values(|m: VscodeModelInfo| m@) == spec_models_for(
            providers@,
            parsed@,
            match enabled_ids {
                Some(v) => string_views(v@),
                None => key_views(providers@),
            },
        ),
{
    let ghost spec_ids = match &enabled_ids {
        Some(v) => string_views(v@),
        None => key_views(providers@),
    };
    let ids = match enabled_ids {
        Some(v) => v,
        None => provider_keys(providers),
    };
    let ghost idv = string_views(ids@);
    assert(idv == spec_ids);
    let mut data: Vec<VscodeModelInfo> = Vec::new();
    let mut k: usize = 0;
    while k < ids.len()
        invariant
            k <= ids@.len(),
            idv == string_views(ids@),
            data@.map_values(|m: VscodeModelInfo| m@) == spec_models_for(
                providers@,
                parsed@,
                idv.take(k as int),
            ),
        decreases ids.len() - k,
    {
        assert(idv.take(k + 1).drop_last() =~= idv.take(k as int));
        assert(idv.take(k + 1).last() == ids@[k as int]@);
        match find_key(providers, ids[k].as_str()) {
            Some(i) => {
                let parsed_model = if i < parsed.len() {
                    match &parsed[i] {
                        Some(m) => Some(m),
                        None => None,
                    }
                } else {
                    None
                };
                assert(opt_model_view(parsed_model) == parsed_at(parsed@, i as int));
                match provider_to_vscode_model(&providers[i].1, parsed_model) {
                    Some(model) => {
                        let ghost before = data@;
                        data.push(model);
                        assert(data@.map_values(|m: VscodeModelInfo| m@) =~= before.map_values(
                            |m: VscodeModelInfo| m@,
                        ).push(model@));
                    },
                    None => {},
                }
            },
            None => {},
        }
        k = k + 1;
    }
    assert(idv.take(ids@.len() as int) =~= idv);
    VscodeModelsResponse { object: owned("list"), data }
}

/// The providers whose settings give `request_model` as their model, in order.
pub open spec fn providers_for_model(ps: Seq<Provider>, request_model: Seq<char>) -> Seq<Provider>
    decreases ps.len(),
{
    if ps.len() == 0 {
        ps
    } else if spec_model_matches(&ps.last(), request_model) {
        providers_for_model(ps.drop_last(), request_model).push(ps.last())
    } else {
        providers_for_model(ps.drop_last(), request_model)
    }
}

/// For a VS Code Copilot request only the providers serving its model are
/// tried, in their order.
pub fn filter_providers_for_model(providers: Vec<Provider>, request_model: &str) -> (r: Vec<Provider>)
    ensures
        r@ == providers_for_model(providers@, request_model@),
{
    let ghost ps = providers@;
    let ghost n = ps.len();
    let mut rest = providers;
    let mut kept: Vec<Provider> = Vec::new();
    while rest.len() > 0
        invariant
            rest@.len() <= n,
            n == ps.len(),
            rest@ == ps.skip(n - rest@.len()),
            kept@ == providers_for_model(ps.take(n - rest@.len()), request_model@),
        decreases rest.len(),
    {
        let ghost before = n - rest@.len();
        let item = rest.remove(0);
        assert(ps.take(before + 1).drop_last() =~= ps.take(before));
        assert(ps.take(before + 1).last() == item);
        assert(rest@ =~= ps.skip(before + 1));
        if model_matches_vscode_provider(&item, request_model) {
            kept.push(item);
        }
    }
    assert(ps.take(n as int) =~= ps);
    kept
}

/// The label and the application name that a chat request is logged under.
pub fn chat_labels(app_type: AppType) -> (r: (&'static str, &'static str))
    ensures
        app_type == AppType::VscodeCopilot ==> r.0@ == "VSCode Copilot"@ && r.1@ == "vscode-copilot"@,
        app_type != AppType::VscodeCopilot ==> r.0@ == "Codex"@ && r.1@ == "codex"@,
{
    match app_type {
        AppType::VscodeCopilot => ("VSCode Copilot", "vscode-copilot"),
        _ => ("Codex", "codex"),
    }
}

/// The model a usage record is priced by: the requested one when the pricing
/// source is `request`, else the one that answered.
pub fn pricing_model<'a>(pricing_model_source: &str, request_model: &'a str, model: &'a str) -> (r: &'a str)
    ensures
        r@ == if pricing_model_source@ == "request"@ {
            request_model@
        } else {
            model@
        },
{
    if str_eq(pricing_model_source, "request") {
        request_model
    } else {
        model
    }
}

/// The model named by a converted response, `unknown` when it names none.
pub fn response_model_of(response: &JsonValue) -> (r: &str)
    ensures
        r@ == match json_as_str(json_get(*response, "model"@)) {
            Some(m) => m,
            None => "unknown"@,
        },
{
    match response.get("model") {
        Some(v) => match v.as_str() {
            Some(m) => m,
            None => "unknown",
        },
        None => "unknown",
    }
}

/// A header of the upstream response that is passed on to the client: all but
/// `content-length` and `transfer-encoding` (in any case), which no longer fit
/// the converted body.
pub open spec fn forwards_header(name: Seq<char>) -> bool {
    lowercased(name) != "content-length"@ && lowercased(name) != "transfer-encoding"@
}

/// Whether a header of the upstream response is passed on (`forwards_header`).
pub fn forwards_response_header(name: &str) -> (r: bool)
    ensures
        r == forwards_header(name@),
{
    let lower = to_lowercase(name);
    !str_eq(lower.as_str(), "content-length") && !str_eq(lower.as_str(), "transfer-encoding")
}

/// Headers as plain values: the name's text and the value's bytes.
pub open spec fn header_views(hs: Seq<(String, Vec<u8>)>) -> Seq<(Seq<char>, Seq<u8>)> {
    hs.map_values(|h: (String, Vec<u8>)| (h.0@, h.1@))
}

/// The headers that are passed on, in order.
pub open spec fn forwarded(hs: Seq<(Seq<char>, Seq<u8>)>) -> Seq<(Seq<char>, Seq<u8>)>
    decreases hs.len(),
{
    if hs.len() == 0 {
        hs
    } else if forwards_header(hs.last().0) {
        forwarded(hs.drop_last()).push(hs.last())
    } else {
        forwarded(hs.drop_last())
    }
}

/// Start of the message when the upstream body of a converted response is not
/// JSON.
pub const UPSTREAM_PARSE_ERROR: &'static str = "Failed to parse upstream response: ";

/// The upstream body of a response to be converted to the Anthropic format, read as
/// JSON; the error names the failure.
pub fn parse_upstream_body(body: &[u8]) -> (r: Result<JsonValue, String>)
    ensures
        r is Ok <==> json_bytes_value(body@) is Some,
        r matches Ok(v) ==> json_bytes_value(body@) == Some(v) && keys_once(v),
        r matches Err(m) ==> m@.len() >= UPSTREAM_PARSE_ERROR@.len() && m@.take(
            UPSTREAM_PARSE_ERROR@.len() as int,
        ) == UPSTREAM_PARSE_ERROR@,
{
    match parse_json_bytes(body) {
        Ok(v) => Ok(v),
        Err(e) => {
            let m = concat(UPSTREAM_PARSE_ERROR, e.as_str());
            assert((UPSTREAM_PARSE_ERROR@ + e@).take(UPSTREAM_PARSE_ERROR@.len() as int) =~= UPSTREAM_PARSE_ERROR@);
            Err(m)
        },
    }
}

/// The status and headers of a converted (non-streamed) Anthropic-format response: the
/// upstream status, the upstream headers that are passed on, in order, and
/// then `content-type: application/json`.
pub fn claude_response_parts(status: u16, upstream: &Vec<(String, Vec<u8>)>) -> (r: (u16, Vec<(String, Vec<u8>)>))
    ensures
        r.0 == status,
        header_views(r.1@) == forwarded(header_views(upstream@)).push(
            ("content-type"@, encode_utf8("application/json"@)),
        ),
{
    let ghost hs = header_views(upstream@);
    let mut out: Vec<(String, Vec<u8>)> = Vec::new();
    let mut i: usize = 0;
    while i < upstream.len()
        invariant
            i <= upstream@.len(),
            hs == header_views(upstream@),
            header_views(out@) == forwarded(hs.take(i as int)),
        decreases upstream.len() - i,
    {
        let ghost before = out@;
        assert(hs.take(i + 1).drop_last() =~= hs.take(i as int));
        assert(hs.take(i + 1).last() == hs[i as int]);
        if forwards_response_header(upstream[i].0.as_str()) {
            out.push((upstream[i].0.clone(), upstream[i].1.clone()));
            assert(header_views(out@) =~= header_views(before).push(hs[i as int]));
        }
        i = i + 1;
    }
    assert(hs.take(upstream@.len() as int) =~= hs);
    let ghost before = out@;
    out.push((owned("content-type"), "application/json".as_bytes_vec()));
    assert(header_views(out@) =~= header_views(before).push(
        ("content-type"@, encode_utf8("application/json"@)),
    ));
    (status, out)
}

/// The headers of a streamed Anthropic-format response: server-sent events, not cached,
/// connection kept open.
pub fn claude_stream_headers() -> (r: Vec<(String, String)>)
    ensures
        r@.map_values(|h: (String, String)| (h.0@, h.1@)) == seq![
            ("Content-Type"@, "text/event-stream"@),
            ("Cache-Control"@, "no-cache"@),
            ("Connection"@, "keep-alive"@),
        ],
{
    let mut r: Vec<(String, String)> = Vec::new();
    r.push((owned("Content-Type"), owned("text/event-stream")));
    r.push((owned("Cache-Control"), owned("no-cache")));
    r.push((owned("Connection"), owned("keep-alive")));
    assert(r@.map_values(|h: (String, String)| (h.0@, h.1@)) =~= seq![
        ("Content-Type"@, "text/event-stream"@),
        ("Cache-Control"@, "no-cache"@),
        ("Connection"@, "keep-alive"@),
    ]);
    r
}

/// Every model offered to VS Code Copilot carries the id of its provider and a
/// non-blank id, name, family and tooltip.
pub proof fn law_offered_model_is_complete(
    id: Seq<char>,
    name: Seq<char>,
    category: Option<Seq<char>>,
    parsed: Option<ModelView>,
)
    ensures
        spec_vscode_model(id, name, category, parsed) matches Some(m) ==> m.provider_id == id
            && !is_blank(m.id) && !is_blank(m.name) && !is_blank(m.family) && !is_blank(m.tooltip),
{
    reveal_strlit("custom");
    reveal_strlit(" via CC Switch");
    let base = match parsed {
        Some(p) => p,
        None => fallback_model(id, name, category),
    };
    let m = with_defaults(base, id, name);
    lemma_blank_iff_all_white("custom"@);
    assert(!is_white_space("custom"@[0]));
    if !is_blank(m.name) && is_blank(base.tooltip) {
        lemma_not_blank_concat(m.name, " via CC Switch"@);
    }
}

/// The upstream speaks the OpenAI Responses API (rather than Chat Completions).
pub fn uses_responses_api(api_format: &str) -> (r: bool)
    ensures
        r == (api_format@ == "openai_responses"@),
{
    str_eq(api_format, "openai_responses")
}

/// The object `{"status": "healthy", "timestamp": ts}`, with exactly these two
/// members in this order.
pub open spec fn is_health_body_at(v: JsonValue, ts: Seq<char>) -> bool {
    match v {
        JsonValue::Object(fields) => {
            &&& fields@.len() == 2
            &&& fields@[0].0@ == "status"@
            &&& json_as_str(Some(fields@[0].1)) == Some("healthy"@)
            &&& fields@[1].0@ == "timestamp"@
            &&& json_as_str(Some(fields@[1].1)) == Some(ts)
        },
        _ => false,
    }
}

/// The health check's body for the time text `timestamp`.
pub fn health_body_at(timestamp: String) -> (r: JsonValue)
    ensures
        is_health_body_at(r, timestamp@),
{
    let mut fields: Vec<(String, JsonValue)> = Vec::new();
    fields.push((owned("status"), JsonValue::String(owned("healthy"))));
    fields.push((owned("timestamp"), JsonValue::String(timestamp)));
    JsonValue::Object(fields)
}

/// The body of the health check: status `healthy` and the current time as
/// RFC 3339 text (which time depends on the clock).
pub fn health_check_body() -> (r: JsonValue)
    ensures
        exists|ts: Seq<char>| #![auto] is_rfc3339_utc_text(ts) && is_health_body_at(r, ts),
{
    let now = now_rfc3339();
    let ghost ts = now@;
    let r = health_body_at(now);
    assert(is_rfc3339_utc_text(ts) && is_health_body_at(r, ts));
    r
}

/// The providers whose settings give `m` as their model id (as a predicate).
pub open spec fn names_model(m: Seq<char>) -> spec_fn(Provider) -> bool {
    |p: Provider| json_as_str(json_get(p.settings_config, "id"@)) == Some(m)
}

/// The providers tried for a VS Code Copilot request are exactly those of the
/// input whose settings give the requested model as their `id`, in their
/// order: the result is the input filtered by that test, so every provider
/// kept serves the model and every provider serving it is kept.
pub proof fn law_tried_providers_are_those_serving_the_model(ps: Seq<Provider>, m: Seq<char>)
    ensures
        providers_for_model(ps, m) == ps.filter(names_model(m)),
        forall|k: int|
            0 <= k < providers_for_model(ps, m).len() ==> json_as_str(
                json_get(#[trigger] providers_for_model(ps, m)[k].settings_config, "id"@),
            ) == Some(m),
        forall|k: int|
            0 <= k < ps.len() && json_as_str(json_get(ps[k].settings_config, "id"@)) == Some(m)
                ==> providers_for_model(ps, m).contains(#[trigger] ps[k]),
    decreases ps.len(),
{
    reveal(Seq::filter);
    if ps.len() > 0 {
        law_tried_providers_are_those_serving_the_model(ps.drop_last(), m);
    }
    assert forall|k: int| 0 <= k < providers_for_model(ps, m).len() implies json_as_str(
        json_get(#[trigger] providers_for_model(ps, m)[k].settings_config, "id"@),
    ) == Some(m) by {
        ps.lemma_filter_pred(names_model(m), k);
    }
    assert forall|k: int|
        0 <= k < ps.len() && json_as_str(json_get(ps[k].settings_config, "id"@)) == Some(m)
            implies providers_for_model(ps, m).contains(#[trigger] ps[k]) by {
        ps.lemma_filter_contains(names_model(m), k);
    }
}

/// The ids that count as enabled: the kept list, or every provider key when no
/// list is kept.
pub open spec fn counted_ids(ps: Seq<(String, Provider)>, enabled_ids: Option<Seq<Seq<char>>>) -> Seq<Seq<char>> {
    match enabled_ids {
        Some(v) => v,
        None => key_views(ps),
    }
}

/// A chat request whose model (non-empty) is the model `id` in the settings of
/// the provider named by the enabled id at any position `i` goes to VS Code
/// Copilot, whatever its header and whatever the other enabled ids.
pub proof fn law_enabled_provider_serving_the_model_routes_to_copilot(
    header: Option<Seq<u8>>,
    body: JsonValue,
    ps: Seq<(String, Provider)>,
    enabled_ids: Option<Seq<Seq<char>>>,
    i: int,
    j: int,
)
    requires
        json_as_str(json_get(body, "model"@)) matches Some(m) && m.len() > 0,
        0 <= i < counted_ids(ps, enabled_ids).len(),
        index_of_first(key_views(ps), counted_ids(ps, enabled_ids)[i]) == Some(j),
        json_as_str(json_get(ps[j].1.settings_config, "id"@)) == json_as_str(json_get(body, "model"@)),
    ensures
        spec_chat_app_type(header, body, Some(ps), enabled_ids) == AppType::VscodeCopilot,
{
    let ids = counted_ids(ps, enabled_ids);
    let m = spec_request_model(body);
    assert(id_serves(ps, ids[i], m));
}

/// A chat request goes to VS Code Copilot only when its header says so, or
/// when the providers could be read, it names a (non-empty) model, and some
/// enabled id names a provider whose settings give that model as their `id`.
pub proof fn law_copilot_only_by_header_or_serving_provider(
    header: Option<Seq<u8>>,
    body: JsonValue,
    providers: Option<Seq<(String, Provider)>>,
    enabled_ids: Option<Seq<Seq<char>>>,
)
    ensures
        spec_chat_app_type(header, body, providers, enabled_ids) == AppType::VscodeCopilot ==> (
        spec_is_vscode_copilot_request(header) || (providers matches Some(ps) && json_as_str(
            json_get(body, "model"@),
        ) matches Some(m) && m.len() > 0 && exists|i: int|
            0 <= i < counted_ids(ps, enabled_ids).len() && (index_of_first(
                key_views(ps),
                #[trigger] counted_ids(ps, enabled_ids)[i],
            ) matches Some(j) && 0 <= j < ps.len() && json_as_str(
                json_get(ps[j].1.settings_config, "id"@),
            ) == Some(m)))),
{
    if spec_chat_app_type(header, body, providers, enabled_ids) == AppType::VscodeCopilot
        && !spec_is_vscode_copilot_request(header) {
        let ps = providers->0;
        let ids = counted_ids(ps, enabled_ids);
        let m = spec_request_model(body);
        reveal_strlit("");
        let i = choose|i: int| 0 <= i < ids.len() && #[trigger] id_serves(ps, ids[i], m);
        let j = index_of_first(key_views(ps), ids[i])->0;
        lemma_index_of_first_spec(key_views(ps), ids[i]);
        assert(0 <= i < counted_ids(ps, enabled_ids).len() && index_of_first(key_views(ps), counted_ids(ps, enabled_ids)[i]) == Some(j) && 0 <= j < ps.len());
        assert(json_as_str(json_get(ps[j].1.settings_config, "id"@)) == Some(m));
        assert(m.len() > 0);
        assert(json_as_str(json_get(body, "model"@)) == Some(m));
        assert(providers == Some(ps));
    }
}

/// The model that the provider at index `i` offers: built from that
/// provider's own id, name and category and from the description parsed from
/// that same provider's settings.
pub open spec fn own_model(ps: Seq<(String, Provider)>, parsed: Seq<Option<VscodeModelInfo>>, i: int) -> Option<ModelView> {
    spec_vscode_model(ps[i].1.id@, ps[i].1.name@, opt_str_view(ps[i].1.category), parsed_at(parsed, i))
}

/// Every model in the VS Code Copilot listing is the own model of a provider
/// named by some enabled id, built from the description at that provider's own
/// index (whatever the order of the enabled ids); and every enabled id whose
/// provider has a model gets that model listed.
pub proof fn law_listed_models_come_from_their_own_provider(
    ps: Seq<(String, Provider)>,
    parsed: Seq<Option<VscodeModelInfo>>,
    ids: Seq<Seq<char>>,
)
    ensures
        forall|k: int|
            0 <= k < spec_models_for(ps, parsed, ids).len() ==> exists|j: int|
                0 <= j < ids.len() && (index_of_first(key_views(ps), #[trigger] ids[j]) matches Some(i)
                    && 0 <= i < ps.len() && own_model(ps, parsed, i) == Some(
                    #[trigger] spec_models_for(ps, parsed, ids)[k],
                )),
        forall|j: int|
            0 <= j < ids.len() ==> match index_of_first(key_views(ps), #[trigger] ids[j]) {
                Some(i) => match own_model(ps, parsed, i) {
                    Some(m) => spec_models_for(ps, parsed, ids).contains(m),
                    None => true,
                },
                None => true,
            },
    decreases ids.len(),
{
    if ids.len() > 0 {
        let pre = ids.drop_last();
        law_listed_models_come_from_their_own_provider(ps, parsed, pre);
        let rest = spec_models_for(ps, parsed, pre);
        let out = spec_models_for(ps, parsed, ids);
        let last = ids.len() - 1;
        lemma_index_of_first_spec(key_views(ps), ids[last]);
        assert forall|k: int| 0 <= k < out.len() implies exists|j: int|
            0 <= j < ids.len() && (index_of_first(key_views(ps), #[trigger] ids[j]) matches Some(i)
                && 0 <= i < ps.len() && own_model(ps, parsed, i) == Some(#[trigger] out[k])) by {
            if k < rest.len() {
                let j = choose|j: int|
                    0 <= j < pre.len() && (index_of_first(key_views(ps), #[trigger] pre[j]) matches Some(i)
                        && 0 <= i < ps.len() && own_model(ps, parsed, i) == Some(rest[k]));
                assert(pre[j] == ids[j]);
                assert(out[k] == rest[k]);
            } else {
                assert(ids.last() == ids[last]);
                let i = index_of_first(key_views(ps), ids[last])->0;
                assert(own_model(ps, parsed, i) == Some(out[k]));
                assert(0 <= last < ids.len() && (index_of_first(key_views(ps), ids[last]) matches Some(i)
                    && 0 <= i < ps.len() && own_model(ps, parsed, i) == Some(out[k])));
            }
        }
        assert forall|j: int|
            0 <= j < ids.len() implies match index_of_first(key_views(ps), #[trigger] ids[j]) {
                Some(i) => match own_model(ps, parsed, i) {
                    Some(m) => out.contains(m),
                    None => true,
                },
                None => true,
            } by {
            if let Some(i) = index_of_first(key_views(ps), ids[j]) {
                if let Some(m) = own_model(ps, parsed, i) {
                    if j < last {
                        assert(pre[j] == ids[j]);
                        assert(rest.contains(m));
                        let w = choose|w: int| 0 <= w < rest.len() && rest[w] == m;
                        assert(out[w] == m);
                    } else {
                        assert(ids.last() == ids[j]);
                        assert(out == rest.push(m));
                        assert(out[rest.len() as int] == m);
                        assert(out.contains(m));
                    }
                }
            }
        }
    }
}

} // verus!
